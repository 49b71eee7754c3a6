//! Names: workbench ids, normalized relative paths, and query field ids.
//!
//! A name is modelled by the bytes of its UTF-8 text.

use vstd::prelude::*;
use vstd::utf8::*;

use crate::bytes;
use crate::text;

verus! {

/// Maximum bytes of one query field id.
pub const MAX_QUERY_FIELD_ID_BYTES: usize = 128;

/// Why a text is not a name.
#[derive(Clone, Copy, Debug, PartialEq, Eq)]
pub enum NameError {
    Empty,
    TooLong { length: usize, max: usize },
    UnsupportedByte { offset: usize, byte: u8 },
    EmptyComponent { offset: usize },
    DotComponent { offset: usize },
}

impl NameError {
    /// Bytes of the diagnostic text.
    pub open spec fn message_bytes(self) -> Seq<u8> {
        match self {
            Self::Empty => bytes::utf8("must not be empty"@),
            Self::TooLong { length, max } => bytes::utf8("is "@) + text::decimal(length as nat)
                + bytes::utf8(" bytes, maximum is "@) + text::decimal(max as nat),
            Self::UnsupportedByte { offset, byte } => bytes::utf8("unsupported byte 0x"@)
                + text::hex_pair(byte) + bytes::utf8(" at offset "@) + text::decimal(offset as nat),
            Self::EmptyComponent { offset } => bytes::utf8("empty component at offset "@)
                + text::decimal(offset as nat),
            Self::DotComponent { offset } => bytes::utf8("dot component at offset "@)
                + text::decimal(offset as nat),
        }
    }

    /// Diagnostic text of this failure.
    pub fn message(&self) -> (message: String)
        ensures
            bytes::utf8(message@) == self.message_bytes(),
    {
        let mut out: Vec<u8> = Vec::new();
        match self {
            Self::Empty => {
                text::push_text(&mut out, "must not be empty");
            },
            Self::TooLong { length, max } => {
                text::push_text(&mut out, "is ");
                text::push_decimal(&mut out, *length as u64);
                text::push_text(&mut out, " bytes, maximum is ");
                text::push_decimal(&mut out, *max as u64);
            },
            Self::UnsupportedByte { offset, byte } => {
                text::push_text(&mut out, "unsupported byte 0x");
                text::push_hex_pair(&mut out, *byte);
                text::push_text(&mut out, " at offset ");
                text::push_decimal(&mut out, *offset as u64);
            },
            Self::EmptyComponent { offset } => {
                text::push_text(&mut out, "empty component at offset ");
                text::push_decimal(&mut out, *offset as u64);
            },
            Self::DotComponent { offset } => {
                text::push_text(&mut out, "dot component at offset ");
                text::push_decimal(&mut out, *offset as u64);
            },
        }
        assert(out@ =~= self.message_bytes());
        text::finish_text(out)
    }
}

/// A byte that a query field id may hold: an ASCII letter or digit, `_`, `.`,
/// or `-`.
pub open spec fn is_field_byte(byte: u8) -> bool {
    ||| 48 <= byte <= 57
    ||| 65 <= byte <= 90
    ||| 97 <= byte <= 122
    ||| byte == 95
    ||| byte == 46
    ||| byte == 45
}

/// Whether a query field id may hold this byte.
pub fn field_byte(byte: u8) -> (allowed: bool)
    ensures
        allowed == is_field_byte(byte),
{
    (48 <= byte && byte <= 57) || (65 <= byte && byte <= 90) || (97 <= byte && byte <= 122) || byte
        == 95 || byte == 46 || byte == 45
}

/// First index at or after `from` whose byte no field id may hold, or the
/// length when there is none.
pub open spec fn first_unsupported(b: Seq<u8>, from: int) -> int
    decreases b.len() - from,
{
    if from >= b.len() || !is_field_byte(b[from]) {
        from
    } else {
        first_unsupported(b, from + 1)
    }
}

/// Every byte before the first unsupported one is supported.
pub proof fn first_unsupported_is_first(b: Seq<u8>, from: int)
    requires
        0 <= from <= b.len(),
    ensures
        from <= first_unsupported(b, from) <= b.len(),
        forall|i: int| from <= i < first_unsupported(b, from) ==> is_field_byte(#[trigger] b[i]),
        first_unsupported(b, from) < b.len() ==> !is_field_byte(b[first_unsupported(b, from)]),
    decreases b.len() - from,
{
    if from < b.len() && is_field_byte(b[from]) {
        first_unsupported_is_first(b, from + 1);
    }
}

/// Finds the first byte that no field id may hold.
pub fn find_unsupported(b: &[u8]) -> (index: usize)
    ensures
        index == first_unsupported(b@, 0),
        index <= b@.len(),
{
    let mut i: usize = 0;
    while i < b.len() && field_byte(b[i])
        invariant
            i <= b@.len(),
            first_unsupported(b@, 0) == first_unsupported(b@, i as int),
        decreases b@.len() - i,
    {
        i = i + 1;
    }
    i
}

/// Why these bytes are not a query field id, if they are not.
pub open spec fn field_id_check(b: Seq<u8>) -> Result<(), NameError> {
    if b.len() == 0 {
        Err(NameError::Empty)
    } else if b.len() > MAX_QUERY_FIELD_ID_BYTES {
        Err(
            NameError::TooLong { length: b.len() as usize, max: MAX_QUERY_FIELD_ID_BYTES },
        )
    } else if first_unsupported(b, 0) < b.len() {
        Err(
            NameError::UnsupportedByte {
                offset: first_unsupported(b, 0) as usize,
                byte: b[first_unsupported(b, 0)],
            },
        )
    } else {
        Ok(())
    }
}

/// Stable id of one query field.
#[derive(Debug, PartialEq, Eq, PartialOrd, Ord, Hash)]
pub struct QueryFieldId {
    name: String,
}

impl View for QueryFieldId {
    type V = Seq<u8>;

    closed spec fn view(&self) -> Seq<u8> {
        encode_utf8(self.name@)
    }
}

impl Clone for QueryFieldId {
    fn clone(&self) -> (copy: Self)
        ensures
            copy@ == self@,
    {
        proof {
            use_type_invariant(self);
        }
        Self { name: self.name.clone() }
    }
}

impl QueryFieldId {
    #[verifier::type_invariant]
    closed spec fn well_formed(self) -> bool {
        field_id_check(encode_utf8(self.name@)) == Ok::<(), NameError>(())
    }

    /// The field id with this text, if the text is one.
    pub fn new(name: &str) -> (result: Result<Self, NameError>)
        ensures
            match result {
                Ok(id) => field_id_check(bytes::utf8(name@)) == Ok::<(), NameError>(()) && id@
                    == bytes::utf8(name@),
                Err(e) => field_id_check(bytes::utf8(name@)) == Err::<(), NameError>(e),
            },
    {
        let b = name.as_bytes();
        if b.len() == 0 {
            return Err(NameError::Empty);
        }
        if b.len() > MAX_QUERY_FIELD_ID_BYTES {
            return Err(NameError::TooLong { length: b.len(), max: MAX_QUERY_FIELD_ID_BYTES });
        }
        let index: usize = find_unsupported(b);
        if index < b.len() {
            return Err(NameError::UnsupportedByte { offset: index, byte: b[index] });
        }
        Ok(Self { name: name.to_owned() })
    }

    /// Text of this id.
    pub fn as_str(&self) -> (name: &str)
        ensures
            bytes::utf8(name@) == self@,
    {
        self.name.as_str()
    }

    /// Bytes of this id.
    pub fn as_bytes(&self) -> (b: &[u8])
        ensures
            b@ == self@,
            field_id_check(self@) == Ok::<(), NameError>(()),
            valid_utf8(self@),
    {
        proof {
            use_type_invariant(self);
            encode_utf8_valid_utf8(self.name@);
        }
        self.name.as_str().as_bytes()
    }

    /// A copy of the text of this id.
    pub fn to_text(&self) -> (name: String)
        ensures
            bytes::utf8(name@) == self@,
    {
        self.name.clone()
    }

    /// Whether the two ids are the same.
    pub fn same(&self, other: &Self) -> (same: bool)
        ensures
            same == (self@ == other@),
    {
        bytes::bytes_equal(self.as_bytes(), other.as_bytes())
    }

    /// Whether this id comes strictly before the other.
    pub fn before(&self, other: &Self) -> (before: bool)
        ensures
            before == bytes::lex_less(self@, other@),
    {
        bytes::bytes_less(self.as_bytes(), other.as_bytes())
    }
}

/// Whether the component that starts at `from` is `.` or `..`.
pub open spec fn dot_component_at(b: Seq<u8>, from: int) -> bool {
    ||| (b[from] == 46 && (from + 1 == b.len() || b[from + 1] == 47))
    ||| (b[from] == 46 && from + 1 < b.len() && b[from + 1] == 46 && (from + 2 == b.len() || b[from
        + 2] == 47))
}

/// Checks the bytes of a path from `i` on; `i` starts a component exactly when
/// it is zero or follows a slash.
pub open spec fn path_check_from(b: Seq<u8>, i: int) -> Result<(), NameError>
    decreases b.len() - i,
{
    let starts = i == 0 || b[i - 1] == 47;
    if i >= b.len() {
        if starts {
            Err(NameError::EmptyComponent { offset: i as usize })
        } else {
            Ok(())
        }
    } else if b[i] == 0 {
        Err(NameError::UnsupportedByte { offset: i as usize, byte: 0 })
    } else if starts && b[i] == 47 {
        Err(NameError::EmptyComponent { offset: i as usize })
    } else if starts && dot_component_at(b, i) {
        Err(NameError::DotComponent { offset: i as usize })
    } else {
        path_check_from(b, i + 1)
    }
}

/// Why these bytes are not a normalized relative path, if they are not: it is
/// non-empty and bounded, holds no NUL, and no component is empty, `.`, or
/// `..`.
pub open spec fn path_check(b: Seq<u8>) -> Result<(), NameError> {
    if b.len() == 0 {
        Err(NameError::Empty)
    } else if b.len() > NormalizedRelativePath::MAX_BYTES {
        Err(
            NameError::TooLong {
                length: b.len() as usize,
                max: NormalizedRelativePath::MAX_BYTES,
            },
        )
    } else {
        path_check_from(b, 0)
    }
}

/// Slash-separated path relative to a workspace root.
#[derive(Debug, PartialEq, Eq, PartialOrd, Ord, Hash)]
pub struct NormalizedRelativePath {
    name: String,
}

impl View for NormalizedRelativePath {
    type V = Seq<u8>;

    closed spec fn view(&self) -> Seq<u8> {
        encode_utf8(self.name@)
    }
}

impl Clone for NormalizedRelativePath {
    fn clone(&self) -> (copy: Self)
        ensures
            copy@ == self@,
    {
        proof {
            use_type_invariant(self);
        }
        Self { name: self.name.clone() }
    }
}

impl NormalizedRelativePath {
    /// Maximum bytes of one path.
    pub const MAX_BYTES: usize = 4096;

    #[verifier::type_invariant]
    closed spec fn well_formed(self) -> bool {
        path_check(encode_utf8(self.name@)) == Ok::<(), NameError>(())
    }

    /// The path with this text, if the text is one.
    pub fn new(name: &str) -> (result: Result<Self, NameError>)
        ensures
            match result {
                Ok(path) => path_check(bytes::utf8(name@)) == Ok::<(), NameError>(()) && path@
                    == bytes::utf8(name@),
                Err(e) => path_check(bytes::utf8(name@)) == Err::<(), NameError>(e),
            },
    {
        let b = name.as_bytes();
        if b.len() == 0 {
            return Err(NameError::Empty);
        }
        if b.len() > Self::MAX_BYTES {
            return Err(NameError::TooLong { length: b.len(), max: Self::MAX_BYTES });
        }
        let mut i: usize = 0;
        while i < b.len()
            invariant
                i <= b@.len(),
                b@ == encode_utf8(name@),
                0 < b@.len() <= Self::MAX_BYTES,
                path_check(b@) == path_check_from(b@, i as int),
            decreases b@.len() - i,
        {
            let starts: bool = i == 0 || b[i - 1] == 47;
            if b[i] == 0 {
                return Err(NameError::UnsupportedByte { offset: i, byte: 0 });
            }
            if starts && b[i] == 47 {
                return Err(NameError::EmptyComponent { offset: i });
            }
            let single: bool = b[i] == 46 && (i + 1 == b.len() || b[i + 1] == 47);
            let double: bool = b[i] == 46 && i + 1 < b.len() && b[i + 1] == 46 && (i + 2 == b.len()
                || b[i + 2] == 47);
            if starts && (single || double) {
                return Err(NameError::DotComponent { offset: i });
            }
            i = i + 1;
        }
        if b[i - 1] == 47 {
            return Err(NameError::EmptyComponent { offset: i });
        }
        Ok(Self { name: name.to_owned() })
    }

    /// Text of this path.
    pub fn as_str(&self) -> (name: &str)
        ensures
            bytes::utf8(name@) == self@,
    {
        self.name.as_str()
    }

    /// Bytes of this path.
    pub fn as_bytes(&self) -> (b: &[u8])
        ensures
            b@ == self@,
            path_check(self@) == Ok::<(), NameError>(()),
            valid_utf8(self@),
    {
        proof {
            use_type_invariant(self);
            encode_utf8_valid_utf8(self.name@);
        }
        self.name.as_str().as_bytes()
    }
}

/// Why these bytes are not a workbench id, if they are not.
pub open spec fn workbench_id_check(b: Seq<u8>) -> Result<(), NameError> {
    if b.len() == 0 {
        Err(NameError::Empty)
    } else if b.len() > WorkbenchId::MAX_BYTES {
        Err(NameError::TooLong { length: b.len() as usize, max: WorkbenchId::MAX_BYTES })
    } else {
        Ok(())
    }
}

/// Caller-chosen name of one workbench.
#[derive(Debug, PartialEq, Eq, PartialOrd, Ord, Hash)]
pub struct WorkbenchId {
    name: String,
}

impl View for WorkbenchId {
    type V = Seq<u8>;

    closed spec fn view(&self) -> Seq<u8> {
        encode_utf8(self.name@)
    }
}

impl Clone for WorkbenchId {
    fn clone(&self) -> (copy: Self)
        ensures
            copy@ == self@,
    {
        proof {
            use_type_invariant(self);
        }
        Self { name: self.name.clone() }
    }
}

impl WorkbenchId {
    /// Maximum bytes of one workbench id.
    pub const MAX_BYTES: usize = 255;

    #[verifier::type_invariant]
    closed spec fn well_formed(self) -> bool {
        workbench_id_check(encode_utf8(self.name@)) == Ok::<(), NameError>(())
    }

    /// The workbench id with this text, if the text is one.
    pub fn new(name: &str) -> (result: Result<Self, NameError>)
        ensures
            match result {
                Ok(id) => workbench_id_check(bytes::utf8(name@)) == Ok::<(), NameError>(()) && id@
                    == bytes::utf8(name@),
                Err(e) => workbench_id_check(bytes::utf8(name@)) == Err::<(), NameError>(e),
            },
    {
        let b = name.as_bytes();
        if b.len() == 0 {
            return Err(NameError::Empty);
        }
        if b.len() > Self::MAX_BYTES {
            return Err(NameError::TooLong { length: b.len(), max: Self::MAX_BYTES });
        }
        Ok(Self { name: name.to_owned() })
    }

    /// Text of this id.
    pub fn as_str(&self) -> (name: &str)
        ensures
            bytes::utf8(name@) == self@,
    {
        self.name.as_str()
    }

    /// Bytes of this id.
    pub fn as_bytes(&self) -> (b: &[u8])
        ensures
            b@ == self@,
            workbench_id_check(self@) == Ok::<(), NameError>(()),
            valid_utf8(self@),
    {
        proof {
            use_type_invariant(self);
            encode_utf8_valid_utf8(self.name@);
        }
        self.name.as_str().as_bytes()
    }

    /// Whether the two ids are the same.
    pub fn same(&self, other: &Self) -> (same: bool)
        ensures
            same == (self@ == other@),
    {
        bytes::bytes_equal(self.as_bytes(), other.as_bytes())
    }
}

} // verus!
