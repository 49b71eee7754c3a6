//! Typed query scalars with one total order.

use vstd::prelude::*;
use vstd::utf8::*;

use crate::bytes;

verus! {

/// Maximum bytes of one text or byte scalar.
pub const MAX_QUERY_SCALAR_BYTES: usize = 65536;

/// Bits of a binary64 negative zero.
pub const NEGATIVE_ZERO_BITS: u64 = 0x8000_0000_0000_0000;

/// Whether these bits are those of a finite binary64 number: the exponent is
/// not all ones.
pub open spec fn finite_bits(bits: u64) -> bool {
    (bits >> 52) & 0x7ff != 0x7ff
}

/// A number that is not finite.
#[derive(Clone, Copy, Debug, PartialEq, Eq, Structural)]
pub struct NonFiniteFloat;

/// A finite binary64 number, held as its bits. Zero is always positive.
#[derive(Clone, Copy, Debug, PartialEq, Eq, Hash)]
pub struct FiniteFloat {
    bits: u64,
}

impl View for FiniteFloat {
    type V = u64;

    closed spec fn view(&self) -> u64 {
        self.bits
    }
}

/// The bits that a finite number is held as: negative zero becomes zero.
pub open spec fn canonical_bits(bits: u64) -> u64 {
    if bits == NEGATIVE_ZERO_BITS {
        0
    } else {
        bits
    }
}

/// The bits that a [`FiniteFloat`] may hold.
pub open spec fn canonical_float(bits: u64) -> bool {
    finite_bits(bits) && bits != NEGATIVE_ZERO_BITS
}

/// A key that orders canonical bits as the numbers they stand for: the
/// magnitude bits, or the complement of the magnitude under a set sign bit.
pub open spec fn float_key(bits: u64) -> int {
    if bits >= NEGATIVE_ZERO_BITS {
        NEGATIVE_ZERO_BITS - bits - 1
    } else {
        bits as int
    }
}

impl FiniteFloat {
    #[verifier::type_invariant]
    closed spec fn well_formed(self) -> bool {
        canonical_float(self.bits)
    }

    /// The number with these bits, if it is finite; negative zero becomes zero.
    pub fn from_bits(bits: u64) -> (result: Result<Self, NonFiniteFloat>)
        ensures
            result is Ok <==> finite_bits(bits),
            result matches Ok(float) ==> float@ == canonical_bits(bits),
    {
        if (bits >> 52) & 0x7ff == 0x7ff {
            return Err(NonFiniteFloat);
        }
        if bits == NEGATIVE_ZERO_BITS {
            assert((0u64 >> 52) & 0x7ff == 0) by (bit_vector);
            return Ok(Self { bits: 0 });
        }
        Ok(Self { bits })
    }

    /// Bits of this number.
    pub fn to_bits(self) -> (bits: u64)
        ensures
            bits == self@,
            canonical_float(bits),
    {
        proof {
            use_type_invariant(self);
        }
        self.bits
    }
}

/// Type of one scalar.
#[derive(Clone, Copy, Debug, PartialEq, Eq, PartialOrd, Ord, Hash, Structural)]
pub enum QueryScalarType {
    Null,
    Boolean,
    Signed,
    Unsigned,
    Float,
    Timestamp,
    String,
    Bytes,
}

impl View for QueryScalarType {
    type V = QueryScalarType;

    open spec fn view(&self) -> QueryScalarType {
        *self
    }
}

impl QueryScalarType {
    /// Name of this type in diagnostics.
    pub open spec fn name(self) -> &'static str {
        match self {
            Self::Null => "Null",
            Self::Boolean => "Boolean",
            Self::Signed => "Signed",
            Self::Unsigned => "Unsigned",
            Self::Float => "Float",
            Self::Timestamp => "Timestamp",
            Self::String => "String",
            Self::Bytes => "Bytes",
        }
    }

    /// Name of this type in diagnostics.
    pub fn label(self) -> (name: &'static str)
        ensures
            name == self.name(),
    {
        match self {
            Self::Null => "Null",
            Self::Boolean => "Boolean",
            Self::Signed => "Signed",
            Self::Unsigned => "Unsigned",
            Self::Float => "Float",
            Self::Timestamp => "Timestamp",
            Self::String => "String",
            Self::Bytes => "Bytes",
        }
    }

    /// Position of this type in the scalar order and in cursor bytes.
    pub open spec fn rank(self) -> u8 {
        match self {
            Self::Null => 1,
            Self::Boolean => 2,
            Self::Signed => 3,
            Self::Unsigned => 4,
            Self::Float => 5,
            Self::Timestamp => 6,
            Self::String => 7,
            Self::Bytes => 8,
        }
    }

    /// Position of this type in the scalar order and in cursor bytes.
    pub fn to_rank(self) -> (rank: u8)
        ensures
            rank == self.rank(),
    {
        match self {
            Self::Null => 1,
            Self::Boolean => 2,
            Self::Signed => 3,
            Self::Unsigned => 4,
            Self::Float => 5,
            Self::Timestamp => 6,
            Self::String => 7,
            Self::Bytes => 8,
        }
    }
}

/// One typed query value.
#[derive(Debug, PartialEq, Eq, Hash)]
pub enum QueryScalar {
    Null,
    Boolean(bool),
    Signed(i64),
    Unsigned(u64),
    Float(FiniteFloat),
    Timestamp(i64),
    String(String),
    Bytes(Vec<u8>),
}

/// Contents of a [`QueryScalar`]; text is its UTF-8 bytes.
pub enum QueryScalarView {
    Null,
    Boolean(bool),
    Signed(i64),
    Unsigned(u64),
    Float(u64),
    Timestamp(i64),
    String(Seq<u8>),
    Bytes(Seq<u8>),
}

impl View for QueryScalar {
    type V = QueryScalarView;

    open spec fn view(&self) -> QueryScalarView {
        match self {
            Self::Null => QueryScalarView::Null,
            Self::Boolean(value) => QueryScalarView::Boolean(*value),
            Self::Signed(value) => QueryScalarView::Signed(*value),
            Self::Unsigned(value) => QueryScalarView::Unsigned(*value),
            Self::Float(value) => QueryScalarView::Float(value@),
            Self::Timestamp(value) => QueryScalarView::Timestamp(*value),
            Self::String(value) => QueryScalarView::String(encode_utf8(value@)),
            Self::Bytes(value) => QueryScalarView::Bytes(value@),
        }
    }
}

impl QueryScalarView {
    /// Type of this value.
    pub open spec fn scalar_type(self) -> QueryScalarType {
        match self {
            Self::Null => QueryScalarType::Null,
            Self::Boolean(_) => QueryScalarType::Boolean,
            Self::Signed(_) => QueryScalarType::Signed,
            Self::Unsigned(_) => QueryScalarType::Unsigned,
            Self::Float(_) => QueryScalarType::Float,
            Self::Timestamp(_) => QueryScalarType::Timestamp,
            Self::String(_) => QueryScalarType::String,
            Self::Bytes(_) => QueryScalarType::Bytes,
        }
    }

    /// Whether this value comes strictly before the other: first by type, then
    /// by value within the type.
    pub open spec fn less(self, other: Self) -> bool {
        match (self, other) {
            (Self::Boolean(a), Self::Boolean(b)) => !a && b,
            (Self::Signed(a), Self::Signed(b)) => a < b,
            (Self::Unsigned(a), Self::Unsigned(b)) => a < b,
            (Self::Float(a), Self::Float(b)) => float_key(a) < float_key(b),
            (Self::Timestamp(a), Self::Timestamp(b)) => a < b,
            (Self::String(a), Self::String(b)) => bytes::lex_less(a, b),
            (Self::Bytes(a), Self::Bytes(b)) => bytes::lex_less(a, b),
            (a, b) => a.scalar_type().rank() < b.scalar_type().rank(),
        }
    }

    /// The contents that a [`QueryScalar`] can have.
    pub open spec fn valid(self) -> bool {
        match self {
            Self::Float(bits) => canonical_float(bits),
            Self::String(b) => valid_utf8(b),
            _ => true,
        }
    }

    /// The order never puts a value before itself.
    pub proof fn less_irreflexive(self)
        ensures
            !self.less(self),
    {
        match self {
            Self::String(a) => bytes::lex_less_irreflexive(a),
            Self::Bytes(a) => bytes::lex_less_irreflexive(a),
            _ => {},
        }
    }

    /// The order is transitive.
    pub proof fn less_transitive(self, b: Self, c: Self)
        requires
            self.less(b),
            b.less(c),
        ensures
            self.less(c),
    {
        match (self, b, c) {
            (Self::String(x), Self::String(y), Self::String(z)) => bytes::lex_less_transitive(
                x,
                y,
                z,
            ),
            (Self::Bytes(x), Self::Bytes(y), Self::Bytes(z)) => bytes::lex_less_transitive(x, y, z),
            _ => {},
        }
    }

    /// Two different values are ordered one way or the other.
    pub proof fn less_total(self, other: Self)
        ensures
            self == other || self.less(other) || other.less(self),
    {
        match (self, other) {
            (Self::String(a), Self::String(b)) => bytes::lex_less_total(a, b),
            (Self::Bytes(a), Self::Bytes(b)) => bytes::lex_less_total(a, b),
            _ => {},
        }
    }
}

impl Clone for QueryScalar {
    fn clone(&self) -> (copy: Self)
        ensures
            copy@ == self@,
    {
        match self {
            Self::Null => Self::Null,
            Self::Boolean(value) => Self::Boolean(*value),
            Self::Signed(value) => Self::Signed(*value),
            Self::Unsigned(value) => Self::Unsigned(*value),
            Self::Float(value) => Self::Float(*value),
            Self::Timestamp(value) => Self::Timestamp(*value),
            Self::String(value) => Self::String(value.clone()),
            Self::Bytes(value) => Self::Bytes(vstd::slice::slice_to_vec(value.as_slice())),
        }
    }
}

impl QueryScalar {
    /// Type of this value.
    pub fn scalar_type(&self) -> (scalar_type: QueryScalarType)
        ensures
            scalar_type == self@.scalar_type(),
            self@.valid(),
    {
        match self {
            Self::Null => QueryScalarType::Null,
            Self::Boolean(_) => QueryScalarType::Boolean,
            Self::Signed(_) => QueryScalarType::Signed,
            Self::Unsigned(_) => QueryScalarType::Unsigned,
            Self::Float(value) => {
                let canonical: u64 = value.to_bits();
                QueryScalarType::Float
            },
            Self::Timestamp(_) => QueryScalarType::Timestamp,
            Self::String(value) => {
                proof {
                    encode_utf8_valid_utf8(value@);
                }
                QueryScalarType::String
            },
            Self::Bytes(_) => QueryScalarType::Bytes,
        }
    }

    /// Whether this value is null.
    pub fn is_null(&self) -> (null: bool)
        ensures
            null == (self@ == QueryScalarView::Null),
    {
        match self {
            Self::Null => true,
            _ => false,
        }
    }

    /// Whether the two values are the same.
    pub fn same(&self, other: &Self) -> (same: bool)
        ensures
            same == (self@ == other@),
    {
        match (self, other) {
            (Self::Null, Self::Null) => true,
            (Self::Boolean(a), Self::Boolean(b)) => *a == *b,
            (Self::Signed(a), Self::Signed(b)) => *a == *b,
            (Self::Unsigned(a), Self::Unsigned(b)) => *a == *b,
            (Self::Float(a), Self::Float(b)) => a.to_bits() == b.to_bits(),
            (Self::Timestamp(a), Self::Timestamp(b)) => *a == *b,
            (Self::String(a), Self::String(b)) => bytes::bytes_equal(
                a.as_str().as_bytes(),
                b.as_str().as_bytes(),
            ),
            (Self::Bytes(a), Self::Bytes(b)) => bytes::bytes_equal(a.as_slice(), b.as_slice()),
            _ => false,
        }
    }

    /// Whether this value comes strictly before the other.
    pub fn before(&self, other: &Self) -> (before: bool)
        ensures
            before == self@.less(other@),
    {
        match (self, other) {
            (Self::Boolean(a), Self::Boolean(b)) => !*a && *b,
            (Self::Signed(a), Self::Signed(b)) => *a < *b,
            (Self::Unsigned(a), Self::Unsigned(b)) => *a < *b,
            (Self::Float(a), Self::Float(b)) => {
                let a: u64 = a.to_bits();
                let b: u64 = b.to_bits();
                if a >= NEGATIVE_ZERO_BITS {
                    b < NEGATIVE_ZERO_BITS || b < a
                } else {
                    b < NEGATIVE_ZERO_BITS && a < b
                }
            },
            (Self::Timestamp(a), Self::Timestamp(b)) => *a < *b,
            (Self::String(a), Self::String(b)) => bytes::bytes_less(
                a.as_str().as_bytes(),
                b.as_str().as_bytes(),
            ),
            (Self::Bytes(a), Self::Bytes(b)) => bytes::bytes_less(a.as_slice(), b.as_slice()),
            _ => self.scalar_type().to_rank() < other.scalar_type().to_rank(),
        }
    }
}

} // verus!
