//! Which texts are names.

use vstd::prelude::*;

use crate::names;
use crate::names::NameError;

verus! {

/// A field id is 1 to 128 bytes, each of them an ASCII digit or letter, a low
/// line, a full stop or a hyphen.
pub proof fn field_ids_are_of_field_bytes(b: Seq<u8>)
    ensures
        names::field_id_check(b) is Ok <==> 1 <= b.len() <= 128 && forall|i: int|
            0 <= i < b.len() ==> {
                ||| '0' as u8 <= #[trigger] b[i] <= '9' as u8
                ||| 'A' as u8 <= b[i] <= 'Z' as u8
                ||| 'a' as u8 <= b[i] <= 'z' as u8
                ||| b[i] == '_' as u8
                ||| b[i] == '.' as u8
                ||| b[i] == '-' as u8
            },
        b.len() == 0 ==> names::field_id_check(b) == Err::<(), NameError>(NameError::Empty),
        128 < b.len() <= usize::MAX ==> names::field_id_check(b) == Err::<(), NameError>(
            NameError::TooLong { length: b.len() as usize, max: 128 },
        ),
{
    names::first_unsupported_is_first(b, 0);
    let k = names::first_unsupported(b, 0);
    if k < b.len() {
        assert(!names::is_field_byte(b[k]));
    } else {
        assert forall|i: int| 0 <= i < b.len() implies names::is_field_byte(#[trigger] b[i]) by {}
    }
}

/// A byte starts a component of a path: it is the first one, or follows a slash.
pub open spec fn starts_component(b: Seq<u8>, i: int) -> bool {
    i == 0 || b[i - 1] == '/' as u8
}

/// The checks of a path from one byte on.
proof fn path_checks_are_exact(b: Seq<u8>, from: int)
    requires
        0 <= from <= b.len(),
        0 < b.len(),
    ensures
        names::path_check_from(b, from) is Ok <==> b[b.len() - 1] != '/' as u8 && forall|i: int|
            from <= i < b.len() ==> {
                &&& #[trigger] b[i] != 0
                &&& starts_component(b, i) ==> {
                    &&& b[i] != '/' as u8
                    &&& !(b[i] == '.' as u8 && (i + 1 == b.len() || b[i + 1] == '/' as u8))
                    &&& !(b[i] == '.' as u8 && i + 1 < b.len() && b[i + 1] == '.' as u8 && (i + 2
                        == b.len() || b[i + 2] == '/' as u8))
                }
            },
    decreases b.len() - from,
{
    if from < b.len() {
        path_checks_are_exact(b, from + 1);
        assert(starts_component(b, from) <==> (from == 0 || b[from - 1] == 47));
        assert(b[from] == b[from]);
    }
}

/// A path is 1 to 4096 bytes without NUL, of components between slashes, none of
/// which is empty, a single dot or a double dot. It neither begins nor ends with a
/// slash.
pub proof fn paths_are_of_plain_components(b: Seq<u8>)
    ensures
        names::path_check(b) is Ok <==> 1 <= b.len() <= 4096 && b[b.len() - 1] != '/' as u8 && forall|
            i: int,
        |
            0 <= i < b.len() ==> {
                &&& #[trigger] b[i] != 0
                &&& starts_component(b, i) ==> {
                    &&& b[i] != '/' as u8
                    &&& !(b[i] == '.' as u8 && (i + 1 == b.len() || b[i + 1] == '/' as u8))
                    &&& !(b[i] == '.' as u8 && i + 1 < b.len() && b[i + 1] == '.' as u8 && (i + 2
                        == b.len() || b[i + 2] == '/' as u8))
                }
            },
{
    if b.len() > 0 {
        path_checks_are_exact(b, 0);
    }
}

/// A workbench id is 1 to 255 bytes.
pub proof fn workbench_ids_are_bounded(b: Seq<u8>)
    ensures
        names::workbench_id_check(b) is Ok <==> 1 <= b.len() <= 255,
{
}

/// What is wrong with a path at a byte, if anything is.
pub open spec fn fault_at(b: Seq<u8>, i: int) -> Option<NameError> {
    if i == b.len() {
        if starts_component(b, i) {
            Some(NameError::EmptyComponent { offset: i as usize })
        } else {
            None
        }
    } else if b[i] == 0 {
        Some(NameError::UnsupportedByte { offset: i as usize, byte: 0 })
    } else if starts_component(b, i) && b[i] == '/' as u8 {
        Some(NameError::EmptyComponent { offset: i as usize })
    } else if starts_component(b, i) && b[i] == '.' as u8 && (i + 1 == b.len() || b[i + 1]
        == '/' as u8 || (b[i + 1] == '.' as u8 && (i + 2 == b.len() || b[i + 2] == '/' as u8))) {
        Some(NameError::DotComponent { offset: i as usize })
    } else {
        None
    }
}

proof fn first_faults_from(b: Seq<u8>, from: int)
    requires
        0 <= from <= b.len(),
    ensures
        names::path_check_from(b, from) matches Err(error) ==> exists|k: int|
            from <= k <= b.len() && #[trigger] fault_at(b, k) == Some(error) && forall|j: int|
                from <= j < k ==> #[trigger] fault_at(b, j) is None,
    decreases b.len() - from,
{
    if names::path_check_from(b, from) is Err {
        let error = names::path_check_from(b, from)->Err_0;
        if fault_at(b, from) is Some {
            assert(fault_at(b, from) == Some(error));
        } else {
            first_faults_from(b, from + 1);
            let k = choose|k: int|
                from + 1 <= k <= b.len() && #[trigger] fault_at(b, k) == Some(error) && forall|
                    j: int,
                |
                    from + 1 <= j < k ==> #[trigger] fault_at(b, j) is None;
            assert(from <= k && fault_at(b, k) == Some(error));
        }
    }
}

/// A path of a fitting length is refused for its first fault, with the place of
/// it; one that is empty or too long is refused as such.
pub proof fn wrong_paths_are_told(b: Seq<u8>)
    requires
        b.len() <= usize::MAX,
    ensures
        b.len() == 0 ==> names::path_check(b) == Err::<(), NameError>(NameError::Empty),
        b.len() > 4096 ==> names::path_check(b) == Err::<(), NameError>(
            NameError::TooLong { length: b.len() as usize, max: 4096 },
        ),
        1 <= b.len() <= 4096 ==> (names::path_check(b) matches Err(error) ==> exists|k: int|
            0 <= k <= b.len() && #[trigger] fault_at(b, k) == Some(error) && forall|j: int|
                0 <= j < k ==> #[trigger] fault_at(b, j) is None),
{
    first_faults_from(b, 0);
}

/// A field id with a byte that none has is refused with its first such byte and
/// the place of it.
pub proof fn wrong_field_ids_are_told(b: Seq<u8>, offset: usize, byte: u8)
    requires
        1 <= b.len() <= 128,
    ensures
        names::field_id_check(b) == Err::<(), NameError>(NameError::UnsupportedByte { offset, byte })
            ==> offset < b.len() && b[offset as int] == byte && names::field_id_check(seq![byte])
            is Err && (offset > 0 ==> names::field_id_check(b.take(offset as int)) is Ok),
{
    names::first_unsupported_is_first(b, 0);
    names::first_unsupported_is_first(seq![byte], 0);
    if offset <= b.len() {
        let front = b.take(offset as int);
        names::first_unsupported_is_first(front, 0);
        let k = names::first_unsupported(front, 0);
        if k < front.len() {
            assert(front[k] == b[k]);
        }
    }
    assert(seq![byte][0] == byte);
}

} // verus!
