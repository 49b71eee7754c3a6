//! What predicates select.
//!
//! The laws say of each operator which values it selects: for numbers by their
//! order as numbers, for text and bytes by their contents. A row is selected
//! where each of its predicates selects the value of its field, and by nothing
//! else.

use vstd::prelude::*;
use vstd::utf8::*;

use crate::bytes;
use crate::query_rows;
use crate::query_rows::RowView;
use crate::query_search;
use crate::query_search_laws;
use crate::query_types::{QueryOperandView, QueryOperator, QueryPredicateView};
use crate::scalars::QueryScalarView;
use crate::sorted_maps;
use crate::text;

verus! {

/// A predicate on a field with one scalar operand.
pub open spec fn comparison(
    field_id: Seq<u8>,
    operator: QueryOperator,
    expected: QueryScalarView,
) -> QueryPredicateView {
    QueryPredicateView { field_id, operator, operand: QueryOperandView::Scalar(expected) }
}

/// Byte strings are ordered by the first byte in which they differ; a proper
/// prefix comes first.
pub proof fn byte_strings_are_ordered_by_their_first_difference(a: Seq<u8>, b: Seq<u8>)
    ensures
        bytes::lex_less(a, b) <==> exists|k: int|
            0 <= k <= a.len() && k < b.len() && #[trigger] a.take(k) == b.take(k) && (k == a.len()
                || a[k] < b[k]),
    decreases a.len(),
{
    if b.len() > 0 {
        if a.len() == 0 {
            assert(a.take(0) =~= b.take(0));
        } else if a[0] != b[0] {
            if a[0] < b[0] {
                assert(a.take(0) =~= b.take(0));
            }
            assert forall|k: int|
                0 < k <= a.len() && k < b.len() implies #[trigger] a.take(k) != b.take(k) by {
                assert(a.take(k)[0] == a[0] && b.take(k)[0] == b[0]);
            }
        } else {
            let x = a.drop_first();
            let y = b.drop_first();
            byte_strings_are_ordered_by_their_first_difference(x, y);
            if bytes::lex_less(x, y) {
                let k = choose|k: int|
                    0 <= k <= x.len() && k < y.len() && #[trigger] x.take(k) == y.take(k) && (k
                        == x.len() || x[k] < y[k]);
                assert forall|i: int| 0 <= i < k + 1 implies a[i] == b[i] by {
                    if i > 0 {
                        assert(x.take(k)[i - 1] == y.take(k)[i - 1]);
                    }
                }
                assert(a.take(k + 1) =~= b.take(k + 1));
            }
            if exists|k: int|
                0 <= k <= a.len() && k < b.len() && #[trigger] a.take(k) == b.take(k) && (k
                    == a.len() || a[k] < b[k]) {
                let k = choose|k: int|
                    0 <= k <= a.len() && k < b.len() && #[trigger] a.take(k) == b.take(k) && (k
                        == a.len() || a[k] < b[k]);
                assert forall|i: int| 0 <= i < k - 1 implies x[i] == y[i] by {
                    assert(a.take(k)[i + 1] == b.take(k)[i + 1]);
                }
                assert(x.take(k - 1) =~= y.take(k - 1));
            }
        }
    }
}

/// A comparison of signed integers selects a value by its order as a number.
pub proof fn signed_predicates_compare_numbers(field: Seq<u8>, a: i64, e: i64)
    ensures
        ({
            let actual = Some(QueryScalarView::Signed(a));
            let expected = QueryScalarView::Signed(e);
            &&& comparison(field, QueryOperator::Less, expected).holds(actual) <==> a < e
            &&& comparison(field, QueryOperator::LessOrEqual, expected).holds(actual) <==> a <= e
            &&& comparison(field, QueryOperator::Greater, expected).holds(actual) <==> a > e
            &&& comparison(field, QueryOperator::GreaterOrEqual, expected).holds(actual) <==> a
                >= e
        }),
{
}

/// A comparison of unsigned integers selects a value by its order as a number.
pub proof fn unsigned_predicates_compare_numbers(field: Seq<u8>, a: u64, e: u64)
    ensures
        ({
            let actual = Some(QueryScalarView::Unsigned(a));
            let expected = QueryScalarView::Unsigned(e);
            &&& comparison(field, QueryOperator::Less, expected).holds(actual) <==> a < e
            &&& comparison(field, QueryOperator::LessOrEqual, expected).holds(actual) <==> a <= e
            &&& comparison(field, QueryOperator::Greater, expected).holds(actual) <==> a > e
            &&& comparison(field, QueryOperator::GreaterOrEqual, expected).holds(actual) <==> a
                >= e
        }),
{
}

/// A comparison of timestamps selects a value by its order in time.
pub proof fn timestamp_predicates_compare_times(field: Seq<u8>, a: i64, e: i64)
    ensures
        ({
            let actual = Some(QueryScalarView::Timestamp(a));
            let expected = QueryScalarView::Timestamp(e);
            &&& comparison(field, QueryOperator::Less, expected).holds(actual) <==> a < e
            &&& comparison(field, QueryOperator::LessOrEqual, expected).holds(actual) <==> a <= e
            &&& comparison(field, QueryOperator::Greater, expected).holds(actual) <==> a > e
            &&& comparison(field, QueryOperator::GreaterOrEqual, expected).holds(actual) <==> a
                >= e
        }),
{
}

/// False comes before true.
pub proof fn boolean_predicates_put_false_first(field: Seq<u8>, a: bool, e: bool)
    ensures
        ({
            let actual = Some(QueryScalarView::Boolean(a));
            let expected = QueryScalarView::Boolean(e);
            &&& comparison(field, QueryOperator::Less, expected).holds(actual) <==> !a && e
            &&& comparison(field, QueryOperator::LessOrEqual, expected).holds(actual) <==> !a || e
            &&& comparison(field, QueryOperator::Greater, expected).holds(actual) <==> a && !e
            &&& comparison(field, QueryOperator::GreaterOrEqual, expected).holds(actual) <==> a
                || !e
        }),
{
}

/// A comparison of floats selects a value by its order as a number: the sign bit
/// decides first, and among numbers of one sign the magnitude, which counts the
/// other way below zero.
pub proof fn float_predicates_compare_numbers(field: Seq<u8>, a: u64, e: u64)
    ensures
        ({
            let actual = Some(QueryScalarView::Float(a));
            let expected = QueryScalarView::Float(e);
            let sign = 0x8000_0000_0000_0000u64;
            let less = (a >= sign && e < sign) || (a < e && e < sign) || (a > e && e >= sign);
            let more = (e >= sign && a < sign) || (e < a && a < sign) || (e > a && a >= sign);
            &&& comparison(field, QueryOperator::Less, expected).holds(actual) <==> less
            &&& comparison(field, QueryOperator::LessOrEqual, expected).holds(actual) <==> less || a
                == e
            &&& comparison(field, QueryOperator::Greater, expected).holds(actual) <==> more
            &&& comparison(field, QueryOperator::GreaterOrEqual, expected).holds(actual) <==> more
                || a == e
        }),
{
}

/// A comparison of two texts, or of two byte strings, selects a value by the
/// first byte in which it differs from the operand.
pub proof fn text_predicates_compare_bytes(field: Seq<u8>, a: Seq<u8>, e: Seq<u8>, is_text: bool)
    ensures
        ({
            let actual = Some(
                if is_text {
                    QueryScalarView::String(a)
                } else {
                    QueryScalarView::Bytes(a)
                },
            );
            let expected = if is_text {
                QueryScalarView::String(e)
            } else {
                QueryScalarView::Bytes(e)
            };
            let less = exists|k: int|
                0 <= k <= a.len() && k < e.len() && #[trigger] a.take(k) == e.take(k) && (k
                    == a.len() || a[k] < e[k]);
            &&& comparison(field, QueryOperator::Less, expected).holds(actual) <==> less
            &&& comparison(field, QueryOperator::LessOrEqual, expected).holds(actual) <==> less || a
                == e
            &&& comparison(field, QueryOperator::Greater, expected).holds(actual) <==> !less && a
                != e
            &&& comparison(field, QueryOperator::GreaterOrEqual, expected).holds(actual) <==> !less
        }),
{
    byte_strings_are_ordered_by_their_first_difference(a, e);
    bytes::lex_less_total(a, e);
    bytes::lex_less_irreflexive(a);
    if bytes::lex_less(a, e) && bytes::lex_less(e, a) {
        bytes::lex_less_transitive(a, e, a);
    }
}

/// Within one type every present value is below the operand, equal to it or above
/// it, and the range operators say which. Null is neither below nor above null.
pub proof fn range_predicates_are_complementary(
    field: Seq<u8>,
    actual: QueryScalarView,
    expected: QueryScalarView,
)
    requires
        actual.scalar_type() == expected.scalar_type(),
    ensures
        ({
            let less = comparison(field, QueryOperator::Less, expected).holds(Some(actual));
            let more = comparison(field, QueryOperator::Greater, expected).holds(Some(actual));
            &&& !(less && more)
            &&& (actual == expected) == (!less && !more)
            &&& comparison(field, QueryOperator::GreaterOrEqual, expected).holds(Some(actual))
                <==> !less
            &&& comparison(field, QueryOperator::LessOrEqual, expected).holds(Some(actual))
                <==> !more
            &&& comparison(field, QueryOperator::Greater, actual).holds(Some(expected)) <==> less
        }),
{
    actual.less_total(expected);
    actual.less_irreflexive();
    if actual.less(expected) && expected.less(actual) {
        actual.less_transitive(expected, actual);
    }
}

/// No range operator selects a value of another type than the operand.
pub proof fn range_predicates_keep_to_one_type(
    field: Seq<u8>,
    actual: QueryScalarView,
    expected: QueryScalarView,
)
    requires
        actual.scalar_type() != expected.scalar_type(),
    ensures
        !comparison(field, QueryOperator::Less, expected).holds(Some(actual)),
        !comparison(field, QueryOperator::LessOrEqual, expected).holds(Some(actual)),
        !comparison(field, QueryOperator::Greater, expected).holds(Some(actual)),
        !comparison(field, QueryOperator::GreaterOrEqual, expected).holds(Some(actual)),
{
}

/// The type of a value tells its variant.
pub proof fn scalar_types_tell_variants_apart(a: QueryScalarView, b: QueryScalarView)
    ensures
        a.scalar_type() == b.scalar_type() <==> (a is Null && b is Null) || (a is Boolean && b is Boolean)
            || (a is Signed && b is Signed) || (a is Unsigned && b is Unsigned) || (a is Float
            && b is Float) || (a is Timestamp && b is Timestamp) || (a is String && b is String) || (
        a is Bytes && b is Bytes),
{
}

/// Equality selects exactly the operand, inequality every other present value, and
/// membership exactly the listed values. None of them selects an absent value.
pub proof fn equality_predicates_select_by_equality(
    field: Seq<u8>,
    actual: Option<QueryScalarView>,
    expected: QueryScalarView,
    members: Seq<QueryScalarView>,
)
    ensures
        comparison(field, QueryOperator::Equal, expected).holds(actual) <==> actual == Some(expected),
        comparison(field, QueryOperator::NotEqual, expected).holds(actual) <==> actual is Some
            && actual != Some(expected),
        (QueryPredicateView {
            field_id: field,
            operator: QueryOperator::In,
            operand: QueryOperandView::Members(members),
        }).holds(actual) <==> exists|i: int|
            0 <= i < members.len() && actual == Some(#[trigger] members[i]),
{
    if actual is Some && members.contains(actual->0) {
        let i = choose|i: int| 0 <= i < members.len() && members[i] == actual->0;
        assert(actual == Some(members[i]));
    }
}

/// Presence is all that the two presence operators look at: a null value is
/// present.
pub proof fn presence_predicates_select_by_presence(
    field: Seq<u8>,
    actual: Option<QueryScalarView>,
)
    ensures
        (QueryPredicateView {
            field_id: field,
            operator: QueryOperator::Exists,
            operand: QueryOperandView::Absent,
        }).holds(actual) <==> actual is Some,
        (QueryPredicateView {
            field_id: field,
            operator: QueryOperator::NotExists,
            operand: QueryOperandView::Absent,
        }).holds(actual) <==> actual is None,
{
}

/// The text operators select a text, or byte string, that begins with, ends with,
/// or holds the operand, byte for byte.
pub proof fn text_predicates_find_their_operand(
    field: Seq<u8>,
    a: Seq<u8>,
    e: Seq<u8>,
    is_text: bool,
)
    ensures
        ({
            let actual = Some(
                if is_text {
                    QueryScalarView::String(a)
                } else {
                    QueryScalarView::Bytes(a)
                },
            );
            let expected = if is_text {
                QueryScalarView::String(e)
            } else {
                QueryScalarView::Bytes(e)
            };
            &&& comparison(field, QueryOperator::Prefix, expected).holds(actual) <==> exists|
                rest: Seq<u8>,
            | a == #[trigger] (e + rest)
            &&& comparison(field, QueryOperator::Suffix, expected).holds(actual) <==> exists|
                front: Seq<u8>,
            | a == #[trigger] (front + e)
            &&& comparison(field, QueryOperator::Contains, expected).holds(actual) <==> exists|
                front: Seq<u8>,
                rest: Seq<u8>,
            | a == #[trigger] (front + e + rest)
        }),
{
    byte_strings_hold_their_parts(a, e);
}

/// The text operators select nothing but texts for texts and byte strings for byte
/// strings.
pub proof fn text_predicates_keep_to_one_kind(
    field: Seq<u8>,
    actual: QueryScalarView,
    expected: QueryScalarView,
)
    requires
        !(actual is String && expected is String),
        !(actual is Bytes && expected is Bytes),
    ensures
        !comparison(field, QueryOperator::Prefix, expected).holds(Some(actual)),
        !comparison(field, QueryOperator::Suffix, expected).holds(Some(actual)),
        !comparison(field, QueryOperator::Contains, expected).holds(Some(actual)),
{
}

/// No comparison selects an absent value.
pub proof fn comparisons_select_present_values(
    field: Seq<u8>,
    operator: QueryOperator,
    expected: QueryScalarView,
)
    ensures
        !comparison(field, operator, expected).holds(None),
{
}

/// Where one byte string stands in another.
proof fn byte_strings_hold_their_parts(a: Seq<u8>, e: Seq<u8>)
    ensures
        bytes::has_prefix(a, e) <==> exists|rest: Seq<u8>| a == #[trigger] (e + rest),
        query_rows::has_suffix(a, e) <==> exists|front: Seq<u8>| a == #[trigger] (front + e),
        text::holds(a, e) <==> exists|front: Seq<u8>, rest: Seq<u8>| a == #[trigger] (front + e
            + rest),
{
    if bytes::has_prefix(a, e) {
        assert(a =~= e + a.skip(e.len() as int));
    }
    if exists|rest: Seq<u8>| a == #[trigger] (e + rest) {
        let rest = choose|rest: Seq<u8>| a == #[trigger] (e + rest);
        assert(a.take(e.len() as int) =~= e);
    }
    if query_rows::has_suffix(a, e) {
        assert(a =~= a.take(a.len() - e.len()) + e);
    }
    if exists|front: Seq<u8>| a == #[trigger] (front + e) {
        let front = choose|front: Seq<u8>| a == #[trigger] (front + e);
        assert(a.skip(a.len() - e.len()) =~= e);
    }
    if text::holds(a, e) {
        let i = choose|i: int|
            0 <= i && i + e.len() <= a.len() && #[trigger] a.subrange(i, i + e.len()) == e;
        assert(a =~= a.take(i) + e + a.skip(i + e.len()));
    }
    if exists|front: Seq<u8>, rest: Seq<u8>| a == #[trigger] (front + e + rest) {
        let (front, rest) = choose|front: Seq<u8>, rest: Seq<u8>|
            a == #[trigger] (front + e + rest);
        let i = front.len() as int;
        assert(a.subrange(i, i + e.len()) =~= e);
    }
}

/// The bytes of a text of ASCII characters are its characters.
proof fn ascii_texts_are_their_bytes(name: Seq<char>)
    requires
        forall|i: int| 0 <= i < name.len() ==> '\0' <= #[trigger] name[i] <= '\u{7f}',
    ensures
        bytes::utf8(name) == Seq::new(name.len(), |i: int| name[i] as u8),
{
    assert(is_ascii_chars(name));
    is_ascii_chars_encode_utf8(name);
    assert(bytes::utf8(name) =~= Seq::new(name.len(), |i: int| name[i] as u8));
}

/// No two built-in fields have one name.
pub proof fn builtin_names_are_distinct()
    ensures
        bytes::utf8("workbench_id"@) != bytes::utf8("path"@),
        bytes::utf8("workbench_id"@) != bytes::utf8("generation"@),
        bytes::utf8("workbench_id"@) != bytes::utf8("logical_size"@),
        bytes::utf8("workbench_id"@) != bytes::utf8("body_digest_uri"@),
        bytes::utf8("workbench_id"@) != bytes::utf8("content_type"@),
        bytes::utf8("workbench_id"@) != bytes::utf8("producer"@),
        bytes::utf8("workbench_id"@) != bytes::utf8("manifest_id"@),
        bytes::utf8("path"@) != bytes::utf8("generation"@),
        bytes::utf8("path"@) != bytes::utf8("logical_size"@),
        bytes::utf8("path"@) != bytes::utf8("body_digest_uri"@),
        bytes::utf8("path"@) != bytes::utf8("content_type"@),
        bytes::utf8("path"@) != bytes::utf8("producer"@),
        bytes::utf8("path"@) != bytes::utf8("manifest_id"@),
        bytes::utf8("generation"@) != bytes::utf8("logical_size"@),
        bytes::utf8("generation"@) != bytes::utf8("body_digest_uri"@),
        bytes::utf8("generation"@) != bytes::utf8("content_type"@),
        bytes::utf8("generation"@) != bytes::utf8("producer"@),
        bytes::utf8("generation"@) != bytes::utf8("manifest_id"@),
        bytes::utf8("logical_size"@) != bytes::utf8("body_digest_uri"@),
        bytes::utf8("logical_size"@) != bytes::utf8("content_type"@),
        bytes::utf8("logical_size"@) != bytes::utf8("producer"@),
        bytes::utf8("logical_size"@) != bytes::utf8("manifest_id"@),
        bytes::utf8("body_digest_uri"@) != bytes::utf8("content_type"@),
        bytes::utf8("body_digest_uri"@) != bytes::utf8("producer"@),
        bytes::utf8("body_digest_uri"@) != bytes::utf8("manifest_id"@),
        bytes::utf8("content_type"@) != bytes::utf8("producer"@),
        bytes::utf8("content_type"@) != bytes::utf8("manifest_id"@),
        bytes::utf8("producer"@) != bytes::utf8("manifest_id"@),
{
    reveal_strlit("workbench_id");
    ascii_texts_are_their_bytes("workbench_id"@);
    assert(bytes::utf8("workbench_id"@).len() == 12);
    reveal_strlit("path");
    ascii_texts_are_their_bytes("path"@);
    assert(bytes::utf8("path"@).len() == 4);
    reveal_strlit("generation");
    ascii_texts_are_their_bytes("generation"@);
    assert(bytes::utf8("generation"@).len() == 10);
    reveal_strlit("logical_size");
    ascii_texts_are_their_bytes("logical_size"@);
    assert(bytes::utf8("logical_size"@).len() == 12);
    reveal_strlit("body_digest_uri");
    ascii_texts_are_their_bytes("body_digest_uri"@);
    assert(bytes::utf8("body_digest_uri"@).len() == 15);
    reveal_strlit("content_type");
    ascii_texts_are_their_bytes("content_type"@);
    assert(bytes::utf8("content_type"@).len() == 12);
    reveal_strlit("producer");
    ascii_texts_are_their_bytes("producer"@);
    assert(bytes::utf8("producer"@).len() == 8);
    reveal_strlit("manifest_id");
    ascii_texts_are_their_bytes("manifest_id"@);
    assert(bytes::utf8("manifest_id"@).len() == 11);
    assert(bytes::utf8("workbench_id"@)[0] == 'w' as u8);
    assert(bytes::utf8("logical_size"@)[0] == 'l' as u8);
    assert(bytes::utf8("content_type"@)[0] == 'c' as u8);
}

/// The built-in fields of a row are its own workbench, path and entry, whatever
/// its projection carries. Every other field is the one of the projection.
pub proof fn row_fields_are_read_by_name(row: RowView, field: Seq<u8>)
    ensures
        row.value(bytes::utf8("workbench_id"@)) == Some(QueryScalarView::String(row.workbench_id)),
        row.value(bytes::utf8("path"@)) == Some(QueryScalarView::String(row.path)),
        row.value(bytes::utf8("generation"@)) == Some(
            QueryScalarView::Unsigned(row.entry.generation),
        ),
        row.value(bytes::utf8("logical_size"@)) == Some(
            QueryScalarView::Unsigned(row.entry.logical_size),
        ),
        row.value(bytes::utf8("body_digest_uri"@)) == Some(
            QueryScalarView::String(row.entry.body_digest_uri),
        ),
        row.value(bytes::utf8("content_type"@)) == Some(
            QueryScalarView::String(row.entry.content_type),
        ),
        row.value(bytes::utf8("producer"@)) == Some(
            match row.entry.producer {
                Some(producer) => QueryScalarView::String(producer),
                None => QueryScalarView::Null,
            },
        ),
        row.value(bytes::utf8("manifest_id"@)) == Some(
            match row.entry.manifest_id {
                Some(manifest_id) => QueryScalarView::String(manifest_id),
                None => QueryScalarView::Null,
            },
        ),
        field != bytes::utf8("workbench_id"@) && field != bytes::utf8("path"@) && field
            != bytes::utf8("generation"@) && field != bytes::utf8("logical_size"@) && field
            != bytes::utf8("body_digest_uri"@) && field != bytes::utf8("content_type"@) && field
            != bytes::utf8("producer"@) && field != bytes::utf8("manifest_id"@)
            && sorted_maps::ascending(row.projection) ==> {
            &&& forall|i: int|
                0 <= i < row.projection.len() && (#[trigger] row.projection[i]).0 == field
                    ==> row.value(field) == Some(row.projection[i].1)
            &&& row.value(field) is Some ==> exists|i: int|
                0 <= i < row.projection.len() && #[trigger] row.projection[i] == (
                    field,
                    row.value(field)->0,
                )
        },
{
    builtin_names_are_distinct();
    if sorted_maps::ascending(row.projection) {
        assert forall|i: int|
            0 <= i < row.projection.len() && (#[trigger] row.projection[i]).0 == field implies
            sorted_maps::lookup(row.projection, field) == Some(row.projection[i].1) by {
            sorted_maps::lookup_finds(row.projection, i);
        }
        if sorted_maps::lookup(row.projection, field) is Some {
            sorted_maps::lookup_is_entry(row.projection, field);
        }
    }
}

/// The rows that a query goes on with are, in their order, exactly the candidate
/// rows in which each predicate selects the value of its field.
pub proof fn rows_are_selected_by_their_predicates(
    rows: Seq<RowView>,
    predicates: Seq<QueryPredicateView>,
    row: RowView,
)
    ensures
        query_search::matching_rows(rows, predicates).contains(row) <==> rows.contains(row) && forall|
            i: int,
        |
            0 <= i < predicates.len() ==> (#[trigger] predicates[i]).holds(
                row.value(predicates[i].field_id),
            ),
        predicates.len() == 0 ==> query_search::matching_rows(rows, predicates) == rows,
{
    query_search_laws::matching_rows_are_the_selected_ones(rows, predicates, row);
    if predicates.len() == 0 {
        all_rows_match_nothing(rows, predicates);
    }
}

/// Without predicates every row is kept.
proof fn all_rows_match_nothing(rows: Seq<RowView>, predicates: Seq<QueryPredicateView>)
    requires
        predicates.len() == 0,
    ensures
        query_search::matching_rows(rows, predicates) == rows,
    decreases rows.len(),
{
    if rows.len() > 0 {
        all_rows_match_nothing(rows.drop_last(), predicates);
        assert(rows.drop_last().push(rows.last()) =~= rows);
    } else {
        assert(query_search::matching_rows(rows, predicates) =~= rows);
    }
}

} // verus!
