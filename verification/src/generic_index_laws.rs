//! What holds of Generic index codecs.

use vstd::prelude::*;
use vstd::utf8::*;

use crate::bytes;
use crate::generic_index_format;
use crate::generic_index_records::{
    CommitGenericIndexMemberRecordView, GenericIndexAppendReceiptRecordView,
    GenericIndexCurrentRecordView, GenericIndexFailure, GenericIndexFieldCapabilityView,
    GenericIndexFieldValuesView, GenericIndexGenerationRecordView,
    GenericIndexGenerationRefRecordView, GenericIndexOperator, GenericIndexRecordError,
    GenericIndexRegistrationOperationRecordView, GenericIndexRowBindingView,
    GenericIndexRowRecordView, GENERIC_INDEX_VALUE_FORMAT_VERSION, MAX_GENERIC_INDEX_FIELDS,
    MAX_GENERIC_INDEX_OPERATORS, MAX_GENERIC_INDEX_ROW_BYTES, MAX_GENERIC_INDEX_ROW_FIELDS,
    MAX_GENERIC_INDEX_TERMINAL_ERROR_BYTES,
};
use crate::generic_index_validate;
use crate::names;
use crate::names::{NormalizedRelativePath, MAX_QUERY_FIELD_ID_BYTES};
use crate::records;
use crate::scalars::{QueryScalarView, MAX_QUERY_SCALAR_BYTES};

verus! {

broadcast use crate::bytes::group_big_endian;

/// Reading the first part of a concatenation leaves the second.
proof fn take_first_part(a: Seq<u8>, t: Seq<u8>, field: &'static str)
    ensures
        generic_index_format::take_field(a + t, field, a.len()) == Ok::<
            (Seq<u8>, Seq<u8>),
            GenericIndexFailure,
        >((a, t)),
{
    reveal(generic_index_format::take_field);
    bytes::concat_splits(a, t);
}

/// What is split off and what is left make up the input.
proof fn take_parts_join(b: Seq<u8>, field: &'static str, width: nat)
    ensures
        generic_index_format::take_field(b, field, width) matches Ok((a, t)) ==> b == a + t
            && a.len() == width,
{
    reveal(generic_index_format::take_field);
    if b.len() >= width {
        assert(b =~= b.take(width as int) + b.skip(width as int));
    }
}

/// One byte and what follows it read back.
proof fn u8_reads_back(x: u8, t: Seq<u8>, field: &'static str)
    ensures
        generic_index_format::parse_u8(seq![x] + t, field) == Ok::<
            (u8, Seq<u8>),
            GenericIndexFailure,
        >((x, t)),
{
    take_first_part(seq![x], t, field);
}

/// A byte that was read is what the input starts with.
proof fn u8_joins(b: Seq<u8>, field: &'static str)
    ensures
        generic_index_format::parse_u8(b, field) matches Ok((x, t)) ==> b == seq![x] + t,
{
    take_parts_join(b, field, 1);
    if generic_index_format::take_field(b, field, 1) is Ok {
        let a = generic_index_format::take_field(b, field, 1)->Ok_0.0;
        assert(a =~= seq![a[0]]);
    }
}

/// A 16-bit integer and what follows it read back.
proof fn u16_reads_back(x: u16, t: Seq<u8>, field: &'static str)
    ensures
        generic_index_format::parse_u16(bytes::be16(x) + t, field) == Ok::<
            (u16, Seq<u8>),
            GenericIndexFailure,
        >((x, t)),
{
    take_first_part(bytes::be16(x), t, field);
}

/// A 16-bit integer that was read is what the input starts with.
proof fn u16_joins(b: Seq<u8>, field: &'static str)
    ensures
        generic_index_format::parse_u16(b, field) matches Ok((x, t)) ==> b == bytes::be16(x) + t,
{
    take_parts_join(b, field, 2);
}

/// A 32-bit integer and what follows it read back.
proof fn u32_reads_back(x: u32, t: Seq<u8>, field: &'static str)
    ensures
        generic_index_format::parse_u32(bytes::be32(x) + t, field) == Ok::<
            (u32, Seq<u8>),
            GenericIndexFailure,
        >((x, t)),
{
    take_first_part(bytes::be32(x), t, field);
}

/// A 32-bit integer that was read is what the input starts with.
proof fn u32_joins(b: Seq<u8>, field: &'static str)
    ensures
        generic_index_format::parse_u32(b, field) matches Ok((x, t)) ==> b == bytes::be32(x) + t,
{
    take_parts_join(b, field, 4);
}

/// A 64-bit integer and what follows it read back.
proof fn u64_reads_back(x: u64, t: Seq<u8>, field: &'static str)
    ensures
        generic_index_format::parse_u64(bytes::be64(x) + t, field) == Ok::<
            (u64, Seq<u8>),
            GenericIndexFailure,
        >((x, t)),
{
    take_first_part(bytes::be64(x), t, field);
}

/// A 64-bit integer that was read is what the input starts with.
proof fn u64_joins(b: Seq<u8>, field: &'static str)
    ensures
        generic_index_format::parse_u64(b, field) matches Ok((x, t)) ==> b == bytes::be64(x) + t,
{
    take_parts_join(b, field, 8);
}

/// A short byte string and what follows it read back.
proof fn short_bytes_read_back(value: Seq<u8>, t: Seq<u8>, field: &'static str, max: usize)
    requires
        value.len() <= max,
        value.len() <= u16::MAX,
    ensures
        generic_index_format::parse_short_bytes(
            generic_index_format::short_prefixed(value) + t,
            field,
            max,
        ) == Ok::<(Seq<u8>, Seq<u8>), GenericIndexFailure>((value, t)),
{
    bytes::concat_regroups(bytes::be16(value.len() as u16), value, t);
    u16_reads_back(value.len() as u16, value + t, field);
    take_first_part(value, t, field);
}

/// A short byte string that was read is what the input starts with.
proof fn short_bytes_join(b: Seq<u8>, field: &'static str, max: usize)
    ensures
        generic_index_format::parse_short_bytes(b, field, max) matches Ok((value, t))
            ==> value.len() <= max && value.len() <= u16::MAX && b
            == generic_index_format::short_prefixed(value) + t,
{
    u16_joins(b, field);
    if generic_index_format::parse_short_bytes(b, field, max) is Ok {
        let length = generic_index_format::parse_u16(b, field)->Ok_0.0;
        let rest = generic_index_format::parse_u16(b, field)->Ok_0.1;
        take_parts_join(rest, field, length as nat);
        let value = generic_index_format::take_field(rest, field, length as nat)->Ok_0.0;
        let t = generic_index_format::take_field(rest, field, length as nat)->Ok_0.1;
        bytes::concat_regroups(bytes::be16(length), value, t);
    }
}

/// A text and what follows it read back.
proof fn long_text_reads_back(value: Seq<u8>, t: Seq<u8>, field: &'static str, max: usize)
    requires
        value.len() <= max,
        value.len() <= u32::MAX,
        valid_utf8(value),
    ensures
        generic_index_format::parse_long_text(records::length_prefixed(value) + t, field, max)
            == Ok::<(Seq<u8>, Seq<u8>), GenericIndexFailure>((value, t)),
{
    bytes::concat_regroups(bytes::be32(value.len() as u32), value, t);
    u32_reads_back(value.len() as u32, value + t, field);
    take_first_part(value, t, field);
}

/// A text that was read is what the input starts with.
proof fn long_text_joins(b: Seq<u8>, field: &'static str, max: usize)
    ensures
        generic_index_format::parse_long_text(b, field, max) matches Ok((value, t))
            ==> value.len() <= max && value.len() <= u32::MAX && valid_utf8(value) && b
            == records::length_prefixed(value) + t,
{
    u32_joins(b, field);
    if generic_index_format::parse_long_text(b, field, max) is Ok {
        let length = generic_index_format::parse_u32(b, field)->Ok_0.0;
        let rest = generic_index_format::parse_u32(b, field)->Ok_0.1;
        take_parts_join(rest, field, length as nat);
        let value = generic_index_format::take_field(rest, field, length as nat)->Ok_0.0;
        let t = generic_index_format::take_field(rest, field, length as nat)->Ok_0.1;
        bytes::concat_regroups(bytes::be32(length), value, t);
    }
}

/// A field id and what follows it read back.
proof fn field_id_reads_back(field: Seq<u8>, t: Seq<u8>)
    requires
        valid_utf8(field),
        names::field_id_check(field) is Ok,
    ensures
        generic_index_format::parse_field_id(generic_index_format::short_prefixed(field) + t)
            == Ok::<(Seq<u8>, Seq<u8>), GenericIndexFailure>((field, t)),
{
    short_bytes_read_back(field, t, "field_id", MAX_QUERY_FIELD_ID_BYTES);
}

/// A field id that was read is what the input starts with.
proof fn field_id_joins(b: Seq<u8>)
    ensures
        generic_index_format::parse_field_id(b) matches Ok((field, t)) ==> valid_utf8(field)
            && names::field_id_check(field) is Ok && b == generic_index_format::short_prefixed(
            field,
        ) + t,
{
    short_bytes_join(b, "field_id", MAX_QUERY_FIELD_ID_BYTES);
}

/// An optional path and what follows it read back.
pub proof fn optional_path_reads_back(value: Option<Seq<u8>>, t: Seq<u8>)
    requires
        value matches Some(path) ==> valid_utf8(path) && names::path_check(path) is Ok,
    ensures
        generic_index_format::parse_optional_path(generic_index_format::optional_text(value) + t)
            == Ok::<(Option<Seq<u8>>, Seq<u8>), GenericIndexFailure>((value, t)),
{
    match value {
        None => u8_reads_back(0, t, "path_tag"),
        Some(path) => {
            bytes::concat_regroups(seq![1u8], records::length_prefixed(path), t);
            u8_reads_back(1, records::length_prefixed(path) + t, "path_tag");
            long_text_reads_back(path, t, "relative_path", NormalizedRelativePath::MAX_BYTES);
        },
    }
}

/// An optional path that was read is what the input starts with.
proof fn optional_path_joins(b: Seq<u8>)
    ensures
        generic_index_format::parse_optional_path(b) matches Ok((value, t)) ==> b
            == generic_index_format::optional_text(value) + t && (value matches Some(path)
            ==> valid_utf8(path) && names::path_check(path) is Ok),
{
    u8_joins(b, "path_tag");
    if generic_index_format::parse_optional_path(b) is Ok {
        let rest = generic_index_format::parse_u8(b, "path_tag")->Ok_0.1;
        long_text_joins(rest, "relative_path", NormalizedRelativePath::MAX_BYTES);
        match generic_index_format::parse_optional_path(b)->Ok_0.0 {
            None => {},
            Some(path) => {
                let t = generic_index_format::parse_optional_path(b)->Ok_0.1;
                bytes::concat_regroups(seq![1u8], records::length_prefixed(path), t);
            },
        }
    }
}

/// An optional text and what follows it read back.
proof fn optional_text_reads_back(
    value: Option<Seq<u8>>,
    t: Seq<u8>,
    field: &'static str,
    max: usize,
)
    requires
        value matches Some(v) ==> valid_utf8(v) && v.len() <= max && v.len() <= u32::MAX,
    ensures
        generic_index_format::parse_optional_text(
            generic_index_format::optional_text(value) + t,
            field,
            max,
        ) == Ok::<(Option<Seq<u8>>, Seq<u8>), GenericIndexFailure>((value, t)),
{
    match value {
        None => u8_reads_back(0, t, field),
        Some(v) => {
            bytes::concat_regroups(seq![1u8], records::length_prefixed(v), t);
            u8_reads_back(1, records::length_prefixed(v) + t, field);
            long_text_reads_back(v, t, field, max);
        },
    }
}

/// An optional text that was read is what the input starts with.
proof fn optional_text_joins(b: Seq<u8>, field: &'static str, max: usize)
    ensures
        generic_index_format::parse_optional_text(b, field, max) matches Ok((value, t)) ==> b
            == generic_index_format::optional_text(value) + t && (value matches Some(v)
            ==> valid_utf8(v) && v.len() <= max),
{
    u8_joins(b, field);
    if generic_index_format::parse_optional_text(b, field, max) is Ok {
        let rest = generic_index_format::parse_u8(b, field)->Ok_0.1;
        long_text_joins(rest, field, max);
        match generic_index_format::parse_optional_text(b, field, max)->Ok_0.0 {
            None => {},
            Some(v) => {
                let t = generic_index_format::parse_optional_text(b, field, max)->Ok_0.1;
                bytes::concat_regroups(seq![1u8], records::length_prefixed(v), t);
            },
        }
    }
}

/// An optional position and what follows it read back.
proof fn optional_position_reads_back(value: Option<u64>, t: Seq<u8>, field: &'static str)
    requires
        value matches Some(v) ==> v != 0,
    ensures
        generic_index_format::parse_optional_position(
            generic_index_format::optional_position(value) + t,
            field,
        ) == Ok::<(Option<u64>, Seq<u8>), GenericIndexFailure>((value, t)),
{
    match value {
        None => u8_reads_back(0, t, field),
        Some(v) => {
            bytes::concat_regroups(seq![1u8], bytes::be64(v), t);
            u8_reads_back(1, bytes::be64(v) + t, field);
            u64_reads_back(v, t, field);
        },
    }
}

/// An optional position that was read is what the input starts with.
proof fn optional_position_joins(b: Seq<u8>, field: &'static str)
    ensures
        generic_index_format::parse_optional_position(b, field) matches Ok((value, t)) ==> b
            == generic_index_format::optional_position(value) + t && (value matches Some(v)
            ==> v != 0),
{
    u8_joins(b, field);
    if generic_index_format::parse_optional_position(b, field) is Ok {
        let rest = generic_index_format::parse_u8(b, field)->Ok_0.1;
        u64_joins(rest, field);
        match generic_index_format::parse_optional_position(b, field)->Ok_0.0 {
            None => {},
            Some(v) => {
                let t = generic_index_format::parse_optional_position(b, field)->Ok_0.1;
                bytes::concat_regroups(seq![1u8], bytes::be64(v), t);
            },
        }
    }
}

/// A boolean and what follows it read back.
proof fn bool_reads_back(value: bool, t: Seq<u8>, field: &'static str)
    ensures
        generic_index_format::parse_bool(
            seq![generic_index_format::bool_byte(value)] + t,
            field,
        ) == Ok::<(bool, Seq<u8>), GenericIndexFailure>((value, t)),
{
    u8_reads_back(generic_index_format::bool_byte(value), t, field);
}

/// A boolean that was read is what the input starts with.
proof fn bool_joins(b: Seq<u8>, field: &'static str)
    ensures
        generic_index_format::parse_bool(b, field) matches Ok((value, t)) ==> b == seq![
            generic_index_format::bool_byte(value),
        ] + t,
{
    u8_joins(b, field);
}

/// Operators and what follows them read back.
proof fn operators_read_back(operators: Seq<GenericIndexOperator>, t: Seq<u8>)
    ensures
        generic_index_format::parse_operators(
            generic_index_format::operators_encoding(operators) + t,
            operators.len(),
        ) == Ok::<(Seq<GenericIndexOperator>, Seq<u8>), GenericIndexFailure>((operators, t)),
    decreases operators.len(),
{
    if operators.len() == 0 {
        assert(Seq::<u8>::empty() + t =~= t);
        assert(operators =~= Seq::empty());
    } else {
        let head = seq![operators[0].byte()];
        let tail = operators.drop_first();
        let tail_bytes = generic_index_format::operators_encoding(tail);
        bytes::concat_regroups(head, tail_bytes, t);
        u8_reads_back(operators[0].byte(), tail_bytes + t, "operator");
        operators_read_back(tail, t);
        assert(seq![operators[0]] + tail =~= operators);
    }
}

/// Operators that were read are what the input starts with.
proof fn operators_join(b: Seq<u8>, count: nat)
    ensures
        generic_index_format::parse_operators(b, count) matches Ok((operators, t))
            ==> operators.len() == count && b == generic_index_format::operators_encoding(operators)
            + t,
    decreases count,
{
    if count == 0 {
        assert(Seq::<u8>::empty() + b =~= b);
    } else if generic_index_format::parse_operators(b, count) is Ok {
        u8_joins(b, "operator");
        let operator = generic_index_format::parse_operator(b)->Ok_0.0;
        let rest = generic_index_format::parse_operator(b)->Ok_0.1;
        operators_join(rest, (count - 1) as nat);
        let tail = generic_index_format::parse_operators(rest, (count - 1) as nat)->Ok_0.0;
        let t = generic_index_format::parse_operators(rest, (count - 1) as nat)->Ok_0.1;
        let operators = seq![operator] + tail;
        assert(operators.drop_first() =~= tail);
        bytes::concat_regroups(
            seq![operator.byte()],
            generic_index_format::operators_encoding(tail),
            t,
        );
    }
}

/// A capability whose operators are few enough reads back.
proof fn capability_reads_back(v: GenericIndexFieldCapabilityView, t: Seq<u8>)
    requires
        v.sized(),
        v.operators.len() <= MAX_GENERIC_INDEX_OPERATORS,
    ensures
        GenericIndexFieldCapabilityView::parse(v.encoding() + t) == Ok::<
            (GenericIndexFieldCapabilityView, Seq<u8>),
            GenericIndexFailure,
        >((v, t)),
{
    let p1 = generic_index_format::short_prefixed(v.field);
    let p2 = seq![v.operators.len() as u8];
    let p3 = generic_index_format::operators_encoding(v.operators);
    let p4 = seq![generic_index_format::bool_byte(v.sortable)];
    let p5 = seq![generic_index_format::bool_byte(v.facetable)];
    let t5 = p5 + t;
    let t4 = p4 + t5;
    let t3 = p3 + t4;
    let t2 = p2 + t3;
    bytes::concat_regroups(p1 + p2 + p3 + p4, p5, t);
    bytes::concat_regroups(p1 + p2 + p3, p4, t5);
    bytes::concat_regroups(p1 + p2, p3, t4);
    bytes::concat_regroups(p1, p2, t3);
    field_id_reads_back(v.field, t2);
    u8_reads_back(v.operators.len() as u8, t3, "operator_count");
    operators_read_back(v.operators, t4);
    bool_reads_back(v.sortable, t5, "sortable");
    bool_reads_back(v.facetable, t, "facetable");
}

/// A capability that was read is what the input starts with.
proof fn capability_joins(b: Seq<u8>)
    ensures
        GenericIndexFieldCapabilityView::parse(b) matches Ok((v, t)) ==> v.sized()
            && v.operators.len() <= MAX_GENERIC_INDEX_OPERATORS && b == v.encoding() + t,
{
    if GenericIndexFieldCapabilityView::parse(b) is Ok {
        let v = GenericIndexFieldCapabilityView::parse(b)->Ok_0.0;
        let t = GenericIndexFieldCapabilityView::parse(b)->Ok_0.1;
        field_id_joins(b);
        let b1 = generic_index_format::parse_field_id(b)->Ok_0.1;
        u8_joins(b1, "operator_count");
        let count = generic_index_format::parse_u8(b1, "operator_count")->Ok_0.0;
        let b2 = generic_index_format::parse_u8(b1, "operator_count")->Ok_0.1;
        operators_join(b2, count as nat);
        let b3 = generic_index_format::parse_operators(b2, count as nat)->Ok_0.1;
        bool_joins(b3, "sortable");
        let b4 = generic_index_format::parse_bool(b3, "sortable")->Ok_0.1;
        bool_joins(b4, "facetable");
        let p1 = generic_index_format::short_prefixed(v.field);
        let p2 = seq![v.operators.len() as u8];
        let p3 = generic_index_format::operators_encoding(v.operators);
        let p4 = seq![generic_index_format::bool_byte(v.sortable)];
        let p5 = seq![generic_index_format::bool_byte(v.facetable)];
        let t5 = p5 + t;
        let t4 = p4 + t5;
        let t3 = p3 + t4;
        bytes::concat_regroups(p1 + p2 + p3 + p4, p5, t);
        bytes::concat_regroups(p1 + p2 + p3, p4, t5);
        bytes::concat_regroups(p1 + p2, p3, t4);
        bytes::concat_regroups(p1, p2, t3);
    }
}

/// Every capability has few enough operators.
spec fn operators_bounded(capabilities: Seq<GenericIndexFieldCapabilityView>) -> bool {
    forall|i: int|
        0 <= i < capabilities.len() ==> (#[trigger] capabilities[i]).operators.len()
            <= MAX_GENERIC_INDEX_OPERATORS
}

/// Capabilities and what follows them read back.
proof fn capability_list_reads_back(capabilities: Seq<GenericIndexFieldCapabilityView>, t: Seq<u8>)
    requires
        generic_index_format::capabilities_sized(capabilities),
        operators_bounded(capabilities),
    ensures
        generic_index_format::parse_capability_list(
            generic_index_format::capability_list_encoding(capabilities) + t,
            capabilities.len(),
        ) == Ok::<(Seq<GenericIndexFieldCapabilityView>, Seq<u8>), GenericIndexFailure>(
            (capabilities, t),
        ),
    decreases capabilities.len(),
{
    if capabilities.len() == 0 {
        assert(Seq::<u8>::empty() + t =~= t);
        assert(capabilities =~= Seq::empty());
    } else {
        let tail = capabilities.drop_first();
        let tail_bytes = generic_index_format::capability_list_encoding(tail);
        assert forall|i: int| 0 <= i < tail.len() implies #[trigger] tail[i] == capabilities[i
            + 1] by {}
        bytes::concat_regroups(capabilities[0].encoding(), tail_bytes, t);
        capability_reads_back(capabilities[0], tail_bytes + t);
        capability_list_reads_back(tail, t);
        assert(seq![capabilities[0]] + tail =~= capabilities);
    }
}

/// Capabilities that were read are what the input starts with.
proof fn capability_list_joins(b: Seq<u8>, count: nat)
    ensures
        generic_index_format::parse_capability_list(b, count) matches Ok((capabilities, t))
            ==> capabilities.len() == count && generic_index_format::capabilities_sized(
            capabilities,
        ) && b == generic_index_format::capability_list_encoding(capabilities) + t,
    decreases count,
{
    if count == 0 {
        assert(Seq::<u8>::empty() + b =~= b);
    } else if generic_index_format::parse_capability_list(b, count) is Ok {
        capability_joins(b);
        let capability = GenericIndexFieldCapabilityView::parse(b)->Ok_0.0;
        let rest = GenericIndexFieldCapabilityView::parse(b)->Ok_0.1;
        capability_list_joins(rest, (count - 1) as nat);
        let tail = generic_index_format::parse_capability_list(rest, (count - 1) as nat)->Ok_0.0;
        let t = generic_index_format::parse_capability_list(rest, (count - 1) as nat)->Ok_0.1;
        let capabilities = seq![capability] + tail;
        assert(capabilities.drop_first() =~= tail);
        bytes::concat_regroups(
            capability.encoding(),
            generic_index_format::capability_list_encoding(tail),
            t,
        );
    }
}

/// Strictly ordered operators are at most as many as there are kinds.
proof fn ordered_operators_are_bounded(operators: Seq<GenericIndexOperator>)
    requires
        generic_index_validate::operators_ordered(operators),
    ensures
        operators.len() <= MAX_GENERIC_INDEX_OPERATORS,
        operators.len() > 0 ==> operators.last().byte() >= operators.len(),
    decreases operators.len(),
{
    if operators.len() > 0 {
        let front = operators.drop_last();
        assert forall|i: int| 0 <= i < front.len() - 1 implies (#[trigger] front[i]).byte()
            < front[i + 1].byte() by {
            assert(operators[i].byte() < operators[i + 1].byte());
        }
        ordered_operators_are_bounded(front);
        if front.len() > 0 {
            let n = operators.len() as int;
            assert(front.last() == operators[n - 2]);
            assert(operators[n - 2].byte() < operators[n - 2 + 1].byte());
        }
    }
}

/// A valid catalog from index `i` on has few enough operators there.
proof fn checked_capabilities_are_bounded(
    capabilities: Seq<GenericIndexFieldCapabilityView>,
    i: int,
)
    requires
        0 <= i,
        generic_index_validate::capabilities_check_from(capabilities, i) is Ok,
    ensures
        forall|j: int|
            i <= j < capabilities.len() ==> (#[trigger] capabilities[j]).operators.len()
                <= MAX_GENERIC_INDEX_OPERATORS,
    decreases capabilities.len() - i,
{
    if i < capabilities.len() {
        ordered_operators_are_bounded(capabilities[i].operators);
        checked_capabilities_are_bounded(capabilities, i + 1);
    }
}

/// A valid catalog has few enough operators on every field.
pub proof fn valid_catalog_is_bounded(capabilities: Seq<GenericIndexFieldCapabilityView>)
    requires
        generic_index_validate::capabilities_check(capabilities) is Ok,
    ensures
        capabilities.len() <= MAX_GENERIC_INDEX_FIELDS,
        forall|i: int|
            0 <= i < capabilities.len() ==> (#[trigger] capabilities[i]).operators.len()
                <= MAX_GENERIC_INDEX_OPERATORS,
{
    checked_capabilities_are_bounded(capabilities, 0);
}

/// A valid catalog and what follows it read back.
pub proof fn capabilities_read_back(capabilities: Seq<GenericIndexFieldCapabilityView>, t: Seq<u8>)
    requires
        generic_index_format::capabilities_sized(capabilities),
        generic_index_validate::capabilities_check(capabilities) is Ok,
    ensures
        generic_index_format::parse_capabilities(
            generic_index_format::capabilities_encoding(capabilities) + t,
        ) == Ok::<(Seq<GenericIndexFieldCapabilityView>, Seq<u8>), GenericIndexFailure>(
            (capabilities, t),
        ),
{
    valid_catalog_is_bounded(capabilities);
    let head = bytes::be16(capabilities.len() as u16);
    let list = generic_index_format::capability_list_encoding(capabilities);
    bytes::concat_regroups(head, list, t);
    u16_reads_back(capabilities.len() as u16, list + t, "capabilities");
    capability_list_reads_back(capabilities, t);
}

/// A catalog that was read is what the input starts with.
proof fn capabilities_join(b: Seq<u8>)
    ensures
        generic_index_format::parse_capabilities(b) matches Ok((capabilities, t))
            ==> generic_index_format::capabilities_sized(capabilities) && b
            == generic_index_format::capabilities_encoding(capabilities) + t,
{
    u16_joins(b, "capabilities");
    if generic_index_format::parse_capabilities(b) is Ok {
        let count = generic_index_format::parse_u16(b, "capabilities")->Ok_0.0;
        let rest = generic_index_format::parse_u16(b, "capabilities")->Ok_0.1;
        capability_list_joins(rest, count as nat);
        let capabilities = generic_index_format::parse_capabilities(b)->Ok_0.0;
        let t = generic_index_format::parse_capabilities(b)->Ok_0.1;
        bytes::concat_regroups(
            bytes::be16(count),
            generic_index_format::capability_list_encoding(capabilities),
            t,
        );
    }
}

/// A valid row value and what follows it read back.
proof fn scalar_reads_back(field: Seq<u8>, value: QueryScalarView, t: Seq<u8>)
    requires
        value.valid(),
        generic_index_validate::generic_scalar_check(field, value) is Ok,
    ensures
        generic_index_format::parse_scalar(generic_index_format::scalar_encoding(value) + t)
            == Ok::<(QueryScalarView, Seq<u8>), GenericIndexFailure>((value, t)),
{
    match value {
        QueryScalarView::String(v) => {
            bytes::concat_regroups(seq![1u8], records::length_prefixed(v), t);
            u8_reads_back(1, records::length_prefixed(v) + t, "scalar_type");
            long_text_reads_back(v, t, "string_scalar", MAX_QUERY_SCALAR_BYTES);
        },
        QueryScalarView::Unsigned(v) => {
            bytes::concat_regroups(seq![2u8], bytes::be64(v), t);
            u8_reads_back(2, bytes::be64(v) + t, "scalar_type");
            u64_reads_back(v, t, "unsigned_scalar");
        },
        QueryScalarView::Float(v) => {
            bytes::concat_regroups(seq![3u8], bytes::be64(v), t);
            u8_reads_back(3, bytes::be64(v) + t, "scalar_type");
            u64_reads_back(v, t, "float_scalar");
        },
        _ => {},
    }
}

/// A row value that was read is what the input starts with.
proof fn scalar_joins(b: Seq<u8>)
    ensures
        generic_index_format::parse_scalar(b) matches Ok((value, t)) ==> value.valid() && b
            == generic_index_format::scalar_encoding(value) + t,
{
    u8_joins(b, "scalar_type");
    if generic_index_format::parse_scalar(b) is Ok {
        let rest = generic_index_format::parse_u8(b, "scalar_type")->Ok_0.1;
        let t = generic_index_format::parse_scalar(b)->Ok_0.1;
        long_text_joins(rest, "string_scalar", MAX_QUERY_SCALAR_BYTES);
        u64_joins(rest, "unsigned_scalar");
        u64_joins(rest, "float_scalar");
        match generic_index_format::parse_scalar(b)->Ok_0.0 {
            QueryScalarView::String(v) => {
                bytes::concat_regroups(seq![1u8], records::length_prefixed(v), t);
            },
            QueryScalarView::Unsigned(v) => {
                bytes::concat_regroups(seq![2u8], bytes::be64(v), t);
            },
            QueryScalarView::Float(v) => {
                bytes::concat_regroups(seq![3u8], bytes::be64(v), t);
            },
            _ => {},
        }
    }
}

/// Row values are valid, and none is refused.
spec fn scalars_storable(field: Seq<u8>, values: Seq<QueryScalarView>) -> bool {
    forall|i: int|
        0 <= i < values.len() ==> (#[trigger] values[i]).valid()
            && generic_index_validate::generic_scalar_check(field, values[i]) is Ok
}

/// Checked values from index `i` on are not refused.
proof fn checked_scalars_are_storable(field: Seq<u8>, values: Seq<QueryScalarView>, i: int)
    requires
        0 <= i,
        generic_index_validate::scalars_check_from(field, values, i) is Ok,
    ensures
        forall|j: int|
            i <= j < values.len() ==> generic_index_validate::generic_scalar_check(
                field,
                #[trigger] values[j],
            ) is Ok,
    decreases values.len() - i,
{
    if i < values.len() {
        checked_scalars_are_storable(field, values, i + 1);
    }
}

/// Row values and what follows them read back.
proof fn scalar_list_reads_back(field: Seq<u8>, values: Seq<QueryScalarView>, t: Seq<u8>)
    requires
        scalars_storable(field, values),
    ensures
        generic_index_format::parse_scalar_list(
            generic_index_format::scalar_list_encoding(values) + t,
            values.len(),
        ) == Ok::<(Seq<QueryScalarView>, Seq<u8>), GenericIndexFailure>((values, t)),
    decreases values.len(),
{
    if values.len() == 0 {
        assert(Seq::<u8>::empty() + t =~= t);
        assert(values =~= Seq::empty());
    } else {
        let tail = values.drop_first();
        let tail_bytes = generic_index_format::scalar_list_encoding(tail);
        assert forall|i: int| 0 <= i < tail.len() implies #[trigger] tail[i] == values[i + 1] by {}
        bytes::concat_regroups(
            generic_index_format::scalar_encoding(values[0]),
            tail_bytes,
            t,
        );
        scalar_reads_back(field, values[0], tail_bytes + t);
        scalar_list_reads_back(field, tail, t);
        assert(seq![values[0]] + tail =~= values);
    }
}

/// Row values that were read are what the input starts with.
proof fn scalar_list_joins(b: Seq<u8>, count: nat)
    ensures
        generic_index_format::parse_scalar_list(b, count) matches Ok((values, t)) ==> values.len()
            == count && (forall|i: int|
            0 <= i < values.len() ==> (#[trigger] values[i]).valid()) && b
            == generic_index_format::scalar_list_encoding(values) + t,
    decreases count,
{
    if count == 0 {
        assert(Seq::<u8>::empty() + b =~= b);
    } else if generic_index_format::parse_scalar_list(b, count) is Ok {
        scalar_joins(b);
        let value = generic_index_format::parse_scalar(b)->Ok_0.0;
        let rest = generic_index_format::parse_scalar(b)->Ok_0.1;
        scalar_list_joins(rest, (count - 1) as nat);
        let tail = generic_index_format::parse_scalar_list(rest, (count - 1) as nat)->Ok_0.0;
        let t = generic_index_format::parse_scalar_list(rest, (count - 1) as nat)->Ok_0.1;
        let values = seq![value] + tail;
        assert(values.drop_first() =~= tail);
        bytes::concat_regroups(
            generic_index_format::scalar_encoding(value),
            generic_index_format::scalar_list_encoding(tail),
            t,
        );
    }
}

/// The values of one field and what follows them read back.
proof fn field_values_read_back(v: GenericIndexFieldValuesView, t: Seq<u8>)
    requires
        v.sized(),
        v.check() is Ok,
    ensures
        GenericIndexFieldValuesView::parse(v.encoding() + t) == Ok::<
            (GenericIndexFieldValuesView, Seq<u8>),
            GenericIndexFailure,
        >((v, t)),
{
    checked_scalars_are_storable(v.field, v.values, 0);
    let p1 = generic_index_format::short_prefixed(v.field);
    let p2 = bytes::be16(v.values.len() as u16);
    let p3 = generic_index_format::scalar_list_encoding(v.values);
    bytes::concat_regroups(p1 + p2, p3, t);
    bytes::concat_regroups(p1, p2, p3 + t);
    field_id_reads_back(v.field, p2 + (p3 + t));
    u16_reads_back(v.values.len() as u16, p3 + t, "field_values");
    scalar_list_reads_back(v.field, v.values, t);
}

/// The values of one field that were read are what the input starts with.
proof fn field_values_join(b: Seq<u8>)
    ensures
        GenericIndexFieldValuesView::parse(b) matches Ok((v, t)) ==> v.sized() && b == v.encoding()
            + t,
{
    if GenericIndexFieldValuesView::parse(b) is Ok {
        let v = GenericIndexFieldValuesView::parse(b)->Ok_0.0;
        let t = GenericIndexFieldValuesView::parse(b)->Ok_0.1;
        field_id_joins(b);
        let b1 = generic_index_format::parse_field_id(b)->Ok_0.1;
        u16_joins(b1, "field_values");
        let count = generic_index_format::parse_u16(b1, "field_values")->Ok_0.0;
        let b2 = generic_index_format::parse_u16(b1, "field_values")->Ok_0.1;
        scalar_list_joins(b2, count as nat);
        let p1 = generic_index_format::short_prefixed(v.field);
        let p2 = bytes::be16(v.values.len() as u16);
        let p3 = generic_index_format::scalar_list_encoding(v.values);
        bytes::concat_regroups(p1 + p2, p3, t);
        bytes::concat_regroups(p1, p2, p3 + t);
    }
}

/// Every field of a row passes its own check.
spec fn fields_storable(values: Seq<GenericIndexFieldValuesView>) -> bool {
    forall|i: int|
        0 <= i < values.len() ==> (#[trigger] values[i]).sized() && values[i].check() is Ok
}

/// Checked fields from index `i` on pass their own check.
proof fn checked_fields_are_storable(values: Seq<GenericIndexFieldValuesView>, i: int)
    requires
        0 <= i,
        generic_index_validate::row_fields_check_from(values, i) is Ok,
    ensures
        forall|j: int| i <= j < values.len() ==> (#[trigger] values[j]).check() is Ok,
    decreases values.len() - i,
{
    if i < values.len() {
        checked_fields_are_storable(values, i + 1);
    }
}

/// Fields of a row and what follows them read back.
proof fn field_list_reads_back(values: Seq<GenericIndexFieldValuesView>, t: Seq<u8>)
    requires
        fields_storable(values),
    ensures
        generic_index_format::parse_field_list(
            generic_index_format::field_list_encoding(values) + t,
            values.len(),
        ) == Ok::<(Seq<GenericIndexFieldValuesView>, Seq<u8>), GenericIndexFailure>((values, t)),
    decreases values.len(),
{
    if values.len() == 0 {
        assert(Seq::<u8>::empty() + t =~= t);
        assert(values =~= Seq::empty());
    } else {
        let tail = values.drop_first();
        let tail_bytes = generic_index_format::field_list_encoding(tail);
        assert forall|i: int| 0 <= i < tail.len() implies #[trigger] tail[i] == values[i + 1] by {}
        bytes::concat_regroups(values[0].encoding(), tail_bytes, t);
        field_values_read_back(values[0], tail_bytes + t);
        field_list_reads_back(tail, t);
        assert(seq![values[0]] + tail =~= values);
    }
}

/// Fields of a row that were read are what the input starts with.
proof fn field_list_joins(b: Seq<u8>, count: nat)
    ensures
        generic_index_format::parse_field_list(b, count) matches Ok((values, t)) ==> values.len()
            == count && generic_index_format::row_fields_sized(values) && b
            == generic_index_format::field_list_encoding(values) + t,
    decreases count,
{
    if count == 0 {
        assert(Seq::<u8>::empty() + b =~= b);
    } else if generic_index_format::parse_field_list(b, count) is Ok {
        field_values_join(b);
        let value = GenericIndexFieldValuesView::parse(b)->Ok_0.0;
        let rest = GenericIndexFieldValuesView::parse(b)->Ok_0.1;
        field_list_joins(rest, (count - 1) as nat);
        let tail = generic_index_format::parse_field_list(rest, (count - 1) as nat)->Ok_0.0;
        let t = generic_index_format::parse_field_list(rest, (count - 1) as nat)->Ok_0.1;
        let values = seq![value] + tail;
        assert(values.drop_first() =~= tail);
        bytes::concat_regroups(
            value.encoding(),
            generic_index_format::field_list_encoding(tail),
            t,
        );
    }
}

/// The valid fields of a row and what follows them read back.
pub proof fn row_fields_read_back(values: Seq<GenericIndexFieldValuesView>, t: Seq<u8>)
    requires
        values.len() <= MAX_GENERIC_INDEX_ROW_FIELDS,
        generic_index_format::row_fields_sized(values),
        generic_index_validate::row_fields_check_from(values, 0) is Ok,
    ensures
        generic_index_format::parse_row_fields(generic_index_format::row_fields_encoding(values) + t)
            == Ok::<(Seq<GenericIndexFieldValuesView>, Seq<u8>), GenericIndexFailure>((values, t)),
{
    checked_fields_are_storable(values, 0);
    let list = generic_index_format::field_list_encoding(values);
    bytes::concat_regroups(bytes::be16(values.len() as u16), list, t);
    u16_reads_back(values.len() as u16, list + t, "row_fields");
    field_list_reads_back(values, t);
}

/// The fields of a row that were read are what the input starts with.
proof fn row_fields_join(b: Seq<u8>)
    ensures
        generic_index_format::parse_row_fields(b) matches Ok((values, t))
            ==> generic_index_format::row_fields_sized(values) && b
            == generic_index_format::row_fields_encoding(values) + t,
{
    u16_joins(b, "row_fields");
    if generic_index_format::parse_row_fields(b) is Ok {
        let count = generic_index_format::parse_u16(b, "row_fields")->Ok_0.0;
        let rest = generic_index_format::parse_u16(b, "row_fields")->Ok_0.1;
        field_list_joins(rest, count as nat);
        let values = generic_index_format::parse_row_fields(b)->Ok_0.0;
        let t = generic_index_format::parse_row_fields(b)->Ok_0.1;
        bytes::concat_regroups(
            bytes::be16(count),
            generic_index_format::field_list_encoding(values),
            t,
        );
    }
}

/// A row binding and what follows it read back.
proof fn binding_reads_back(v: GenericIndexRowBindingView, t: Seq<u8>)
    requires
        v.sized(),
    ensures
        GenericIndexRowBindingView::parse(v.encoding() + t) == Ok::<
            (GenericIndexRowBindingView, Seq<u8>),
            GenericIndexFailure,
        >((v, t)),
{
    match v {
        GenericIndexRowBindingView::Directory => u8_reads_back(1, t, "row_binding"),
        GenericIndexRowBindingView::Unbound => u8_reads_back(2, t, "row_binding"),
        GenericIndexRowBindingView::Artifact { artifact_revision_id, path_generation } => {
            let generation = bytes::be64(path_generation);
            bytes::regroup_4(seq![3u8], artifact_revision_id, generation, t);
            u8_reads_back(3, artifact_revision_id + (generation + t), "row_binding");
            take_first_part(artifact_revision_id, generation + t, "artifact_revision_id");
            u64_reads_back(path_generation, t, "path_generation");
        },
    }
}

/// A row binding that was read is what the input starts with.
proof fn binding_joins(b: Seq<u8>)
    ensures
        GenericIndexRowBindingView::parse(b) matches Ok((v, t)) ==> v.sized() && b == v.encoding()
            + t,
{
    u8_joins(b, "row_binding");
    if GenericIndexRowBindingView::parse(b) is Ok {
        let v = GenericIndexRowBindingView::parse(b)->Ok_0.0;
        let t = GenericIndexRowBindingView::parse(b)->Ok_0.1;
        let b1 = generic_index_format::parse_u8(b, "row_binding")->Ok_0.1;
        take_parts_join(b1, "artifact_revision_id", 16);
        let b2 = generic_index_format::take_field(b1, "artifact_revision_id", 16)->Ok_0.1;
        u64_joins(b2, "path_generation");
        match v {
            GenericIndexRowBindingView::Artifact { artifact_revision_id, path_generation } => {
                bytes::regroup_4(seq![3u8], artifact_revision_id, bytes::be64(path_generation), t);
            },
            _ => {},
        }
    }
}

/// A valid terminal error is short.
proof fn valid_terminal_error_is_short(v: GenericIndexRegistrationOperationRecordView)
    requires
        v.check() is Ok,
    ensures
        v.terminal_error matches Some(message) ==> message.len()
            <= MAX_GENERIC_INDEX_TERMINAL_ERROR_BYTES,
{
}

/// The fields of a valid current pointer and what follows them read back.
proof fn current_parts_read_back(v: GenericIndexCurrentRecordView, t: Seq<u8>)
    requires
        v.sized(),
        v.check() is Ok,
    ensures
        GenericIndexCurrentRecordView::parse_fields(v.encoding() + t) == Ok::<
            (GenericIndexCurrentRecordView, Seq<u8>),
            GenericIndexFailure,
        >((v, t)),
{
    let p1 = seq![GENERIC_INDEX_VALUE_FORMAT_VERSION];
    let p2 = v.generation_id;
    let p3 = bytes::be64(v.pointer_generation);
    let p4 = v.capability_digest;
    let p5 = bytes::be64(v.row_count);
    let p6 = v.row_digest;
    let t7 = t;
    let t6 = p6 + t7;
    let t5 = p5 + t6;
    let t4 = p4 + t5;
    let t3 = p3 + t4;
    let t2 = p2 + t3;
    let e1 = p1;
    let e2 = e1 + p2;
    let e3 = e2 + p3;
    let e4 = e3 + p4;
    let e5 = e4 + p5;
    let e6 = e5 + p6;
    bytes::concat_regroups(e5, p6, t7);
    bytes::concat_regroups(e4, p5, t6);
    bytes::concat_regroups(e3, p4, t5);
    bytes::concat_regroups(e2, p3, t4);
    bytes::concat_regroups(e1, p2, t3);
    u8_reads_back(GENERIC_INDEX_VALUE_FORMAT_VERSION, t2, "value_format_version");
    take_first_part(v.generation_id, t3, "generation_id");
    u64_reads_back(v.pointer_generation, t4, "pointer_generation");
    take_first_part(v.capability_digest, t5, "capability_digest");
    u64_reads_back(v.row_count, t6, "row_count");
    take_first_part(v.row_digest, t7, "row_digest");
}

/// The fields of a current pointer that were read are what the input starts with.
proof fn current_parts_join(b: Seq<u8>)
    ensures
        GenericIndexCurrentRecordView::parse_fields(b) matches Ok((v, rest)) ==> v.sized() && b == v.encoding() + rest,
{
    if GenericIndexCurrentRecordView::parse_fields(b) is Ok {
        let v = GenericIndexCurrentRecordView::parse_fields(b)->Ok_0.0;
        let rest = GenericIndexCurrentRecordView::parse_fields(b)->Ok_0.1;
        u8_joins(b, "value_format_version");
        let b0 = generic_index_format::parse_format(b)->Ok_0.1;
        take_parts_join(b0, "generation_id", 16);
        let b1 = generic_index_format::take_field(b0, "generation_id", 16)->Ok_0.1;
        u64_joins(b1, "pointer_generation");
        let b2 = generic_index_format::parse_position(b1, "pointer_generation")->Ok_0.1;
        take_parts_join(b2, "capability_digest", 32);
        let b3 = generic_index_format::take_field(b2, "capability_digest", 32)->Ok_0.1;
        u64_joins(b3, "row_count");
        let b4 = generic_index_format::parse_u64(b3, "row_count")->Ok_0.1;
        take_parts_join(b4, "row_digest", 32);
        let b5 = generic_index_format::take_field(b4, "row_digest", 32)->Ok_0.1;
        let p1 = seq![GENERIC_INDEX_VALUE_FORMAT_VERSION];
        let p2 = v.generation_id;
        let p3 = bytes::be64(v.pointer_generation);
        let p4 = v.capability_digest;
        let p5 = bytes::be64(v.row_count);
        let p6 = v.row_digest;
        let t7 = rest;
        let t6 = p6 + t7;
        let t5 = p5 + t6;
        let t4 = p4 + t5;
        let t3 = p3 + t4;
        let t2 = p2 + t3;
        let e1 = p1;
        let e2 = e1 + p2;
        let e3 = e2 + p3;
        let e4 = e3 + p4;
        let e5 = e4 + p5;
        let e6 = e5 + p6;
        bytes::concat_regroups(e5, p6, t7);
        bytes::concat_regroups(e4, p5, t6);
        bytes::concat_regroups(e3, p4, t5);
        bytes::concat_regroups(e2, p3, t4);
        bytes::concat_regroups(e1, p2, t3);
    }
}

/// The durable bytes of a valid current pointer decode to that current pointer.
pub proof fn current_reads_back(v: GenericIndexCurrentRecordView)
    requires
        v.sized(),
        v.check() is Ok,
    ensures
        GenericIndexCurrentRecordView::parse(v.encoding()) == Ok::<GenericIndexCurrentRecordView, GenericIndexFailure>(v),
{
    current_parts_read_back(v, Seq::empty());
    assert(v.encoding() + Seq::empty() =~= v.encoding());
}

/// Bytes that decode to a current pointer are exactly its durable bytes, and the
/// current pointer is valid.
pub proof fn current_is_canonical(b: Seq<u8>)
    ensures
        GenericIndexCurrentRecordView::parse(b) matches Ok(v) ==> v.sized() && v.check() is Ok && b == v.encoding(),
{
    if GenericIndexCurrentRecordView::parse(b) is Ok {
        current_parts_join(b);
        let v = GenericIndexCurrentRecordView::parse_fields(b)->Ok_0.0;
        let rest = GenericIndexCurrentRecordView::parse_fields(b)->Ok_0.1;
        assert(v.encoding() + rest =~= v.encoding());
    }
}

/// Bytes behind the durable bytes of a valid current pointer are refused.
pub proof fn current_refuses_trailing_bytes(v: GenericIndexCurrentRecordView, t: Seq<u8>)
    requires
        v.sized(),
        v.check() is Ok,
        t.len() > 0,
    ensures
        GenericIndexCurrentRecordView::parse(v.encoding() + t) == Err::<GenericIndexCurrentRecordView, GenericIndexFailure>(
            GenericIndexRecordError::TrailingBytes { count: t.len() as usize },
        ),
{
    current_parts_read_back(v, t);
}

/// A first byte other than the supported format version is refused.
pub proof fn current_refuses_other_versions(b: Seq<u8>)
    requires
        b.len() > 0,
        b[0] != GENERIC_INDEX_VALUE_FORMAT_VERSION,
    ensures
        GenericIndexCurrentRecordView::parse(b) == Err::<GenericIndexCurrentRecordView, GenericIndexFailure>(
            GenericIndexRecordError::UnsupportedValueVersion {
                actual: b[0],
                expected: GENERIC_INDEX_VALUE_FORMAT_VERSION,
            },
        ),
{
    reveal(generic_index_format::take_field);
}

/// The fields of a valid generation header and what follows them read back.
proof fn generation_parts_read_back(v: GenericIndexGenerationRecordView, t: Seq<u8>)
    requires
        v.sized(),
        v.check() is Ok,
    ensures
        GenericIndexGenerationRecordView::parse_fields(v.encoding() + t) == Ok::<
            (GenericIndexGenerationRecordView, Seq<u8>),
            GenericIndexFailure,
        >((v, t)),
{
    let p1 = seq![GENERIC_INDEX_VALUE_FORMAT_VERSION];
    let p2 = generic_index_format::capabilities_encoding(v.capabilities);
    let p3 = bytes::be64(v.declared_row_count);
    let p4 = bytes::be64(v.appended_row_count);
    let p5 = v.rolling_row_digest;
    let p6 = bytes::be64(v.reference_count);
    let p7 = bytes::be64(v.reference_epoch);
    let p8 = generic_index_format::optional_position(v.last_zero_reference_version);
    let p9 = seq![v.state.byte()];
    let t10 = t;
    let t9 = p9 + t10;
    let t8 = p8 + t9;
    let t7 = p7 + t8;
    let t6 = p6 + t7;
    let t5 = p5 + t6;
    let t4 = p4 + t5;
    let t3 = p3 + t4;
    let t2 = p2 + t3;
    let e1 = p1;
    let e2 = e1 + p2;
    let e3 = e2 + p3;
    let e4 = e3 + p4;
    let e5 = e4 + p5;
    let e6 = e5 + p6;
    let e7 = e6 + p7;
    let e8 = e7 + p8;
    let e9 = e8 + p9;
    bytes::concat_regroups(e8, p9, t10);
    bytes::concat_regroups(e7, p8, t9);
    bytes::concat_regroups(e6, p7, t8);
    bytes::concat_regroups(e5, p6, t7);
    bytes::concat_regroups(e4, p5, t6);
    bytes::concat_regroups(e3, p4, t5);
    bytes::concat_regroups(e2, p3, t4);
    bytes::concat_regroups(e1, p2, t3);
    u8_reads_back(GENERIC_INDEX_VALUE_FORMAT_VERSION, t2, "value_format_version");
    capabilities_read_back(v.capabilities, t3);
    u64_reads_back(v.declared_row_count, t4, "declared_row_count");
    u64_reads_back(v.appended_row_count, t5, "appended_row_count");
    take_first_part(v.rolling_row_digest, t6, "rolling_row_digest");
    u64_reads_back(v.reference_count, t7, "reference_count");
    u64_reads_back(v.reference_epoch, t8, "reference_epoch");
    optional_position_reads_back(v.last_zero_reference_version, t9, "last_zero_reference_version");
    u8_reads_back(v.state.byte(), t10, "generation_state");
}

/// The fields of a generation header that were read are what the input starts with.
proof fn generation_parts_join(b: Seq<u8>)
    ensures
        GenericIndexGenerationRecordView::parse_fields(b) matches Ok((v, rest)) ==> v.sized() && b == v.encoding() + rest,
{
    if GenericIndexGenerationRecordView::parse_fields(b) is Ok {
        let v = GenericIndexGenerationRecordView::parse_fields(b)->Ok_0.0;
        let rest = GenericIndexGenerationRecordView::parse_fields(b)->Ok_0.1;
        u8_joins(b, "value_format_version");
        let b0 = generic_index_format::parse_format(b)->Ok_0.1;
        capabilities_join(b0);
        let b1 = generic_index_format::parse_capabilities(b0)->Ok_0.1;
        u64_joins(b1, "declared_row_count");
        let b2 = generic_index_format::parse_u64(b1, "declared_row_count")->Ok_0.1;
        u64_joins(b2, "appended_row_count");
        let b3 = generic_index_format::parse_u64(b2, "appended_row_count")->Ok_0.1;
        take_parts_join(b3, "rolling_row_digest", 32);
        let b4 = generic_index_format::take_field(b3, "rolling_row_digest", 32)->Ok_0.1;
        u64_joins(b4, "reference_count");
        let b5 = generic_index_format::parse_u64(b4, "reference_count")->Ok_0.1;
        u64_joins(b5, "reference_epoch");
        let b6 = generic_index_format::parse_u64(b5, "reference_epoch")->Ok_0.1;
        optional_position_joins(b6, "last_zero_reference_version");
        let b7 = generic_index_format::parse_optional_position(b6, "last_zero_reference_version")->Ok_0.1;
        u8_joins(b7, "generation_state");
        let b8 = generic_index_format::parse_generation_state(b7)->Ok_0.1;
        let p1 = seq![GENERIC_INDEX_VALUE_FORMAT_VERSION];
        let p2 = generic_index_format::capabilities_encoding(v.capabilities);
        let p3 = bytes::be64(v.declared_row_count);
        let p4 = bytes::be64(v.appended_row_count);
        let p5 = v.rolling_row_digest;
        let p6 = bytes::be64(v.reference_count);
        let p7 = bytes::be64(v.reference_epoch);
        let p8 = generic_index_format::optional_position(v.last_zero_reference_version);
        let p9 = seq![v.state.byte()];
        let t10 = rest;
        let t9 = p9 + t10;
        let t8 = p8 + t9;
        let t7 = p7 + t8;
        let t6 = p6 + t7;
        let t5 = p5 + t6;
        let t4 = p4 + t5;
        let t3 = p3 + t4;
        let t2 = p2 + t3;
        let e1 = p1;
        let e2 = e1 + p2;
        let e3 = e2 + p3;
        let e4 = e3 + p4;
        let e5 = e4 + p5;
        let e6 = e5 + p6;
        let e7 = e6 + p7;
        let e8 = e7 + p8;
        let e9 = e8 + p9;
        bytes::concat_regroups(e8, p9, t10);
        bytes::concat_regroups(e7, p8, t9);
        bytes::concat_regroups(e6, p7, t8);
        bytes::concat_regroups(e5, p6, t7);
        bytes::concat_regroups(e4, p5, t6);
        bytes::concat_regroups(e3, p4, t5);
        bytes::concat_regroups(e2, p3, t4);
        bytes::concat_regroups(e1, p2, t3);
    }
}

/// The durable bytes of a valid generation header decode to that generation header.
pub proof fn generation_reads_back(v: GenericIndexGenerationRecordView)
    requires
        v.sized(),
        v.check() is Ok,
    ensures
        GenericIndexGenerationRecordView::parse(v.encoding()) == Ok::<GenericIndexGenerationRecordView, GenericIndexFailure>(v),
{
    generation_parts_read_back(v, Seq::empty());
    assert(v.encoding() + Seq::empty() =~= v.encoding());
}

/// Bytes that decode to a generation header are exactly its durable bytes, and the
/// generation header is valid.
pub proof fn generation_is_canonical(b: Seq<u8>)
    ensures
        GenericIndexGenerationRecordView::parse(b) matches Ok(v) ==> v.sized() && v.check() is Ok && b == v.encoding(),
{
    if GenericIndexGenerationRecordView::parse(b) is Ok {
        generation_parts_join(b);
        let v = GenericIndexGenerationRecordView::parse_fields(b)->Ok_0.0;
        let rest = GenericIndexGenerationRecordView::parse_fields(b)->Ok_0.1;
        assert(v.encoding() + rest =~= v.encoding());
    }
}

/// Bytes behind the durable bytes of a valid generation header are refused.
pub proof fn generation_refuses_trailing_bytes(v: GenericIndexGenerationRecordView, t: Seq<u8>)
    requires
        v.sized(),
        v.check() is Ok,
        t.len() > 0,
    ensures
        GenericIndexGenerationRecordView::parse(v.encoding() + t) == Err::<GenericIndexGenerationRecordView, GenericIndexFailure>(
            GenericIndexRecordError::TrailingBytes { count: t.len() as usize },
        ),
{
    generation_parts_read_back(v, t);
}

/// A first byte other than the supported format version is refused.
pub proof fn generation_refuses_other_versions(b: Seq<u8>)
    requires
        b.len() > 0,
        b[0] != GENERIC_INDEX_VALUE_FORMAT_VERSION,
    ensures
        GenericIndexGenerationRecordView::parse(b) == Err::<GenericIndexGenerationRecordView, GenericIndexFailure>(
            GenericIndexRecordError::UnsupportedValueVersion {
                actual: b[0],
                expected: GENERIC_INDEX_VALUE_FORMAT_VERSION,
            },
        ),
{
    reveal(generic_index_format::take_field);
}

/// The fields of a valid row and what follows them read back.
proof fn row_parts_read_back(v: GenericIndexRowRecordView, t: Seq<u8>)
    requires
        v.sized(),
        v.check() is Ok,
    ensures
        GenericIndexRowRecordView::parse_fields(v.encoding() + t) == Ok::<
            (GenericIndexRowRecordView, Seq<u8>),
            GenericIndexFailure,
        >((v, t)),
{
    let p1 = seq![GENERIC_INDEX_VALUE_FORMAT_VERSION];
    let p2 = generic_index_format::optional_text(v.relative_path);
    let p3 = v.binding.encoding();
    let p4 = generic_index_format::row_fields_encoding(v.values);
    let t5 = t;
    let t4 = p4 + t5;
    let t3 = p3 + t4;
    let t2 = p2 + t3;
    let e1 = p1;
    let e2 = e1 + p2;
    let e3 = e2 + p3;
    let e4 = e3 + p4;
    bytes::concat_regroups(e3, p4, t5);
    bytes::concat_regroups(e2, p3, t4);
    bytes::concat_regroups(e1, p2, t3);
    u8_reads_back(GENERIC_INDEX_VALUE_FORMAT_VERSION, t2, "value_format_version");
    optional_path_reads_back(v.relative_path, t3);
    binding_reads_back(v.binding, t4);
    row_fields_read_back(v.values, t5);
}

/// The fields of a row that were read are what the input starts with.
proof fn row_parts_join(b: Seq<u8>)
    ensures
        GenericIndexRowRecordView::parse_fields(b) matches Ok((v, rest)) ==> v.sized() && b == v.encoding() + rest,
{
    if GenericIndexRowRecordView::parse_fields(b) is Ok {
        let v = GenericIndexRowRecordView::parse_fields(b)->Ok_0.0;
        let rest = GenericIndexRowRecordView::parse_fields(b)->Ok_0.1;
        u8_joins(b, "value_format_version");
        let b0 = generic_index_format::parse_format(b)->Ok_0.1;
        optional_path_joins(b0);
        let b1 = generic_index_format::parse_optional_path(b0)->Ok_0.1;
        binding_joins(b1);
        let b2 = GenericIndexRowBindingView::parse(b1)->Ok_0.1;
        row_fields_join(b2);
        let b3 = generic_index_format::parse_row_fields(b2)->Ok_0.1;
        let p1 = seq![GENERIC_INDEX_VALUE_FORMAT_VERSION];
        let p2 = generic_index_format::optional_text(v.relative_path);
        let p3 = v.binding.encoding();
        let p4 = generic_index_format::row_fields_encoding(v.values);
        let t5 = rest;
        let t4 = p4 + t5;
        let t3 = p3 + t4;
        let t2 = p2 + t3;
        let e1 = p1;
        let e2 = e1 + p2;
        let e3 = e2 + p3;
        let e4 = e3 + p4;
        bytes::concat_regroups(e3, p4, t5);
        bytes::concat_regroups(e2, p3, t4);
        bytes::concat_regroups(e1, p2, t3);
    }
}

/// The durable bytes of a valid row decode to that row.
pub proof fn row_reads_back(v: GenericIndexRowRecordView)
    requires
        v.sized(),
        v.encode_check() is Ok,
    ensures
        GenericIndexRowRecordView::parse(v.encoding()) == Ok::<GenericIndexRowRecordView, GenericIndexFailure>(v),
{
    row_parts_read_back(v, Seq::empty());
    assert(v.encoding() + Seq::empty() =~= v.encoding());
}

/// Bytes that decode to a row are exactly its durable bytes, and the
/// row is valid.
pub proof fn row_is_canonical(b: Seq<u8>)
    ensures
        GenericIndexRowRecordView::parse(b) matches Ok(v) ==> v.sized() && v.encode_check() is Ok && b == v.encoding(),
{
    if GenericIndexRowRecordView::parse(b) is Ok {
        row_parts_join(b);
        let v = GenericIndexRowRecordView::parse_fields(b)->Ok_0.0;
        let rest = GenericIndexRowRecordView::parse_fields(b)->Ok_0.1;
        assert(v.encoding() + rest =~= v.encoding());
    }
}

/// Bytes behind the durable bytes of a valid row are refused.
pub proof fn row_refuses_trailing_bytes(v: GenericIndexRowRecordView, t: Seq<u8>)
    requires
        v.sized(),
        v.check() is Ok,
        t.len() > 0,
        v.encoding().len() + t.len() <= MAX_GENERIC_INDEX_ROW_BYTES,
    ensures
        GenericIndexRowRecordView::parse(v.encoding() + t) == Err::<GenericIndexRowRecordView, GenericIndexFailure>(
            GenericIndexRecordError::TrailingBytes { count: t.len() as usize },
        ),
{
    row_parts_read_back(v, t);
}

/// A first byte other than the supported format version is refused.
pub proof fn row_refuses_other_versions(b: Seq<u8>)
    requires
        b.len() > 0,
        b[0] != GENERIC_INDEX_VALUE_FORMAT_VERSION,
        b.len() <= MAX_GENERIC_INDEX_ROW_BYTES,
    ensures
        GenericIndexRowRecordView::parse(b) == Err::<GenericIndexRowRecordView, GenericIndexFailure>(
            GenericIndexRecordError::UnsupportedValueVersion {
                actual: b[0],
                expected: GENERIC_INDEX_VALUE_FORMAT_VERSION,
            },
        ),
{
    reveal(generic_index_format::take_field);
}

/// The fields of a valid generation reference and what follows them read back.
proof fn reference_parts_read_back(v: GenericIndexGenerationRefRecordView, t: Seq<u8>)
    requires
        v.sized(),
        v.check() is Ok,
    ensures
        GenericIndexGenerationRefRecordView::parse_fields(v.encoding() + t) == Ok::<
            (GenericIndexGenerationRefRecordView, Seq<u8>),
            GenericIndexFailure,
        >((v, t)),
{
    let p1 = seq![GENERIC_INDEX_VALUE_FORMAT_VERSION];
    let p2 = seq![v.kind.byte()];
    let p3 = v.owner_digest;
    let p4 = bytes::be64(v.reference_epoch_at_add);
    let t5 = t;
    let t4 = p4 + t5;
    let t3 = p3 + t4;
    let t2 = p2 + t3;
    let e1 = p1;
    let e2 = e1 + p2;
    let e3 = e2 + p3;
    let e4 = e3 + p4;
    bytes::concat_regroups(e3, p4, t5);
    bytes::concat_regroups(e2, p3, t4);
    bytes::concat_regroups(e1, p2, t3);
    u8_reads_back(GENERIC_INDEX_VALUE_FORMAT_VERSION, t2, "value_format_version");
    u8_reads_back(v.kind.byte(), t3, "reference_kind");
    take_first_part(v.owner_digest, t4, "owner_digest");
    u64_reads_back(v.reference_epoch_at_add, t5, "reference_epoch_at_add");
}

/// The fields of a generation reference that were read are what the input starts with.
proof fn reference_parts_join(b: Seq<u8>)
    ensures
        GenericIndexGenerationRefRecordView::parse_fields(b) matches Ok((v, rest)) ==> v.sized() && b == v.encoding() + rest,
{
    if GenericIndexGenerationRefRecordView::parse_fields(b) is Ok {
        let v = GenericIndexGenerationRefRecordView::parse_fields(b)->Ok_0.0;
        let rest = GenericIndexGenerationRefRecordView::parse_fields(b)->Ok_0.1;
        u8_joins(b, "value_format_version");
        let b0 = generic_index_format::parse_format(b)->Ok_0.1;
        u8_joins(b0, "reference_kind");
        let b1 = generic_index_format::parse_reference_kind(b0)->Ok_0.1;
        take_parts_join(b1, "owner_digest", 32);
        let b2 = generic_index_format::take_field(b1, "owner_digest", 32)->Ok_0.1;
        u64_joins(b2, "reference_epoch_at_add");
        let b3 = generic_index_format::parse_u64(b2, "reference_epoch_at_add")->Ok_0.1;
        let p1 = seq![GENERIC_INDEX_VALUE_FORMAT_VERSION];
        let p2 = seq![v.kind.byte()];
        let p3 = v.owner_digest;
        let p4 = bytes::be64(v.reference_epoch_at_add);
        let t5 = rest;
        let t4 = p4 + t5;
        let t3 = p3 + t4;
        let t2 = p2 + t3;
        let e1 = p1;
        let e2 = e1 + p2;
        let e3 = e2 + p3;
        let e4 = e3 + p4;
        bytes::concat_regroups(e3, p4, t5);
        bytes::concat_regroups(e2, p3, t4);
        bytes::concat_regroups(e1, p2, t3);
    }
}

/// The durable bytes of a valid generation reference decode to that generation reference.
pub proof fn reference_reads_back(v: GenericIndexGenerationRefRecordView)
    requires
        v.sized(),
        v.check() is Ok,
    ensures
        GenericIndexGenerationRefRecordView::parse(v.encoding()) == Ok::<GenericIndexGenerationRefRecordView, GenericIndexFailure>(v),
{
    reference_parts_read_back(v, Seq::empty());
    assert(v.encoding() + Seq::empty() =~= v.encoding());
}

/// Bytes that decode to a generation reference are exactly its durable bytes, and the
/// generation reference is valid.
pub proof fn reference_is_canonical(b: Seq<u8>)
    ensures
        GenericIndexGenerationRefRecordView::parse(b) matches Ok(v) ==> v.sized() && v.check() is Ok && b == v.encoding(),
{
    if GenericIndexGenerationRefRecordView::parse(b) is Ok {
        reference_parts_join(b);
        let v = GenericIndexGenerationRefRecordView::parse_fields(b)->Ok_0.0;
        let rest = GenericIndexGenerationRefRecordView::parse_fields(b)->Ok_0.1;
        assert(v.encoding() + rest =~= v.encoding());
    }
}

/// Bytes behind the durable bytes of a valid generation reference are refused.
pub proof fn reference_refuses_trailing_bytes(v: GenericIndexGenerationRefRecordView, t: Seq<u8>)
    requires
        v.sized(),
        v.check() is Ok,
        t.len() > 0,
    ensures
        GenericIndexGenerationRefRecordView::parse(v.encoding() + t) == Err::<GenericIndexGenerationRefRecordView, GenericIndexFailure>(
            GenericIndexRecordError::TrailingBytes { count: t.len() as usize },
        ),
{
    reference_parts_read_back(v, t);
}

/// A first byte other than the supported format version is refused.
pub proof fn reference_refuses_other_versions(b: Seq<u8>)
    requires
        b.len() > 0,
        b[0] != GENERIC_INDEX_VALUE_FORMAT_VERSION,
    ensures
        GenericIndexGenerationRefRecordView::parse(b) == Err::<GenericIndexGenerationRefRecordView, GenericIndexFailure>(
            GenericIndexRecordError::UnsupportedValueVersion {
                actual: b[0],
                expected: GENERIC_INDEX_VALUE_FORMAT_VERSION,
            },
        ),
{
    reveal(generic_index_format::take_field);
}

/// The fields of a valid append receipt and what follows them read back.
proof fn receipt_parts_read_back(v: GenericIndexAppendReceiptRecordView, t: Seq<u8>)
    requires
        v.sized(),
        v.check() is Ok,
    ensures
        GenericIndexAppendReceiptRecordView::parse_fields(v.encoding() + t) == Ok::<
            (GenericIndexAppendReceiptRecordView, Seq<u8>),
            GenericIndexFailure,
        >((v, t)),
{
    let p1 = seq![GENERIC_INDEX_VALUE_FORMAT_VERSION];
    let p2 = bytes::be64(v.first_sequence);
    let p3 = bytes::be32(v.row_count);
    let p4 = bytes::be64(v.commit_version);
    let p5 = v.input_digest;
    let p6 = bytes::be64(v.resulting_row_count);
    let p7 = v.resulting_row_digest;
    let t8 = t;
    let t7 = p7 + t8;
    let t6 = p6 + t7;
    let t5 = p5 + t6;
    let t4 = p4 + t5;
    let t3 = p3 + t4;
    let t2 = p2 + t3;
    let e1 = p1;
    let e2 = e1 + p2;
    let e3 = e2 + p3;
    let e4 = e3 + p4;
    let e5 = e4 + p5;
    let e6 = e5 + p6;
    let e7 = e6 + p7;
    bytes::concat_regroups(e6, p7, t8);
    bytes::concat_regroups(e5, p6, t7);
    bytes::concat_regroups(e4, p5, t6);
    bytes::concat_regroups(e3, p4, t5);
    bytes::concat_regroups(e2, p3, t4);
    bytes::concat_regroups(e1, p2, t3);
    u8_reads_back(GENERIC_INDEX_VALUE_FORMAT_VERSION, t2, "value_format_version");
    u64_reads_back(v.first_sequence, t3, "first_sequence");
    u32_reads_back(v.row_count, t4, "row_count");
    u64_reads_back(v.commit_version, t5, "commit_version");
    take_first_part(v.input_digest, t6, "input_digest");
    u64_reads_back(v.resulting_row_count, t7, "resulting_row_count");
    take_first_part(v.resulting_row_digest, t8, "resulting_row_digest");
}

/// The fields of a append receipt that were read are what the input starts with.
proof fn receipt_parts_join(b: Seq<u8>)
    ensures
        GenericIndexAppendReceiptRecordView::parse_fields(b) matches Ok((v, rest)) ==> v.sized() && b == v.encoding() + rest,
{
    if GenericIndexAppendReceiptRecordView::parse_fields(b) is Ok {
        let v = GenericIndexAppendReceiptRecordView::parse_fields(b)->Ok_0.0;
        let rest = GenericIndexAppendReceiptRecordView::parse_fields(b)->Ok_0.1;
        u8_joins(b, "value_format_version");
        let b0 = generic_index_format::parse_format(b)->Ok_0.1;
        u64_joins(b0, "first_sequence");
        let b1 = generic_index_format::parse_u64(b0, "first_sequence")->Ok_0.1;
        u32_joins(b1, "row_count");
        let b2 = generic_index_format::parse_u32(b1, "row_count")->Ok_0.1;
        u64_joins(b2, "commit_version");
        let b3 = generic_index_format::parse_position(b2, "commit_version")->Ok_0.1;
        take_parts_join(b3, "input_digest", 32);
        let b4 = generic_index_format::take_field(b3, "input_digest", 32)->Ok_0.1;
        u64_joins(b4, "resulting_row_count");
        let b5 = generic_index_format::parse_u64(b4, "resulting_row_count")->Ok_0.1;
        take_parts_join(b5, "resulting_row_digest", 32);
        let b6 = generic_index_format::take_field(b5, "resulting_row_digest", 32)->Ok_0.1;
        let p1 = seq![GENERIC_INDEX_VALUE_FORMAT_VERSION];
        let p2 = bytes::be64(v.first_sequence);
        let p3 = bytes::be32(v.row_count);
        let p4 = bytes::be64(v.commit_version);
        let p5 = v.input_digest;
        let p6 = bytes::be64(v.resulting_row_count);
        let p7 = v.resulting_row_digest;
        let t8 = rest;
        let t7 = p7 + t8;
        let t6 = p6 + t7;
        let t5 = p5 + t6;
        let t4 = p4 + t5;
        let t3 = p3 + t4;
        let t2 = p2 + t3;
        let e1 = p1;
        let e2 = e1 + p2;
        let e3 = e2 + p3;
        let e4 = e3 + p4;
        let e5 = e4 + p5;
        let e6 = e5 + p6;
        let e7 = e6 + p7;
        bytes::concat_regroups(e6, p7, t8);
        bytes::concat_regroups(e5, p6, t7);
        bytes::concat_regroups(e4, p5, t6);
        bytes::concat_regroups(e3, p4, t5);
        bytes::concat_regroups(e2, p3, t4);
        bytes::concat_regroups(e1, p2, t3);
    }
}

/// The durable bytes of a valid append receipt decode to that append receipt.
pub proof fn receipt_reads_back(v: GenericIndexAppendReceiptRecordView)
    requires
        v.sized(),
        v.check() is Ok,
    ensures
        GenericIndexAppendReceiptRecordView::parse(v.encoding()) == Ok::<GenericIndexAppendReceiptRecordView, GenericIndexFailure>(v),
{
    receipt_parts_read_back(v, Seq::empty());
    assert(v.encoding() + Seq::empty() =~= v.encoding());
}

/// Bytes that decode to a append receipt are exactly its durable bytes, and the
/// append receipt is valid.
pub proof fn receipt_is_canonical(b: Seq<u8>)
    ensures
        GenericIndexAppendReceiptRecordView::parse(b) matches Ok(v) ==> v.sized() && v.check() is Ok && b == v.encoding(),
{
    if GenericIndexAppendReceiptRecordView::parse(b) is Ok {
        receipt_parts_join(b);
        let v = GenericIndexAppendReceiptRecordView::parse_fields(b)->Ok_0.0;
        let rest = GenericIndexAppendReceiptRecordView::parse_fields(b)->Ok_0.1;
        assert(v.encoding() + rest =~= v.encoding());
    }
}

/// Bytes behind the durable bytes of a valid append receipt are refused.
pub proof fn receipt_refuses_trailing_bytes(v: GenericIndexAppendReceiptRecordView, t: Seq<u8>)
    requires
        v.sized(),
        v.check() is Ok,
        t.len() > 0,
    ensures
        GenericIndexAppendReceiptRecordView::parse(v.encoding() + t) == Err::<GenericIndexAppendReceiptRecordView, GenericIndexFailure>(
            GenericIndexRecordError::TrailingBytes { count: t.len() as usize },
        ),
{
    receipt_parts_read_back(v, t);
}

/// A first byte other than the supported format version is refused.
pub proof fn receipt_refuses_other_versions(b: Seq<u8>)
    requires
        b.len() > 0,
        b[0] != GENERIC_INDEX_VALUE_FORMAT_VERSION,
    ensures
        GenericIndexAppendReceiptRecordView::parse(b) == Err::<GenericIndexAppendReceiptRecordView, GenericIndexFailure>(
            GenericIndexRecordError::UnsupportedValueVersion {
                actual: b[0],
                expected: GENERIC_INDEX_VALUE_FORMAT_VERSION,
            },
        ),
{
    reveal(generic_index_format::take_field);
}

/// The fields of a valid registration and what follows them read back.
proof fn registration_parts_read_back(v: GenericIndexRegistrationOperationRecordView, t: Seq<u8>)
    requires
        v.sized(),
        v.check() is Ok,
    ensures
        GenericIndexRegistrationOperationRecordView::parse_fields(v.encoding() + t) == Ok::<
            (GenericIndexRegistrationOperationRecordView, Seq<u8>),
            GenericIndexFailure,
        >((v, t)),
{
    valid_terminal_error_is_short(v);
    let p1 = seq![GENERIC_INDEX_VALUE_FORMAT_VERSION];
    let p2 = v.workspace_incarnation_id;
    let p3 = generic_index_format::optional_text(v.index_path);
    let p4 = v.generation_id;
    let p5 = v.request_digest;
    let p6 = bytes::be64(v.source_read_version);
    let p7 = bytes::be64(v.last_transition_version);
    let p8 = generic_index_format::optional_position(v.expected_current_generation);
    let p9 = v.capability_digest;
    let p10 = bytes::be64(v.declared_row_count);
    let p11 = bytes::be64(v.appended_row_count);
    let p12 = v.rolling_row_digest;
    let p13 = seq![v.phase.byte()];
    let p14 = generic_index_format::optional_position(v.published_pointer_generation);
    let p15 = generic_index_format::optional_text(v.terminal_error);
    let t16 = t;
    let t15 = p15 + t16;
    let t14 = p14 + t15;
    let t13 = p13 + t14;
    let t12 = p12 + t13;
    let t11 = p11 + t12;
    let t10 = p10 + t11;
    let t9 = p9 + t10;
    let t8 = p8 + t9;
    let t7 = p7 + t8;
    let t6 = p6 + t7;
    let t5 = p5 + t6;
    let t4 = p4 + t5;
    let t3 = p3 + t4;
    let t2 = p2 + t3;
    let e1 = p1;
    let e2 = e1 + p2;
    let e3 = e2 + p3;
    let e4 = e3 + p4;
    let e5 = e4 + p5;
    let e6 = e5 + p6;
    let e7 = e6 + p7;
    let e8 = e7 + p8;
    let e9 = e8 + p9;
    let e10 = e9 + p10;
    let e11 = e10 + p11;
    let e12 = e11 + p12;
    let e13 = e12 + p13;
    let e14 = e13 + p14;
    let e15 = e14 + p15;
    bytes::concat_regroups(e14, p15, t16);
    bytes::concat_regroups(e13, p14, t15);
    bytes::concat_regroups(e12, p13, t14);
    bytes::concat_regroups(e11, p12, t13);
    bytes::concat_regroups(e10, p11, t12);
    bytes::concat_regroups(e9, p10, t11);
    bytes::concat_regroups(e8, p9, t10);
    bytes::concat_regroups(e7, p8, t9);
    bytes::concat_regroups(e6, p7, t8);
    bytes::concat_regroups(e5, p6, t7);
    bytes::concat_regroups(e4, p5, t6);
    bytes::concat_regroups(e3, p4, t5);
    bytes::concat_regroups(e2, p3, t4);
    bytes::concat_regroups(e1, p2, t3);
    u8_reads_back(GENERIC_INDEX_VALUE_FORMAT_VERSION, t2, "value_format_version");
    take_first_part(v.workspace_incarnation_id, t3, "workspace_incarnation_id");
    optional_path_reads_back(v.index_path, t4);
    take_first_part(v.generation_id, t5, "generation_id");
    take_first_part(v.request_digest, t6, "request_digest");
    u64_reads_back(v.source_read_version, t7, "source_read_version");
    u64_reads_back(v.last_transition_version, t8, "last_transition_version");
    optional_position_reads_back(v.expected_current_generation, t9, "expected_current_generation");
    take_first_part(v.capability_digest, t10, "capability_digest");
    u64_reads_back(v.declared_row_count, t11, "declared_row_count");
    u64_reads_back(v.appended_row_count, t12, "appended_row_count");
    take_first_part(v.rolling_row_digest, t13, "rolling_row_digest");
    u8_reads_back(v.phase.byte(), t14, "registration_phase");
    optional_position_reads_back(v.published_pointer_generation, t15, "published_pointer_generation");
    optional_text_reads_back(v.terminal_error, t16, "terminal_error", MAX_GENERIC_INDEX_TERMINAL_ERROR_BYTES);
}

/// The fields of a registration that were read are what the input starts with.
proof fn registration_parts_join(b: Seq<u8>)
    ensures
        GenericIndexRegistrationOperationRecordView::parse_fields(b) matches Ok((v, rest)) ==> v.sized() && b == v.encoding() + rest,
{
    if GenericIndexRegistrationOperationRecordView::parse_fields(b) is Ok {
        let v = GenericIndexRegistrationOperationRecordView::parse_fields(b)->Ok_0.0;
        let rest = GenericIndexRegistrationOperationRecordView::parse_fields(b)->Ok_0.1;
        u8_joins(b, "value_format_version");
        let b0 = generic_index_format::parse_format(b)->Ok_0.1;
        take_parts_join(b0, "workspace_incarnation_id", 16);
        let b1 = generic_index_format::take_field(b0, "workspace_incarnation_id", 16)->Ok_0.1;
        optional_path_joins(b1);
        let b2 = generic_index_format::parse_optional_path(b1)->Ok_0.1;
        take_parts_join(b2, "generation_id", 16);
        let b3 = generic_index_format::take_field(b2, "generation_id", 16)->Ok_0.1;
        take_parts_join(b3, "request_digest", 32);
        let b4 = generic_index_format::take_field(b3, "request_digest", 32)->Ok_0.1;
        u64_joins(b4, "source_read_version");
        let b5 = generic_index_format::parse_position(b4, "source_read_version")->Ok_0.1;
        u64_joins(b5, "last_transition_version");
        let b6 = generic_index_format::parse_position(b5, "last_transition_version")->Ok_0.1;
        optional_position_joins(b6, "expected_current_generation");
        let b7 = generic_index_format::parse_optional_position(b6, "expected_current_generation")->Ok_0.1;
        take_parts_join(b7, "capability_digest", 32);
        let b8 = generic_index_format::take_field(b7, "capability_digest", 32)->Ok_0.1;
        u64_joins(b8, "declared_row_count");
        let b9 = generic_index_format::parse_u64(b8, "declared_row_count")->Ok_0.1;
        u64_joins(b9, "appended_row_count");
        let b10 = generic_index_format::parse_u64(b9, "appended_row_count")->Ok_0.1;
        take_parts_join(b10, "rolling_row_digest", 32);
        let b11 = generic_index_format::take_field(b10, "rolling_row_digest", 32)->Ok_0.1;
        u8_joins(b11, "registration_phase");
        let b12 = generic_index_format::parse_registration_phase(b11)->Ok_0.1;
        optional_position_joins(b12, "published_pointer_generation");
        let b13 = generic_index_format::parse_optional_position(b12, "published_pointer_generation")->Ok_0.1;
        optional_text_joins(b13, "terminal_error", MAX_GENERIC_INDEX_TERMINAL_ERROR_BYTES);
        let b14 = generic_index_format::parse_optional_text(b13, "terminal_error", MAX_GENERIC_INDEX_TERMINAL_ERROR_BYTES)->Ok_0.1;
        let p1 = seq![GENERIC_INDEX_VALUE_FORMAT_VERSION];
        let p2 = v.workspace_incarnation_id;
        let p3 = generic_index_format::optional_text(v.index_path);
        let p4 = v.generation_id;
        let p5 = v.request_digest;
        let p6 = bytes::be64(v.source_read_version);
        let p7 = bytes::be64(v.last_transition_version);
        let p8 = generic_index_format::optional_position(v.expected_current_generation);
        let p9 = v.capability_digest;
        let p10 = bytes::be64(v.declared_row_count);
        let p11 = bytes::be64(v.appended_row_count);
        let p12 = v.rolling_row_digest;
        let p13 = seq![v.phase.byte()];
        let p14 = generic_index_format::optional_position(v.published_pointer_generation);
        let p15 = generic_index_format::optional_text(v.terminal_error);
        let t16 = rest;
        let t15 = p15 + t16;
        let t14 = p14 + t15;
        let t13 = p13 + t14;
        let t12 = p12 + t13;
        let t11 = p11 + t12;
        let t10 = p10 + t11;
        let t9 = p9 + t10;
        let t8 = p8 + t9;
        let t7 = p7 + t8;
        let t6 = p6 + t7;
        let t5 = p5 + t6;
        let t4 = p4 + t5;
        let t3 = p3 + t4;
        let t2 = p2 + t3;
        let e1 = p1;
        let e2 = e1 + p2;
        let e3 = e2 + p3;
        let e4 = e3 + p4;
        let e5 = e4 + p5;
        let e6 = e5 + p6;
        let e7 = e6 + p7;
        let e8 = e7 + p8;
        let e9 = e8 + p9;
        let e10 = e9 + p10;
        let e11 = e10 + p11;
        let e12 = e11 + p12;
        let e13 = e12 + p13;
        let e14 = e13 + p14;
        let e15 = e14 + p15;
        bytes::concat_regroups(e14, p15, t16);
        bytes::concat_regroups(e13, p14, t15);
        bytes::concat_regroups(e12, p13, t14);
        bytes::concat_regroups(e11, p12, t13);
        bytes::concat_regroups(e10, p11, t12);
        bytes::concat_regroups(e9, p10, t11);
        bytes::concat_regroups(e8, p9, t10);
        bytes::concat_regroups(e7, p8, t9);
        bytes::concat_regroups(e6, p7, t8);
        bytes::concat_regroups(e5, p6, t7);
        bytes::concat_regroups(e4, p5, t6);
        bytes::concat_regroups(e3, p4, t5);
        bytes::concat_regroups(e2, p3, t4);
        bytes::concat_regroups(e1, p2, t3);
    }
}

/// The durable bytes of a valid registration decode to that registration.
pub proof fn registration_reads_back(v: GenericIndexRegistrationOperationRecordView)
    requires
        v.sized(),
        v.check() is Ok,
    ensures
        GenericIndexRegistrationOperationRecordView::parse(v.encoding()) == Ok::<GenericIndexRegistrationOperationRecordView, GenericIndexFailure>(v),
{
    registration_parts_read_back(v, Seq::empty());
    assert(v.encoding() + Seq::empty() =~= v.encoding());
}

/// Bytes that decode to a registration are exactly its durable bytes, and the
/// registration is valid.
pub proof fn registration_is_canonical(b: Seq<u8>)
    ensures
        GenericIndexRegistrationOperationRecordView::parse(b) matches Ok(v) ==> v.sized() && v.check() is Ok && b == v.encoding(),
{
    if GenericIndexRegistrationOperationRecordView::parse(b) is Ok {
        registration_parts_join(b);
        let v = GenericIndexRegistrationOperationRecordView::parse_fields(b)->Ok_0.0;
        let rest = GenericIndexRegistrationOperationRecordView::parse_fields(b)->Ok_0.1;
        assert(v.encoding() + rest =~= v.encoding());
    }
}

/// Bytes behind the durable bytes of a valid registration are refused.
pub proof fn registration_refuses_trailing_bytes(v: GenericIndexRegistrationOperationRecordView, t: Seq<u8>)
    requires
        v.sized(),
        v.check() is Ok,
        t.len() > 0,
    ensures
        GenericIndexRegistrationOperationRecordView::parse(v.encoding() + t) == Err::<GenericIndexRegistrationOperationRecordView, GenericIndexFailure>(
            GenericIndexRecordError::TrailingBytes { count: t.len() as usize },
        ),
{
    registration_parts_read_back(v, t);
}

/// A first byte other than the supported format version is refused.
pub proof fn registration_refuses_other_versions(b: Seq<u8>)
    requires
        b.len() > 0,
        b[0] != GENERIC_INDEX_VALUE_FORMAT_VERSION,
    ensures
        GenericIndexRegistrationOperationRecordView::parse(b) == Err::<GenericIndexRegistrationOperationRecordView, GenericIndexFailure>(
            GenericIndexRecordError::UnsupportedValueVersion {
                actual: b[0],
                expected: GENERIC_INDEX_VALUE_FORMAT_VERSION,
            },
        ),
{
    reveal(generic_index_format::take_field);
}

/// The fields of a valid commit member and what follows them read back.
proof fn member_parts_read_back(v: CommitGenericIndexMemberRecordView, t: Seq<u8>)
    requires
        v.sized(),
        v.check() is Ok,
    ensures
        CommitGenericIndexMemberRecordView::parse_fields(v.encoding() + t) == Ok::<
            (CommitGenericIndexMemberRecordView, Seq<u8>),
            GenericIndexFailure,
        >((v, t)),
{
    let p1 = seq![GENERIC_INDEX_VALUE_FORMAT_VERSION];
    let p2 = v.generation_id;
    let p3 = v.capability_digest;
    let p4 = bytes::be64(v.row_count);
    let p5 = v.row_digest;
    let t6 = t;
    let t5 = p5 + t6;
    let t4 = p4 + t5;
    let t3 = p3 + t4;
    let t2 = p2 + t3;
    let e1 = p1;
    let e2 = e1 + p2;
    let e3 = e2 + p3;
    let e4 = e3 + p4;
    let e5 = e4 + p5;
    bytes::concat_regroups(e4, p5, t6);
    bytes::concat_regroups(e3, p4, t5);
    bytes::concat_regroups(e2, p3, t4);
    bytes::concat_regroups(e1, p2, t3);
    u8_reads_back(GENERIC_INDEX_VALUE_FORMAT_VERSION, t2, "value_format_version");
    take_first_part(v.generation_id, t3, "generation_id");
    take_first_part(v.capability_digest, t4, "capability_digest");
    u64_reads_back(v.row_count, t5, "row_count");
    take_first_part(v.row_digest, t6, "row_digest");
}

/// The fields of a commit member that were read are what the input starts with.
proof fn member_parts_join(b: Seq<u8>)
    ensures
        CommitGenericIndexMemberRecordView::parse_fields(b) matches Ok((v, rest)) ==> v.sized() && b == v.encoding() + rest,
{
    if CommitGenericIndexMemberRecordView::parse_fields(b) is Ok {
        let v = CommitGenericIndexMemberRecordView::parse_fields(b)->Ok_0.0;
        let rest = CommitGenericIndexMemberRecordView::parse_fields(b)->Ok_0.1;
        u8_joins(b, "value_format_version");
        let b0 = generic_index_format::parse_format(b)->Ok_0.1;
        take_parts_join(b0, "generation_id", 16);
        let b1 = generic_index_format::take_field(b0, "generation_id", 16)->Ok_0.1;
        take_parts_join(b1, "capability_digest", 32);
        let b2 = generic_index_format::take_field(b1, "capability_digest", 32)->Ok_0.1;
        u64_joins(b2, "row_count");
        let b3 = generic_index_format::parse_u64(b2, "row_count")->Ok_0.1;
        take_parts_join(b3, "row_digest", 32);
        let b4 = generic_index_format::take_field(b3, "row_digest", 32)->Ok_0.1;
        let p1 = seq![GENERIC_INDEX_VALUE_FORMAT_VERSION];
        let p2 = v.generation_id;
        let p3 = v.capability_digest;
        let p4 = bytes::be64(v.row_count);
        let p5 = v.row_digest;
        let t6 = rest;
        let t5 = p5 + t6;
        let t4 = p4 + t5;
        let t3 = p3 + t4;
        let t2 = p2 + t3;
        let e1 = p1;
        let e2 = e1 + p2;
        let e3 = e2 + p3;
        let e4 = e3 + p4;
        let e5 = e4 + p5;
        bytes::concat_regroups(e4, p5, t6);
        bytes::concat_regroups(e3, p4, t5);
        bytes::concat_regroups(e2, p3, t4);
        bytes::concat_regroups(e1, p2, t3);
    }
}

/// The durable bytes of a valid commit member decode to that commit member.
pub proof fn member_reads_back(v: CommitGenericIndexMemberRecordView)
    requires
        v.sized(),
        v.check() is Ok,
    ensures
        CommitGenericIndexMemberRecordView::parse(v.encoding()) == Ok::<CommitGenericIndexMemberRecordView, GenericIndexFailure>(v),
{
    member_parts_read_back(v, Seq::empty());
    assert(v.encoding() + Seq::empty() =~= v.encoding());
}

/// Bytes that decode to a commit member are exactly its durable bytes, and the
/// commit member is valid.
pub proof fn member_is_canonical(b: Seq<u8>)
    ensures
        CommitGenericIndexMemberRecordView::parse(b) matches Ok(v) ==> v.sized() && v.check() is Ok && b == v.encoding(),
{
    if CommitGenericIndexMemberRecordView::parse(b) is Ok {
        member_parts_join(b);
        let v = CommitGenericIndexMemberRecordView::parse_fields(b)->Ok_0.0;
        let rest = CommitGenericIndexMemberRecordView::parse_fields(b)->Ok_0.1;
        assert(v.encoding() + rest =~= v.encoding());
    }
}

/// Bytes behind the durable bytes of a valid commit member are refused.
pub proof fn member_refuses_trailing_bytes(v: CommitGenericIndexMemberRecordView, t: Seq<u8>)
    requires
        v.sized(),
        v.check() is Ok,
        t.len() > 0,
    ensures
        CommitGenericIndexMemberRecordView::parse(v.encoding() + t) == Err::<CommitGenericIndexMemberRecordView, GenericIndexFailure>(
            GenericIndexRecordError::TrailingBytes { count: t.len() as usize },
        ),
{
    member_parts_read_back(v, t);
}

/// A first byte other than the supported format version is refused.
pub proof fn member_refuses_other_versions(b: Seq<u8>)
    requires
        b.len() > 0,
        b[0] != GENERIC_INDEX_VALUE_FORMAT_VERSION,
    ensures
        CommitGenericIndexMemberRecordView::parse(b) == Err::<CommitGenericIndexMemberRecordView, GenericIndexFailure>(
            GenericIndexRecordError::UnsupportedValueVersion {
                actual: b[0],
                expected: GENERIC_INDEX_VALUE_FORMAT_VERSION,
            },
        ),
{
    reveal(generic_index_format::take_field);
}

} // verus!
