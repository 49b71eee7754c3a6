//! Encoding and decoding of Generic index records.

use vstd::prelude::*;
use vstd::utf8::*;

use crate::bytes;
use crate::generic_index_format;
use crate::generic_index_format::Parsed;
use crate::generic_index_laws;
use crate::generic_index_records;
use crate::generic_index_records::{
    CommitGenericIndexMemberRecord, CommitGenericIndexMemberRecordView,
    GenericIndexAppendReceiptRecord, GenericIndexAppendReceiptRecordView,
    GenericIndexArtifactBinding, GenericIndexCurrentRecord, GenericIndexCurrentRecordView,
    GenericIndexFailure, GenericIndexFieldCapability, GenericIndexFieldCapabilityView,
    GenericIndexFieldValues, GenericIndexFieldValuesView, GenericIndexGenerationRecord,
    GenericIndexGenerationRecordView, GenericIndexGenerationRefRecord,
    GenericIndexGenerationRefRecordView, GenericIndexOperator, GenericIndexRecordError,
    GenericIndexRegistrationOperationRecord, GenericIndexRegistrationOperationRecordView,
    GenericIndexRowBinding, GenericIndexRowBindingView, GenericIndexRowRecord,
    GenericIndexRowRecordView, GENERIC_INDEX_VALUE_FORMAT_VERSION, MAX_GENERIC_INDEX_FIELDS,
    MAX_GENERIC_INDEX_OPERATORS, MAX_GENERIC_INDEX_ROW_BYTES, MAX_GENERIC_INDEX_ROW_FIELDS,
    MAX_GENERIC_INDEX_TERMINAL_ERROR_BYTES, MAX_GENERIC_INDEX_VALUES_PER_FIELD,
};
use crate::generic_index_validate;
use crate::ids::{
    ArtifactRevisionId, CommandDigest, GenericIndexGenerationId, WorkspaceIncarnationId,
};
use crate::names;
use crate::names::{NormalizedRelativePath, QueryFieldId, MAX_QUERY_FIELD_ID_BYTES};
use crate::positions::{CommitVersion, Generation, ReadVersion, ReferenceEpoch};
use crate::records;
use crate::scalars::{FiniteFloat, QueryScalar, QueryScalarView, MAX_QUERY_SCALAR_BYTES};
use crate::states::{
    GenericIndexGenerationState, GenericIndexReferenceKind, GenericIndexRegistrationPhase,
};

verus! {

/// The result of a read, seen as contents.
pub open spec fn read_as<R: View>(
    parsed: Parsed<R::V>,
    result: Result<R, GenericIndexRecordError>,
    rest: Seq<u8>,
) -> bool {
    match result {
        Ok(value) => parsed == Ok::<(R::V, Seq<u8>), GenericIndexFailure>((value@, rest)),
        Err(e) => parsed == Err::<(R::V, Seq<u8>), GenericIndexFailure>(e.model()),
    }
}

/// The result of reading a plain value.
pub open spec fn read_plain<V>(
    parsed: Parsed<V>,
    result: Result<V, GenericIndexRecordError>,
    rest: Seq<u8>,
) -> bool {
    match result {
        Ok(value) => parsed == Ok::<(V, Seq<u8>), GenericIndexFailure>((value, rest)),
        Err(e) => parsed == Err::<(V, Seq<u8>), GenericIndexFailure>(e.model()),
    }
}

/// The result of reading an optional value, seen as contents.
pub open spec fn read_option_as<R: View>(
    parsed: Parsed<Option<R::V>>,
    result: Result<Option<R>, GenericIndexRecordError>,
    rest: Seq<u8>,
) -> bool {
    match result {
        Ok(value) => parsed == Ok::<(Option<R::V>, Seq<u8>), GenericIndexFailure>(
            (bytes::option_view(value), rest),
        ),
        Err(e) => parsed == Err::<(Option<R::V>, Seq<u8>), GenericIndexFailure>(e.model()),
    }
}

/// The result of an encode: the encoding when the check passes, and otherwise
/// the failure that the check names.
pub open spec fn encoded_as(
    result: Result<Vec<u8>, GenericIndexRecordError>,
    check: Result<(), GenericIndexFailure>,
    encoding: Seq<u8>,
) -> bool {
    match check {
        Ok(()) => result matches Ok(out) && out@ == encoding,
        Err(failure) => result matches Err(e) && e.model() == failure,
    }
}

/// The result of a decode, seen as contents.
pub open spec fn decoded<R: View>(result: Result<R, GenericIndexRecordError>) -> Result<
    R::V,
    GenericIndexFailure,
> {
    match result {
        Ok(record) => Ok(record@),
        Err(e) => Err(e.model()),
    }
}

/// The effect of an append that the check may refuse: the bytes are added when
/// the check passes, and otherwise nothing is.
pub open spec fn appended(
    result: Result<(), GenericIndexRecordError>,
    check: Result<(), GenericIndexFailure>,
    before: Seq<u8>,
    after: Seq<u8>,
    added: Seq<u8>,
) -> bool {
    &&& generic_index_validate::checked(result) == check
    &&& after == (if check is Ok {
        before + added
    } else {
        before
    })
}

/// A count is bounded, and fits 16 bits.
pub open spec fn count_check(field: &'static str, count: usize, max: usize) -> Result<
    (),
    GenericIndexFailure,
> {
    generic_index_validate::require(
        count <= max && count <= u16::MAX,
        GenericIndexRecordError::CountLimit { field, count, max },
    )
}

/// Appends a bounded 16-bit count.
pub fn put_u16_count(encoded: &mut Vec<u8>, field: &'static str, count: usize, max: usize) -> (result:
    Result<(), GenericIndexRecordError>)
    ensures
        appended(
            result,
            count_check(field, count, max),
            old(encoded)@,
            final(encoded)@,
            bytes::be16(count as u16),
        ),
{
    if count > max || count > u16::MAX as usize {
        return Err(GenericIndexRecordError::CountLimit { field, count, max });
    }
    bytes::push_u16(encoded, count as u16);
    Ok(())
}

/// A length is bounded, and fits its prefix.
pub open spec fn length_check(field: &'static str, length: nat, max: usize, limit: nat) -> Result<
    (),
    GenericIndexFailure,
> {
    generic_index_validate::require(
        length <= max && length <= limit,
        GenericIndexRecordError::LengthLimit { field, length: length as usize, max },
    )
}

/// Appends a bounded byte string, preceded by its 16-bit length.
pub fn put_short_bytes(encoded: &mut Vec<u8>, field: &'static str, value: &[u8], max: usize) -> (result:
    Result<(), GenericIndexRecordError>)
    ensures
        appended(
            result,
            length_check(field, value@.len(), max, u16::MAX as nat),
            old(encoded)@,
            final(encoded)@,
            generic_index_format::short_prefixed(value@),
        ),
{
    let length: usize = value.len();
    if length > max || length > u16::MAX as usize {
        return Err(GenericIndexRecordError::LengthLimit { field, length, max });
    }
    bytes::push_u16(encoded, length as u16);
    bytes::push_bytes(encoded, value);
    proof {
        bytes::concat_regroups(old(encoded)@, bytes::be16(length as u16), value@);
    }
    Ok(())
}

/// Appends a bounded byte string, preceded by its 32-bit length.
pub fn put_long_bytes(encoded: &mut Vec<u8>, field: &'static str, value: &[u8], max: usize) -> (result:
    Result<(), GenericIndexRecordError>)
    ensures
        appended(
            result,
            length_check(field, value@.len(), max, u32::MAX as nat),
            old(encoded)@,
            final(encoded)@,
            records::length_prefixed(value@),
        ),
{
    let length: usize = value.len();
    if length > max || length > u32::MAX as usize {
        return Err(GenericIndexRecordError::LengthLimit { field, length, max });
    }
    bytes::push_u32(encoded, length as u32);
    bytes::push_bytes(encoded, value);
    proof {
        bytes::concat_regroups(old(encoded)@, bytes::be32(length as u32), value@);
    }
    Ok(())
}

/// Appends an optional path.
pub fn put_optional_path(encoded: &mut Vec<u8>, path: &Option<NormalizedRelativePath>) -> (result:
    Result<(), GenericIndexRecordError>)
    ensures
        result is Ok,
        final(encoded)@ == old(encoded)@ + generic_index_format::optional_text(
            bytes::option_view(*path),
        ),
        path matches Some(p) ==> valid_utf8(p@) && names::path_check(p@) is Ok,
{
    match path {
        None => bytes::push_u8(encoded, 0),
        Some(path) => {
            bytes::push_u8(encoded, 1);
            put_long_bytes(
                encoded,
                "relative_path",
                path.as_bytes(),
                NormalizedRelativePath::MAX_BYTES,
            )?;
            proof {
                bytes::concat_regroups(
                    old(encoded)@,
                    seq![1u8],
                    records::length_prefixed(path@),
                );
            }
        },
    }
    Ok(())
}

/// Appends an optional generation.
fn put_optional_generation(encoded: &mut Vec<u8>, generation: &Option<Generation>)
    ensures
        final(encoded)@ == old(encoded)@ + generic_index_format::optional_position(
            bytes::option_view(*generation),
        ),
        generation matches Some(g) ==> g@ != 0,
{
    match generation {
        None => bytes::push_u8(encoded, 0),
        Some(generation) => {
            bytes::push_u8(encoded, 1);
            bytes::push_u64(encoded, generation.get());
            proof {
                bytes::concat_regroups(old(encoded)@, seq![1u8], bytes::be64(generation@));
            }
        },
    }
}

/// Appends an optional commit version.
fn put_optional_commit_version(encoded: &mut Vec<u8>, version: &Option<CommitVersion>)
    ensures
        final(encoded)@ == old(encoded)@ + generic_index_format::optional_position(
            bytes::option_view(*version),
        ),
        version matches Some(v) ==> v@ != 0,
{
    match version {
        None => bytes::push_u8(encoded, 0),
        Some(version) => {
            bytes::push_u8(encoded, 1);
            bytes::push_u64(encoded, version.get());
            proof {
                bytes::concat_regroups(old(encoded)@, seq![1u8], bytes::be64(version@));
            }
        },
    }
}

/// Appends an optional text of bounded length.
fn put_optional_string(
    encoded: &mut Vec<u8>,
    field: &'static str,
    value: &Option<String>,
    max: usize,
) -> (result: Result<(), GenericIndexRecordError>)
    requires
        generic_index_records::optional_text_view(*value) matches Some(v) ==> v.len() <= max
            && v.len() <= u32::MAX,
    ensures
        result is Ok,
        final(encoded)@ == old(encoded)@ + generic_index_format::optional_text(
            generic_index_records::optional_text_view(*value),
        ),
        generic_index_records::optional_text_view(*value) matches Some(v) ==> valid_utf8(v),
{
    match value {
        None => bytes::push_u8(encoded, 0),
        Some(value) => {
            bytes::push_u8(encoded, 1);
            put_long_bytes(encoded, field, value.as_str().as_bytes(), max)?;
            proof {
                encode_utf8_valid_utf8(value@);
                bytes::concat_regroups(
                    old(encoded)@,
                    seq![1u8],
                    records::length_prefixed(bytes::utf8(value@)),
                );
            }
        },
    }
    Ok(())
}

/// Appends one row value.
pub fn put_generic_scalar(encoded: &mut Vec<u8>, field: &QueryFieldId, value: &QueryScalar) -> (result:
    Result<(), GenericIndexRecordError>)
    ensures
        appended(
            result,
            generic_index_validate::generic_scalar_check(field@, value@),
            old(encoded)@,
            final(encoded)@,
            generic_index_format::scalar_encoding(value@),
        ),
{
    generic_index_validate::validate_generic_scalar(field, value)?;
    match value {
        QueryScalar::String(value) => {
            bytes::push_u8(encoded, 1);
            put_long_bytes(
                encoded,
                "string_scalar",
                value.as_str().as_bytes(),
                MAX_QUERY_SCALAR_BYTES,
            )?;
            proof {
                bytes::concat_regroups(
                    old(encoded)@,
                    seq![1u8],
                    records::length_prefixed(bytes::utf8(value@)),
                );
            }
        },
        QueryScalar::Unsigned(value) => {
            bytes::push_u8(encoded, 2);
            bytes::push_u64(encoded, *value);
            proof {
                bytes::concat_regroups(old(encoded)@, seq![2u8], bytes::be64(*value));
            }
        },
        QueryScalar::Float(value) => {
            bytes::push_u8(encoded, 3);
            bytes::push_u64(encoded, value.to_bits());
            proof {
                bytes::concat_regroups(old(encoded)@, seq![3u8], bytes::be64(value@));
            }
        },
        _ => {},
    }
    Ok(())
}

/// One more operator adds its byte at the end.
proof fn operators_encoding_grows(operators: Seq<GenericIndexOperator>, operator: GenericIndexOperator)
    ensures
        generic_index_format::operators_encoding(operators.push(operator))
            == generic_index_format::operators_encoding(operators) + seq![operator.byte()],
    decreases operators.len(),
{
    reveal_with_fuel(generic_index_format::operators_encoding, 2);
    let longer = operators.push(operator);
    if operators.len() == 0 {
        assert(longer.drop_first() =~= Seq::empty());
        assert(seq![operator.byte()] + Seq::<u8>::empty() =~= Seq::<u8>::empty() + seq![
            operator.byte(),
        ]);
    } else {
        assert(longer.drop_first() =~= operators.drop_first().push(operator));
        operators_encoding_grows(operators.drop_first(), operator);
        bytes::concat_regroups(
            seq![operators[0].byte()],
            generic_index_format::operators_encoding(operators.drop_first()),
            seq![operator.byte()],
        );
    }
}

/// One more capability adds its bytes at the end.
proof fn capability_list_grows(
    capabilities: Seq<GenericIndexFieldCapabilityView>,
    capability: GenericIndexFieldCapabilityView,
)
    ensures
        generic_index_format::capability_list_encoding(capabilities.push(capability))
            == generic_index_format::capability_list_encoding(capabilities)
            + capability.encoding(),
    decreases capabilities.len(),
{
    reveal_with_fuel(generic_index_format::capability_list_encoding, 2);
    let longer = capabilities.push(capability);
    if capabilities.len() == 0 {
        assert(longer.drop_first() =~= Seq::empty());
        assert(capability.encoding() + Seq::<u8>::empty() =~= Seq::<u8>::empty()
            + capability.encoding());
    } else {
        assert(longer.drop_first() =~= capabilities.drop_first().push(capability));
        capability_list_grows(capabilities.drop_first(), capability);
        bytes::concat_regroups(
            capabilities[0].encoding(),
            generic_index_format::capability_list_encoding(capabilities.drop_first()),
            capability.encoding(),
        );
    }
}

/// One more value adds its bytes at the end.
proof fn scalar_list_grows(values: Seq<QueryScalarView>, value: QueryScalarView)
    ensures
        generic_index_format::scalar_list_encoding(values.push(value))
            == generic_index_format::scalar_list_encoding(values)
            + generic_index_format::scalar_encoding(value),
    decreases values.len(),
{
    reveal_with_fuel(generic_index_format::scalar_list_encoding, 2);
    let longer = values.push(value);
    let added = generic_index_format::scalar_encoding(value);
    if values.len() == 0 {
        assert(longer.drop_first() =~= Seq::empty());
        assert(added + Seq::<u8>::empty() =~= Seq::<u8>::empty() + added);
    } else {
        assert(longer.drop_first() =~= values.drop_first().push(value));
        scalar_list_grows(values.drop_first(), value);
        bytes::concat_regroups(
            generic_index_format::scalar_encoding(values[0]),
            generic_index_format::scalar_list_encoding(values.drop_first()),
            added,
        );
    }
}

/// One more field adds its bytes at the end.
proof fn field_list_grows(
    values: Seq<GenericIndexFieldValuesView>,
    value: GenericIndexFieldValuesView,
)
    ensures
        generic_index_format::field_list_encoding(values.push(value))
            == generic_index_format::field_list_encoding(values) + value.encoding(),
    decreases values.len(),
{
    reveal_with_fuel(generic_index_format::field_list_encoding, 2);
    let longer = values.push(value);
    if values.len() == 0 {
        assert(longer.drop_first() =~= Seq::empty());
        assert(value.encoding() + Seq::<u8>::empty() =~= Seq::<u8>::empty() + value.encoding());
    } else {
        assert(longer.drop_first() =~= values.drop_first().push(value));
        field_list_grows(values.drop_first(), value);
        bytes::concat_regroups(
            values[0].encoding(),
            generic_index_format::field_list_encoding(values.drop_first()),
            value.encoding(),
        );
    }
}

/// Appends one capability whose operator count fits one byte.
fn put_capability(encoded: &mut Vec<u8>, capability: &GenericIndexFieldCapability) -> (result: Result<
    (),
    GenericIndexRecordError,
>)
    requires
        capability.operators@.len() <= u8::MAX,
    ensures
        result is Ok,
        final(encoded)@ == old(encoded)@ + capability@.encoding(),
        capability@.sized(),
{
    put_short_bytes(
        encoded,
        "field_id",
        capability.field.as_bytes(),
        MAX_QUERY_FIELD_ID_BYTES,
    )?;
    bytes::push_u8(encoded, capability.operators.len() as u8);
    let ghost start = encoded@;
    let mut i: usize = 0;
    assert(capability.operators@.take(0) =~= Seq::empty());
    assert(start + Seq::<u8>::empty() =~= start);
    while i < capability.operators.len()
        invariant
            i <= capability.operators@.len(),
            encoded@ == start + generic_index_format::operators_encoding(
                capability.operators@.take(i as int),
            ),
        decreases capability.operators@.len() - i,
    {
        bytes::push_u8(encoded, capability.operators[i].to_byte());
        proof {
            let done = capability.operators@.take(i as int);
            let operator = capability.operators@[i as int];
            assert(capability.operators@.take(i + 1) =~= done.push(operator));
            operators_encoding_grows(done, operator);
            bytes::concat_regroups(
                start,
                generic_index_format::operators_encoding(done),
                seq![operator.byte()],
            );
        }
        i = i + 1;
    }
    bytes::push_u8(
        encoded,
        if capability.sortable {
            1
        } else {
            0
        },
    );
    bytes::push_u8(
        encoded,
        if capability.facetable {
            1
        } else {
            0
        },
    );
    proof {
        let view = capability@;
        assert(capability.operators@.take(i as int) =~= view.operators);
        bytes::regroup_6(
            old(encoded)@,
            generic_index_format::short_prefixed(view.field),
            seq![view.operators.len() as u8],
            generic_index_format::operators_encoding(view.operators),
            seq![generic_index_format::bool_byte(view.sortable)],
            seq![generic_index_format::bool_byte(view.facetable)],
        );
        bytes::regroup_5(
            generic_index_format::short_prefixed(view.field),
            seq![view.operators.len() as u8],
            generic_index_format::operators_encoding(view.operators),
            seq![generic_index_format::bool_byte(view.sortable)],
            seq![generic_index_format::bool_byte(view.facetable)],
        );
    }
    Ok(())
}

/// Operator counts from index `i` on fit one byte.
pub open spec fn operator_counts_check(
    capabilities: Seq<GenericIndexFieldCapabilityView>,
    i: int,
) -> Result<(), GenericIndexFailure>
    decreases capabilities.len() - i,
{
    if i >= capabilities.len() {
        Ok(())
    } else {
        generic_index_validate::and_also(
            generic_index_validate::require(
                capabilities[i].operators.len() <= u8::MAX,
                GenericIndexRecordError::CountLimit {
                    field: "operators",
                    count: capabilities[i].operators.len() as usize,
                    max: u8::MAX as usize,
                },
            ),
            operator_counts_check(capabilities, i + 1),
        )
    }
}

/// Why a list of capabilities has no bytes, if it has none.
pub open spec fn put_capabilities_check(
    capabilities: Seq<GenericIndexFieldCapabilityView>,
) -> Result<(), GenericIndexFailure> {
    generic_index_validate::and_also(
        count_check("capabilities", capabilities.len() as usize, MAX_GENERIC_INDEX_FIELDS),
        operator_counts_check(capabilities, 0),
    )
}

/// Appends a list of capabilities, preceded by its count.
pub fn put_capabilities(encoded: &mut Vec<u8>, capabilities: &Vec<GenericIndexFieldCapability>) -> (result:
    Result<(), GenericIndexRecordError>)
    ensures
        appended(
            result,
            put_capabilities_check(generic_index_records::capability_views(capabilities@)),
            old(encoded)@,
            final(encoded)@,
            generic_index_format::capabilities_encoding(
                generic_index_records::capability_views(capabilities@),
            ),
        ),
        result is Ok ==> generic_index_format::capabilities_sized(
            generic_index_records::capability_views(capabilities@),
        ),
{
    let ghost views = generic_index_records::capability_views(capabilities@);
    if capabilities.len() > MAX_GENERIC_INDEX_FIELDS {
        return Err(
            GenericIndexRecordError::CountLimit {
                field: "capabilities",
                count: capabilities.len(),
                max: MAX_GENERIC_INDEX_FIELDS,
            },
        );
    }
    let mut i: usize = 0;
    while i < capabilities.len()
        invariant
            i <= capabilities@.len(),
            views == generic_index_records::capability_views(capabilities@),
            *encoded == *old(encoded),
            put_capabilities_check(views) == operator_counts_check(views, i as int),
            forall|j: int| 0 <= j < i ==> (#[trigger] capabilities@[j]).operators@.len() <= u8::MAX,
        decreases capabilities@.len() - i,
    {
        assert(views[i as int] == capabilities@[i as int]@);
        let count: usize = capabilities[i].operators.len();
        if count > u8::MAX as usize {
            return Err(
                GenericIndexRecordError::CountLimit {
                    field: "operators",
                    count,
                    max: u8::MAX as usize,
                },
            );
        }
        i = i + 1;
    }
    put_u16_count(encoded, "capabilities", capabilities.len(), MAX_GENERIC_INDEX_FIELDS)?;
    let ghost start = encoded@;
    let mut k: usize = 0;
    assert(views.take(0) =~= Seq::empty());
    assert(start + Seq::<u8>::empty() =~= start);
    while k < capabilities.len()
        invariant
            k <= capabilities@.len(),
            views == generic_index_records::capability_views(capabilities@),
            forall|j: int|
                0 <= j < capabilities@.len() ==> (#[trigger] capabilities@[j]).operators@.len()
                    <= u8::MAX,
            forall|j: int| 0 <= j < k ==> (#[trigger] views[j]).sized(),
            encoded@ == start + generic_index_format::capability_list_encoding(
                views.take(k as int),
            ),
            put_capabilities_check(views) is Ok,
        decreases capabilities@.len() - k,
    {
        put_capability(encoded, &capabilities[k])?;
        proof {
            let done = views.take(k as int);
            assert(views[k as int] == capabilities@[k as int]@);
            assert(views.take(k + 1) =~= done.push(views[k as int]));
            capability_list_grows(done, views[k as int]);
            bytes::concat_regroups(
                start,
                generic_index_format::capability_list_encoding(done),
                views[k as int].encoding(),
            );
        }
        k = k + 1;
    }
    proof {
        assert(views.take(k as int) =~= views);
        bytes::concat_regroups(
            old(encoded)@,
            bytes::be16(capabilities@.len() as u16),
            generic_index_format::capability_list_encoding(views),
        );
    }
    Ok(())
}

/// A valid catalog passes the checks of its bytes from index `i` on.
pub proof fn valid_catalog_has_bytes(capabilities: Seq<GenericIndexFieldCapabilityView>, i: int)
    requires
        0 <= i,
        generic_index_validate::capabilities_check(capabilities) is Ok,
    ensures
        operator_counts_check(capabilities, i) is Ok,
        put_capabilities_check(capabilities) == operator_counts_check(capabilities, 0),
    decreases capabilities.len() - i,
{
    generic_index_laws::valid_catalog_is_bounded(capabilities);
    if i < capabilities.len() {
        valid_catalog_has_bytes(capabilities, i + 1);
    }
}

/// Appends the valid values of one field.
fn put_field_values(encoded: &mut Vec<u8>, field_values: &GenericIndexFieldValues) -> (result: Result<
    (),
    GenericIndexRecordError,
>)
    requires
        field_values@.check() is Ok,
    ensures
        result is Ok,
        final(encoded)@ == old(encoded)@ + field_values@.encoding(),
        field_values@.sized(),
{
    let ghost view = field_values@;
    put_short_bytes(
        encoded,
        "field_id",
        field_values.field.as_bytes(),
        MAX_QUERY_FIELD_ID_BYTES,
    )?;
    put_u16_count(
        encoded,
        "field_values",
        field_values.values.len(),
        MAX_GENERIC_INDEX_VALUES_PER_FIELD,
    )?;
    let ghost start = encoded@;
    let mut i: usize = 0;
    assert(view.values.take(0) =~= Seq::empty());
    assert(start + Seq::<u8>::empty() =~= start);
    while i < field_values.values.len()
        invariant
            i <= field_values.values@.len(),
            view == field_values@,
            generic_index_validate::scalars_check_from(view.field, view.values, i as int) is Ok,
            forall|j: int| 0 <= j < i ==> (#[trigger] view.values[j]).valid(),
            encoded@ == start + generic_index_format::scalar_list_encoding(
                view.values.take(i as int),
            ),
        decreases field_values.values@.len() - i,
    {
        let value = &field_values.values[i];
        assert(view.values[i as int] == value@);
        let _ = value.scalar_type();
        put_generic_scalar(encoded, &field_values.field, value)?;
        proof {
            let done = view.values.take(i as int);
            assert(view.values.take(i + 1) =~= done.push(value@));
            scalar_list_grows(done, value@);
            bytes::concat_regroups(
                start,
                generic_index_format::scalar_list_encoding(done),
                generic_index_format::scalar_encoding(value@),
            );
        }
        i = i + 1;
    }
    proof {
        assert(view.values.take(i as int) =~= view.values);
        bytes::regroup_4(
            old(encoded)@,
            generic_index_format::short_prefixed(view.field),
            bytes::be16(view.values.len() as u16),
            generic_index_format::scalar_list_encoding(view.values),
        );
        bytes::concat_regroups(
            generic_index_format::short_prefixed(view.field),
            bytes::be16(view.values.len() as u16),
            generic_index_format::scalar_list_encoding(view.values),
        );
    }
    Ok(())
}

/// Appends the fields of a valid row, preceded by their count.
pub fn put_row_fields(encoded: &mut Vec<u8>, row: &GenericIndexRowRecord) -> (result: Result<
    (),
    GenericIndexRecordError,
>)
    requires
        row@.check() is Ok,
    ensures
        result is Ok,
        final(encoded)@ == old(encoded)@ + generic_index_format::row_fields_encoding(row@.values),
        generic_index_format::row_fields_sized(row@.values),
{
    let ghost views = row@.values;
    put_u16_count(encoded, "row_fields", row.values.len(), MAX_GENERIC_INDEX_ROW_FIELDS)?;
    let ghost start = encoded@;
    let mut i: usize = 0;
    assert(views.take(0) =~= Seq::empty());
    assert(start + Seq::<u8>::empty() =~= start);
    while i < row.values.len()
        invariant
            i <= row.values@.len(),
            views == row@.values,
            generic_index_validate::row_fields_check_from(views, i as int) is Ok,
            forall|j: int| 0 <= j < i ==> (#[trigger] views[j]).sized(),
            encoded@ == start + generic_index_format::field_list_encoding(views.take(i as int)),
        decreases row.values@.len() - i,
    {
        assert(views[i as int] == row.values@[i as int]@);
        put_field_values(encoded, &row.values[i])?;
        proof {
            let done = views.take(i as int);
            assert(views.take(i + 1) =~= done.push(views[i as int]));
            field_list_grows(done, views[i as int]);
            bytes::concat_regroups(
                start,
                generic_index_format::field_list_encoding(done),
                views[i as int].encoding(),
            );
        }
        i = i + 1;
    }
    proof {
        assert(views.take(i as int) =~= views);
        bytes::concat_regroups(
            old(encoded)@,
            bytes::be16(views.len() as u16),
            generic_index_format::field_list_encoding(views),
        );
    }
    Ok(())
}

/// Appends a row binding.
fn put_binding(encoded: &mut Vec<u8>, binding: &GenericIndexRowBinding)
    ensures
        final(encoded)@ == old(encoded)@ + binding@.encoding(),
        binding@.sized(),
{
    match binding {
        GenericIndexRowBinding::Directory => bytes::push_u8(encoded, 1),
        GenericIndexRowBinding::Unbound => bytes::push_u8(encoded, 2),
        GenericIndexRowBinding::Artifact(binding) => {
            bytes::push_u8(encoded, 3);
            bytes::push_bytes(encoded, binding.artifact_revision_id.as_bytes().as_slice());
            bytes::push_u64(encoded, binding.path_generation.get());
            proof {
                let revision = binding.artifact_revision_id@;
                let generation = bytes::be64(binding.path_generation@);
                bytes::regroup_4(old(encoded)@, seq![3u8], revision, generation);
                bytes::concat_regroups(seq![3u8], revision, generation);
            }
        },
    }
}

/// Bytes that decoded must be the ones that encode.
pub fn ensure_canonical(original: &[u8], canonical: &[u8]) -> (result: Result<
    (),
    GenericIndexRecordError,
>)
    ensures
        generic_index_validate::checked(result) == generic_index_validate::require(
            original@ == canonical@,
            GenericIndexRecordError::NonCanonicalEncoding,
        ),
{
    if bytes::bytes_equal(original, canonical) {
        Ok(())
    } else {
        Err(GenericIndexRecordError::NonCanonicalEncoding)
    }
}

/// A reader over the bytes of one record.
struct Decoder<'a> {
    encoded: &'a [u8],
    offset: usize,
}

impl<'a> Decoder<'a> {
    /// The offset never passes the end.
    spec fn inv(self) -> bool {
        self.offset <= self.encoded@.len()
    }

    /// The bytes that have not been read.
    spec fn rest(self) -> Seq<u8> {
        self.encoded@.skip(self.offset as int)
    }

    fn new(encoded: &'a [u8]) -> (decoder: Self)
        ensures
            decoder.inv(),
            decoder.rest() == encoded@,
    {
        assert(encoded@.skip(0) =~= encoded@);
        Self { encoded, offset: 0 }
    }

    fn require_version(&mut self) -> (result: Result<u8, GenericIndexRecordError>)
        requires
            old(self).inv(),
        ensures
            final(self).inv(),
            read_plain(
                generic_index_format::parse_format(old(self).rest()),
                result,
                final(self).rest(),
            ),
    {
        let actual: u8 = self.u8("value_format_version")?;
        if actual == GENERIC_INDEX_VALUE_FORMAT_VERSION {
            Ok(actual)
        } else {
            Err(
                GenericIndexRecordError::UnsupportedValueVersion {
                    actual,
                    expected: GENERIC_INDEX_VALUE_FORMAT_VERSION,
                },
            )
        }
    }

    fn take(&mut self, field: &'static str, length: usize) -> (result: Result<
        &'a [u8],
        GenericIndexRecordError,
    >)
        requires
            old(self).inv(),
        ensures
            final(self).inv(),
            read_as(
                generic_index_format::take_field(old(self).rest(), field, length as nat),
                result,
                final(self).rest(),
            ),
            result matches Ok(value) ==> value@.len() == length,
    {
        proof {
            reveal(generic_index_format::take_field);
        }
        let remaining: usize = self.encoded.len() - self.offset;
        if remaining < length {
            return Err(GenericIndexRecordError::Truncated { field, needed: length, remaining });
        }
        let end: usize = self.offset + length;
        let value = vstd::slice::slice_subrange(self.encoded, self.offset, end);
        proof {
            assert(value@ =~= self.rest().take(length as int));
            assert(self.encoded@.skip(end as int) =~= self.rest().skip(length as int));
        }
        self.offset = end;
        Ok(value)
    }

    fn u8(&mut self, field: &'static str) -> (result: Result<u8, GenericIndexRecordError>)
        requires
            old(self).inv(),
        ensures
            final(self).inv(),
            read_plain(
                generic_index_format::parse_u8(old(self).rest(), field),
                result,
                final(self).rest(),
            ),
    {
        Ok(self.take(field, 1)?[0])
    }

    fn u16(&mut self, field: &'static str) -> (result: Result<u16, GenericIndexRecordError>)
        requires
            old(self).inv(),
        ensures
            final(self).inv(),
            read_plain(
                generic_index_format::parse_u16(old(self).rest(), field),
                result,
                final(self).rest(),
            ),
    {
        Ok(bytes::read_u16(self.take(field, 2)?))
    }

    fn u32(&mut self, field: &'static str) -> (result: Result<u32, GenericIndexRecordError>)
        requires
            old(self).inv(),
        ensures
            final(self).inv(),
            read_plain(
                generic_index_format::parse_u32(old(self).rest(), field),
                result,
                final(self).rest(),
            ),
    {
        Ok(bytes::read_u32(self.take(field, 4)?))
    }

    fn u64(&mut self, field: &'static str) -> (result: Result<u64, GenericIndexRecordError>)
        requires
            old(self).inv(),
        ensures
            final(self).inv(),
            read_plain(
                generic_index_format::parse_u64(old(self).rest(), field),
                result,
                final(self).rest(),
            ),
    {
        Ok(bytes::read_u64(self.take(field, 8)?))
    }

    fn fixed<const N: usize>(&mut self, field: &'static str) -> (result: Result<
        [u8; N],
        GenericIndexRecordError,
    >)
        requires
            old(self).inv(),
        ensures
            final(self).inv(),
            read_as(
                generic_index_format::take_field(old(self).rest(), field, N as nat),
                result,
                final(self).rest(),
            ),
    {
        Ok(bytes::array_from::<N>(self.take(field, N)?))
    }

    fn generation(&mut self, field: &'static str) -> (result: Result<
        Generation,
        GenericIndexRecordError,
    >)
        requires
            old(self).inv(),
        ensures
            final(self).inv(),
            read_as(
                generic_index_format::parse_position(old(self).rest(), field),
                result,
                final(self).rest(),
            ),
    {
        match Generation::new(self.u64(field)?) {
            Ok(generation) => Ok(generation),
            Err(_) => Err(GenericIndexRecordError::ZeroScalar { field }),
        }
    }

    fn commit_version(&mut self, field: &'static str) -> (result: Result<
        CommitVersion,
        GenericIndexRecordError,
    >)
        requires
            old(self).inv(),
        ensures
            final(self).inv(),
            read_as(
                generic_index_format::parse_position(old(self).rest(), field),
                result,
                final(self).rest(),
            ),
    {
        match CommitVersion::new(self.u64(field)?) {
            Ok(version) => Ok(version),
            Err(_) => Err(GenericIndexRecordError::ZeroScalar { field }),
        }
    }

    fn read_version(&mut self, field: &'static str) -> (result: Result<
        ReadVersion,
        GenericIndexRecordError,
    >)
        requires
            old(self).inv(),
        ensures
            final(self).inv(),
            read_as(
                generic_index_format::parse_position(old(self).rest(), field),
                result,
                final(self).rest(),
            ),
    {
        match ReadVersion::new(self.u64(field)?) {
            Ok(version) => Ok(version),
            Err(_) => Err(GenericIndexRecordError::ZeroScalar { field }),
        }
    }

    fn bounded_u16_count(&mut self, field: &'static str, max: usize) -> (result: Result<
        u16,
        GenericIndexRecordError,
    >)
        requires
            old(self).inv(),
        ensures
            final(self).inv(),
            read_plain(
                generic_index_format::parse_count(old(self).rest(), field, max),
                result,
                final(self).rest(),
            ),
    {
        let count: u16 = self.u16(field)?;
        if count as usize > max {
            Err(GenericIndexRecordError::CountLimit { field, count: count as usize, max })
        } else {
            Ok(count)
        }
    }

    fn bool(&mut self, field: &'static str) -> (result: Result<bool, GenericIndexRecordError>)
        requires
            old(self).inv(),
        ensures
            final(self).inv(),
            read_plain(
                generic_index_format::parse_bool(old(self).rest(), field),
                result,
                final(self).rest(),
            ),
    {
        let value: u8 = self.u8(field)?;
        if value == 0 {
            Ok(false)
        } else if value == 1 {
            Ok(true)
        } else {
            Err(GenericIndexRecordError::InvalidBoolean { field, value })
        }
    }

    fn short_bytes(&mut self, field: &'static str, max: usize) -> (result: Result<
        &'a [u8],
        GenericIndexRecordError,
    >)
        requires
            old(self).inv(),
        ensures
            final(self).inv(),
            read_as(
                generic_index_format::parse_short_bytes(old(self).rest(), field, max),
                result,
                final(self).rest(),
            ),
    {
        let length: usize = self.u16(field)? as usize;
        if length > max {
            return Err(GenericIndexRecordError::LengthLimit { field, length, max });
        }
        self.take(field, length)
    }

    fn long_bytes(&mut self, field: &'static str, max: usize) -> (result: Result<
        &'a [u8],
        GenericIndexRecordError,
    >)
        requires
            old(self).inv(),
        ensures
            final(self).inv(),
            read_as(
                generic_index_format::parse_long_bytes(old(self).rest(), field, max),
                result,
                final(self).rest(),
            ),
            result matches Ok(value) ==> value@.len() <= max,
    {
        let length: usize = self.u32(field)? as usize;
        if length > max {
            return Err(GenericIndexRecordError::LengthLimit { field, length, max });
        }
        self.take(field, length)
    }

    fn long_text(&mut self, field: &'static str, max: usize) -> (result: Result<
        String,
        GenericIndexRecordError,
    >)
        requires
            old(self).inv(),
        ensures
            final(self).inv(),
            match result {
                Ok(value) => generic_index_format::parse_long_text(old(self).rest(), field, max)
                    == Ok::<(Seq<u8>, Seq<u8>), GenericIndexFailure>(
                    (bytes::utf8(value@), final(self).rest()),
                ),
                Err(e) => generic_index_format::parse_long_text(old(self).rest(), field, max)
                    == Err::<(Seq<u8>, Seq<u8>), GenericIndexFailure>(e.model()),
            },
            result matches Ok(value) ==> bytes::utf8(value@).len() <= max,
    {
        let value = self.long_bytes(field, max)?;
        match bytes::text_from_bytes(value) {
            Some(value) => Ok(value),
            None => Err(GenericIndexRecordError::InvalidUtf8 { field }),
        }
    }

    fn query_field(&mut self) -> (result: Result<QueryFieldId, GenericIndexRecordError>)
        requires
            old(self).inv(),
        ensures
            final(self).inv(),
            read_as(
                generic_index_format::parse_field_id(old(self).rest()),
                result,
                final(self).rest(),
            ),
    {
        let value = self.short_bytes("field_id", MAX_QUERY_FIELD_ID_BYTES)?;
        match bytes::text_from_bytes(value) {
            None => Err(GenericIndexRecordError::InvalidUtf8 { field: "field_id" }),
            Some(name) => match QueryFieldId::new(name.as_str()) {
                Ok(field) => Ok(field),
                Err(error) => Err(
                    GenericIndexRecordError::InvalidField { field: name, reason: error.message() },
                ),
            },
        }
    }

    fn operator(&mut self) -> (result: Result<GenericIndexOperator, GenericIndexRecordError>)
        requires
            old(self).inv(),
        ensures
            final(self).inv(),
            read_plain(
                generic_index_format::parse_operator(old(self).rest()),
                result,
                final(self).rest(),
            ),
    {
        let value: u8 = self.u8("operator")?;
        GenericIndexOperator::try_from(value)
    }

    fn capability(&mut self) -> (result: Result<
        GenericIndexFieldCapability,
        GenericIndexRecordError,
    >)
        requires
            old(self).inv(),
        ensures
            final(self).inv(),
            read_as(
                GenericIndexFieldCapabilityView::parse(old(self).rest()),
                result,
                final(self).rest(),
            ),
    {
        let field = self.query_field()?;
        let count: u8 = self.u8("operator_count")?;
        if count as usize > MAX_GENERIC_INDEX_OPERATORS {
            return Err(
                GenericIndexRecordError::CountLimit {
                    field: "operators",
                    count: count as usize,
                    max: MAX_GENERIC_INDEX_OPERATORS,
                },
            );
        }
        let operators = self.operators(count)?;
        let sortable = self.bool("sortable")?;
        let facetable = self.bool("facetable")?;
        Ok(GenericIndexFieldCapability { field, operators, sortable, facetable })
    }

    fn operators(&mut self, count: u8) -> (result: Result<
        Vec<GenericIndexOperator>,
        GenericIndexRecordError,
    >)
        requires
            old(self).inv(),
        ensures
            final(self).inv(),
            read_as(
                generic_index_format::parse_operators(old(self).rest(), count as nat),
                result,
                final(self).rest(),
            ),
    {
        let ghost parsed = generic_index_format::parse_operators(self.rest(), count as nat);
        let mut operators: Vec<GenericIndexOperator> = Vec::new();
        let mut left: u8 = count;
        proof {
            prepending_nothing(parsed);
        }
        while left > 0
            invariant
                self.inv(),
                left <= count,
                parsed == generic_index_format::parse_operators(old(self).rest(), count as nat),
                parsed == generic_index_format::prepend(
                    operators@,
                    generic_index_format::parse_operators(self.rest(), left as nat),
                ),
            decreases left,
        {
            let ghost rest = self.rest();
            let ghost before = operators@;
            let operator = self.operator()?;
            operators.push(operator);
            left = left - 1;
            proof {
                prepending_twice(
                    before,
                    operator,
                    generic_index_format::parse_operators(self.rest(), left as nat),
                );
            }
        }
        assert(operators@ + Seq::empty() =~= operators@);
        Ok(operators)
    }

    fn capabilities(&mut self) -> (result: Result<
        Vec<GenericIndexFieldCapability>,
        GenericIndexRecordError,
    >)
        requires
            old(self).inv(),
        ensures
            final(self).inv(),
            match result {
                Ok(value) => generic_index_format::parse_capabilities(old(self).rest()) == Ok::<
                    (Seq<GenericIndexFieldCapabilityView>, Seq<u8>),
                    GenericIndexFailure,
                >((generic_index_records::capability_views(value@), final(self).rest())),
                Err(e) => generic_index_format::parse_capabilities(old(self).rest()) == Err::<
                    (Seq<GenericIndexFieldCapabilityView>, Seq<u8>),
                    GenericIndexFailure,
                >(e.model()),
            },
    {
        let count: u16 = self.bounded_u16_count("capabilities", MAX_GENERIC_INDEX_FIELDS)?;
        let ghost parsed = generic_index_format::parse_capability_list(self.rest(), count as nat);
        let mut capabilities: Vec<GenericIndexFieldCapability> = Vec::new();
        let mut left: u16 = count;
        proof {
            prepending_nothing(parsed);
            assert(generic_index_records::capability_views(capabilities@) =~= Seq::empty());
        }
        while left > 0
            invariant
                self.inv(),
                left <= count,
                parsed == generic_index_format::parse_capabilities(old(self).rest()),
                parsed == generic_index_format::prepend(
                    generic_index_records::capability_views(capabilities@),
                    generic_index_format::parse_capability_list(self.rest(), left as nat),
                ),
            decreases left,
        {
            let ghost before = generic_index_records::capability_views(capabilities@);
            let capability = self.capability()?;
            let ghost view = capability@;
            capabilities.push(capability);
            left = left - 1;
            proof {
                assert(generic_index_records::capability_views(capabilities@) =~= before.push(
                    view,
                ));
                prepending_twice(
                    before,
                    view,
                    generic_index_format::parse_capability_list(self.rest(), left as nat),
                );
            }
        }
        proof {
            let views = generic_index_records::capability_views(capabilities@);
            assert(views + Seq::empty() =~= views);
        }
        Ok(capabilities)
    }

    fn generic_scalar(&mut self, field: &QueryFieldId) -> (result: Result<
        QueryScalar,
        GenericIndexRecordError,
    >)
        requires
            old(self).inv(),
        ensures
            final(self).inv(),
            read_as(
                generic_index_format::parse_scalar(old(self).rest()),
                result,
                final(self).rest(),
            ),
    {
        let tag: u8 = self.u8("scalar_type")?;
        let value = if tag == 1 {
            QueryScalar::String(self.long_text("string_scalar", MAX_QUERY_SCALAR_BYTES)?)
        } else if tag == 2 {
            QueryScalar::Unsigned(self.u64("unsigned_scalar")?)
        } else if tag == 3 {
            let bits: u64 = self.u64("float_scalar")?;
            match FiniteFloat::from_bits(bits) {
                Err(_) => {
                    return Err(GenericIndexRecordError::NonFiniteFloat);
                },
                Ok(finite) => {
                    if finite.to_bits() != bits {
                        return Err(GenericIndexRecordError::NonCanonicalFloatZero);
                    }
                    QueryScalar::Float(finite)
                },
            }
        } else {
            return Err(
                GenericIndexRecordError::UnknownDiscriminant {
                    durable_type: "GenericIndexScalar",
                    value: tag,
                },
            );
        };
        generic_index_validate::validate_generic_scalar(field, &value)?;
        Ok(value)
    }

    fn field_values(&mut self) -> (result: Result<
        GenericIndexFieldValues,
        GenericIndexRecordError,
    >)
        requires
            old(self).inv(),
        ensures
            final(self).inv(),
            read_as(
                GenericIndexFieldValuesView::parse(old(self).rest()),
                result,
                final(self).rest(),
            ),
    {
        let field = self.query_field()?;
        let count: u16 = self.bounded_u16_count(
            "field_values",
            MAX_GENERIC_INDEX_VALUES_PER_FIELD,
        )?;
        let ghost from = self.rest();
        let ghost parsed = generic_index_format::parse_scalar_list(from, count as nat);
        let mut values: Vec<QueryScalar> = Vec::new();
        let mut left: u16 = count;
        proof {
            prepending_nothing(parsed);
            assert(generic_index_records::scalar_views(values@) =~= Seq::empty());
        }
        while left > 0
            invariant
                self.inv(),
                left <= count,
                parsed == generic_index_format::parse_scalar_list(from, count as nat),
                parsed == generic_index_format::prepend(
                    generic_index_records::scalar_views(values@),
                    generic_index_format::parse_scalar_list(self.rest(), left as nat),
                ),
                parsed matches Err(e) ==> GenericIndexFieldValuesView::parse(old(self).rest())
                    == Err::<(GenericIndexFieldValuesView, Seq<u8>), GenericIndexFailure>(e),
            decreases left,
        {
            let ghost before = generic_index_records::scalar_views(values@);
            let value = self.generic_scalar(&field)?;
            let ghost view = value@;
            values.push(value);
            left = left - 1;
            proof {
                assert(generic_index_records::scalar_views(values@) =~= before.push(view));
                prepending_twice(
                    before,
                    view,
                    generic_index_format::parse_scalar_list(self.rest(), left as nat),
                );
            }
        }
        proof {
            let views = generic_index_records::scalar_views(values@);
            assert(views + Seq::empty() =~= views);
        }
        Ok(GenericIndexFieldValues { field, values })
    }

    fn row_fields(&mut self) -> (result: Result<
        Vec<GenericIndexFieldValues>,
        GenericIndexRecordError,
    >)
        requires
            old(self).inv(),
        ensures
            final(self).inv(),
            match result {
                Ok(value) => generic_index_format::parse_row_fields(old(self).rest()) == Ok::<
                    (Seq<GenericIndexFieldValuesView>, Seq<u8>),
                    GenericIndexFailure,
                >((generic_index_records::field_value_views(value@), final(self).rest())),
                Err(e) => generic_index_format::parse_row_fields(old(self).rest()) == Err::<
                    (Seq<GenericIndexFieldValuesView>, Seq<u8>),
                    GenericIndexFailure,
                >(e.model()),
            },
    {
        let count: u16 = self.bounded_u16_count("row_fields", MAX_GENERIC_INDEX_ROW_FIELDS)?;
        let ghost parsed = generic_index_format::parse_field_list(self.rest(), count as nat);
        let mut values: Vec<GenericIndexFieldValues> = Vec::new();
        let mut left: u16 = count;
        proof {
            prepending_nothing(parsed);
            assert(generic_index_records::field_value_views(values@) =~= Seq::empty());
        }
        while left > 0
            invariant
                self.inv(),
                left <= count,
                parsed == generic_index_format::parse_row_fields(old(self).rest()),
                parsed == generic_index_format::prepend(
                    generic_index_records::field_value_views(values@),
                    generic_index_format::parse_field_list(self.rest(), left as nat),
                ),
            decreases left,
        {
            let ghost before = generic_index_records::field_value_views(values@);
            let value = self.field_values()?;
            let ghost view = value@;
            values.push(value);
            left = left - 1;
            proof {
                assert(generic_index_records::field_value_views(values@) =~= before.push(view));
                prepending_twice(
                    before,
                    view,
                    generic_index_format::parse_field_list(self.rest(), left as nat),
                );
            }
        }
        proof {
            let views = generic_index_records::field_value_views(values@);
            assert(views + Seq::empty() =~= views);
        }
        Ok(values)
    }

    fn binding(&mut self) -> (result: Result<GenericIndexRowBinding, GenericIndexRecordError>)
        requires
            old(self).inv(),
        ensures
            final(self).inv(),
            read_as(
                GenericIndexRowBindingView::parse(old(self).rest()),
                result,
                final(self).rest(),
            ),
    {
        let tag: u8 = self.u8("row_binding")?;
        if tag == 1 {
            Ok(GenericIndexRowBinding::Directory)
        } else if tag == 2 {
            Ok(GenericIndexRowBinding::Unbound)
        } else if tag == 3 {
            let artifact_revision_id = ArtifactRevisionId::from_bytes(
                self.fixed::<16>("artifact_revision_id")?,
            );
            let path_generation = self.generation("path_generation")?;
            Ok(
                GenericIndexRowBinding::Artifact(
                    GenericIndexArtifactBinding { artifact_revision_id, path_generation },
                ),
            )
        } else {
            Err(
                GenericIndexRecordError::UnknownDiscriminant {
                    durable_type: "GenericIndexRowBinding",
                    value: tag,
                },
            )
        }
    }

    fn optional_path(&mut self) -> (result: Result<
        Option<NormalizedRelativePath>,
        GenericIndexRecordError,
    >)
        requires
            old(self).inv(),
        ensures
            final(self).inv(),
            read_option_as(
                generic_index_format::parse_optional_path(old(self).rest()),
                result,
                final(self).rest(),
            ),
    {
        let tag: u8 = self.u8("path_tag")?;
        if tag == 0 {
            Ok(None)
        } else if tag == 1 {
            let value = self.long_text("relative_path", NormalizedRelativePath::MAX_BYTES)?;
            match NormalizedRelativePath::new(value.as_str()) {
                Ok(path) => Ok(Some(path)),
                Err(error) => Err(GenericIndexRecordError::InvalidPath { reason: error.message() }),
            }
        } else {
            Err(GenericIndexRecordError::InvalidOptionalTag { field: "relative_path", value: tag })
        }
    }

    fn optional_generation(&mut self, field: &'static str) -> (result: Result<
        Option<Generation>,
        GenericIndexRecordError,
    >)
        requires
            old(self).inv(),
        ensures
            final(self).inv(),
            read_option_as(
                generic_index_format::parse_optional_position(old(self).rest(), field),
                result,
                final(self).rest(),
            ),
    {
        let tag: u8 = self.u8(field)?;
        if tag == 0 {
            Ok(None)
        } else if tag == 1 {
            Ok(Some(self.generation(field)?))
        } else {
            Err(GenericIndexRecordError::InvalidOptionalTag { field, value: tag })
        }
    }

    fn optional_commit_version(&mut self, field: &'static str) -> (result: Result<
        Option<CommitVersion>,
        GenericIndexRecordError,
    >)
        requires
            old(self).inv(),
        ensures
            final(self).inv(),
            read_option_as(
                generic_index_format::parse_optional_position(old(self).rest(), field),
                result,
                final(self).rest(),
            ),
    {
        let tag: u8 = self.u8(field)?;
        if tag == 0 {
            Ok(None)
        } else if tag == 1 {
            Ok(Some(self.commit_version(field)?))
        } else {
            Err(GenericIndexRecordError::InvalidOptionalTag { field, value: tag })
        }
    }

    fn optional_string(&mut self, field: &'static str, max: usize) -> (result: Result<
        Option<String>,
        GenericIndexRecordError,
    >)
        requires
            old(self).inv(),
        ensures
            final(self).inv(),
            match result {
                Ok(value) => generic_index_format::parse_optional_text(
                    old(self).rest(),
                    field,
                    max,
                ) == Ok::<(Option<Seq<u8>>, Seq<u8>), GenericIndexFailure>(
                    (generic_index_records::optional_text_view(value), final(self).rest()),
                ),
                Err(e) => generic_index_format::parse_optional_text(old(self).rest(), field, max)
                    == Err::<(Option<Seq<u8>>, Seq<u8>), GenericIndexFailure>(e.model()),
            },
    {
        let tag: u8 = self.u8(field)?;
        if tag == 0 {
            Ok(None)
        } else if tag == 1 {
            Ok(Some(self.long_text(field, max)?))
        } else {
            Err(GenericIndexRecordError::InvalidOptionalTag { field, value: tag })
        }
    }

    fn generation_state(&mut self) -> (result: Result<
        GenericIndexGenerationState,
        GenericIndexRecordError,
    >)
        requires
            old(self).inv(),
        ensures
            final(self).inv(),
            read_plain(
                generic_index_format::parse_generation_state(old(self).rest()),
                result,
                final(self).rest(),
            ),
    {
        match GenericIndexGenerationState::try_from(self.u8("generation_state")?) {
            Ok(state) => Ok(state),
            Err(error) => Err(
                GenericIndexRecordError::UnknownDiscriminant {
                    durable_type: error.durable_type,
                    value: error.value,
                },
            ),
        }
    }

    fn reference_kind(&mut self) -> (result: Result<
        GenericIndexReferenceKind,
        GenericIndexRecordError,
    >)
        requires
            old(self).inv(),
        ensures
            final(self).inv(),
            read_plain(
                generic_index_format::parse_reference_kind(old(self).rest()),
                result,
                final(self).rest(),
            ),
    {
        match GenericIndexReferenceKind::try_from(self.u8("reference_kind")?) {
            Ok(kind) => Ok(kind),
            Err(error) => Err(
                GenericIndexRecordError::UnknownDiscriminant {
                    durable_type: error.durable_type,
                    value: error.value,
                },
            ),
        }
    }

    fn registration_phase(&mut self) -> (result: Result<
        GenericIndexRegistrationPhase,
        GenericIndexRecordError,
    >)
        requires
            old(self).inv(),
        ensures
            final(self).inv(),
            read_plain(
                generic_index_format::parse_registration_phase(old(self).rest()),
                result,
                final(self).rest(),
            ),
    {
        match GenericIndexRegistrationPhase::try_from(self.u8("registration_phase")?) {
            Ok(phase) => Ok(phase),
            Err(error) => Err(
                GenericIndexRecordError::UnknownDiscriminant {
                    durable_type: error.durable_type,
                    value: error.value,
                },
            ),
        }
    }

    fn finish(&self) -> (result: Result<(), GenericIndexRecordError>)
        requires
            self.inv(),
        ensures
            generic_index_validate::checked(result) == generic_index_format::end_check(self.rest()),
    {
        let count: usize = self.encoded.len() - self.offset;
        if count == 0 {
            Ok(())
        } else {
            Err(GenericIndexRecordError::TrailingBytes { count })
        }
    }
}

/// Putting nothing in front changes nothing.
proof fn prepending_nothing<V>(parsed: Parsed<Seq<V>>)
    ensures
        generic_index_format::prepend(Seq::empty(), parsed) == parsed,
{
    if parsed is Ok {
        assert(Seq::empty() + parsed->Ok_0.0 =~= parsed->Ok_0.0);
    }
}

/// Putting one item in front, then others, puts all of them in front.
proof fn prepending_twice<V>(before: Seq<V>, item: V, parsed: Parsed<Seq<V>>)
    ensures
        generic_index_format::prepend(before, generic_index_format::prepend(seq![item], parsed))
            == generic_index_format::prepend(before.push(item), parsed),
{
    if parsed is Ok {
        let items = parsed->Ok_0.0;
        assert(before + (seq![item] + items) =~= before.push(item) + items);
    }
}

impl GenericIndexCurrentRecord {
    /// Durable bytes of this current pointer, if it is valid.
    pub fn encode(&self) -> (result: Result<Vec<u8>, GenericIndexRecordError>)
        ensures
            encoded_as(result, self@.check(), self@.encoding()),
            result is Ok ==> self@.sized(),
    {
        generic_index_validate::validate_row_closure(self.row_count, &self.row_digest)?;
        let mut encoded: Vec<u8> = Vec::new();
        encoded.push(GENERIC_INDEX_VALUE_FORMAT_VERSION);
        assert(encoded@ =~= seq![GENERIC_INDEX_VALUE_FORMAT_VERSION]);
        bytes::push_bytes(&mut encoded, self.generation_id.as_bytes().as_slice());
        bytes::push_u64(&mut encoded, self.pointer_generation.get());
        bytes::push_bytes(&mut encoded, self.capability_digest.as_slice());
        bytes::push_u64(&mut encoded, self.row_count);
        bytes::push_bytes(&mut encoded, self.row_digest.as_slice());
        Ok(encoded)
    }

    /// Decodes one valid current pointer from exactly its durable bytes.
    pub fn decode(encoded: &[u8]) -> (result: Result<Self, GenericIndexRecordError>)
        ensures
            decoded(result) == GenericIndexCurrentRecordView::parse(encoded@),
    {
        let mut decoder = Decoder::new(encoded);
        decoder.require_version()?;
        let generation_id = GenericIndexGenerationId::from_bytes(decoder.fixed::<16>("generation_id")?);
        let pointer_generation = decoder.generation("pointer_generation")?;
        let capability_digest = decoder.fixed::<32>("capability_digest")?;
        let row_count: u64 = decoder.u64("row_count")?;
        let row_digest = decoder.fixed::<32>("row_digest")?;
        decoder.finish()?;
        let record = Self {
            generation_id,
            pointer_generation,
            capability_digest,
            row_count,
            row_digest,
        };
        generic_index_validate::validate_row_closure(record.row_count, &record.row_digest)?;
        proof {
            assert(GenericIndexCurrentRecordView::parse(encoded@) == Ok::<GenericIndexCurrentRecordView, GenericIndexFailure>(record@));
            generic_index_laws::current_is_canonical(encoded@);
        }
        ensure_canonical(encoded, record.encode()?.as_slice())?;
        Ok(record)
    }
}

impl GenericIndexGenerationRecord {
    /// Durable bytes of this generation header, if it is valid.
    pub fn encode(&self) -> (result: Result<Vec<u8>, GenericIndexRecordError>)
        ensures
            encoded_as(result, self@.check(), self@.encoding()),
            result is Ok ==> self@.sized(),
    {
        self.validate()?;
        proof {
            valid_catalog_has_bytes(self@.capabilities, 0);
        }
        let mut encoded: Vec<u8> = Vec::new();
        encoded.push(GENERIC_INDEX_VALUE_FORMAT_VERSION);
        assert(encoded@ =~= seq![GENERIC_INDEX_VALUE_FORMAT_VERSION]);
        put_capabilities(&mut encoded, &self.capabilities)?;
        bytes::push_u64(&mut encoded, self.declared_row_count);
        bytes::push_u64(&mut encoded, self.appended_row_count);
        bytes::push_bytes(&mut encoded, self.rolling_row_digest.as_slice());
        bytes::push_u64(&mut encoded, self.reference_count);
        bytes::push_u64(&mut encoded, self.reference_epoch.get());
        put_optional_commit_version(&mut encoded, &self.last_zero_reference_version);
        bytes::push_u8(&mut encoded, self.state.to_byte());
        Ok(encoded)
    }

    /// Decodes one valid generation header from exactly its durable bytes.
    pub fn decode(encoded: &[u8]) -> (result: Result<Self, GenericIndexRecordError>)
        ensures
            decoded(result) == GenericIndexGenerationRecordView::parse(encoded@),
    {
        let mut decoder = Decoder::new(encoded);
        decoder.require_version()?;
        let capabilities = decoder.capabilities()?;
        let declared_row_count: u64 = decoder.u64("declared_row_count")?;
        let appended_row_count: u64 = decoder.u64("appended_row_count")?;
        let rolling_row_digest = decoder.fixed::<32>("rolling_row_digest")?;
        let reference_count: u64 = decoder.u64("reference_count")?;
        let reference_epoch = ReferenceEpoch::new(decoder.u64("reference_epoch")?);
        let last_zero_reference_version = decoder.optional_commit_version("last_zero_reference_version")?;
        let state = decoder.generation_state()?;
        decoder.finish()?;
        let record = Self {
            capabilities,
            declared_row_count,
            appended_row_count,
            rolling_row_digest,
            reference_count,
            reference_epoch,
            last_zero_reference_version,
            state,
        };
        record.validate()?;
        proof {
            assert(GenericIndexGenerationRecordView::parse(encoded@) == Ok::<GenericIndexGenerationRecordView, GenericIndexFailure>(record@));
            generic_index_laws::generation_is_canonical(encoded@);
        }
        ensure_canonical(encoded, record.encode()?.as_slice())?;
        Ok(record)
    }
}

impl GenericIndexRowRecord {
    /// Durable bytes of this row, if it is valid and small enough.
    pub fn encode(&self) -> (result: Result<Vec<u8>, GenericIndexRecordError>)
        ensures
            encoded_as(result, self@.encode_check(), self@.encoding()),
            result is Ok ==> self@.sized(),
    {
        self.validate()?;
        let mut encoded: Vec<u8> = Vec::new();
        encoded.push(GENERIC_INDEX_VALUE_FORMAT_VERSION);
        assert(encoded@ =~= seq![GENERIC_INDEX_VALUE_FORMAT_VERSION]);
        put_optional_path(&mut encoded, &self.relative_path)?;
        put_binding(&mut encoded, &self.binding);
        put_row_fields(&mut encoded, self)?;
        if encoded.len() > MAX_GENERIC_INDEX_ROW_BYTES {
            return Err(
                GenericIndexRecordError::LengthLimit {
                    field: "generic_index_row",
                    length: encoded.len(),
                    max: MAX_GENERIC_INDEX_ROW_BYTES,
                },
            );
        }
        Ok(encoded)
    }

    /// Decodes one valid row from exactly its durable bytes.
    pub fn decode(encoded: &[u8]) -> (result: Result<Self, GenericIndexRecordError>)
        ensures
            decoded(result) == GenericIndexRowRecordView::parse(encoded@),
    {
        if encoded.len() > MAX_GENERIC_INDEX_ROW_BYTES {
            return Err(
                GenericIndexRecordError::LengthLimit {
                    field: "generic_index_row",
                    length: encoded.len(),
                    max: MAX_GENERIC_INDEX_ROW_BYTES,
                },
            );
        }
        let mut decoder = Decoder::new(encoded);
        decoder.require_version()?;
        let relative_path = decoder.optional_path()?;
        let binding = decoder.binding()?;
        let values = decoder.row_fields()?;
        decoder.finish()?;
        let record = Self {
            relative_path,
            binding,
            values,
        };
        record.validate()?;
        proof {
            assert(GenericIndexRowRecordView::parse(encoded@) == Ok::<GenericIndexRowRecordView, GenericIndexFailure>(record@));
            generic_index_laws::row_is_canonical(encoded@);
        }
        ensure_canonical(encoded, record.encode()?.as_slice())?;
        Ok(record)
    }
}

impl GenericIndexGenerationRefRecord {
    /// Durable bytes of this generation reference, if it is valid.
    pub fn encode(&self) -> (result: Result<Vec<u8>, GenericIndexRecordError>)
        ensures
            encoded_as(result, self@.check(), self@.encoding()),
            result is Ok ==> self@.sized(),
    {
        self.validate()?;
        let mut encoded: Vec<u8> = Vec::new();
        encoded.push(GENERIC_INDEX_VALUE_FORMAT_VERSION);
        assert(encoded@ =~= seq![GENERIC_INDEX_VALUE_FORMAT_VERSION]);
        bytes::push_u8(&mut encoded, self.kind.to_byte());
        bytes::push_bytes(&mut encoded, self.owner_digest.as_slice());
        bytes::push_u64(&mut encoded, self.reference_epoch_at_add.get());
        Ok(encoded)
    }

    /// Decodes one valid generation reference from exactly its durable bytes.
    pub fn decode(encoded: &[u8]) -> (result: Result<Self, GenericIndexRecordError>)
        ensures
            decoded(result) == GenericIndexGenerationRefRecordView::parse(encoded@),
    {
        let mut decoder = Decoder::new(encoded);
        decoder.require_version()?;
        let kind = decoder.reference_kind()?;
        let owner_digest = decoder.fixed::<32>("owner_digest")?;
        let reference_epoch_at_add = ReferenceEpoch::new(decoder.u64("reference_epoch_at_add")?);
        decoder.finish()?;
        let record = Self {
            kind,
            owner_digest,
            reference_epoch_at_add,
        };
        record.validate()?;
        proof {
            assert(GenericIndexGenerationRefRecordView::parse(encoded@) == Ok::<GenericIndexGenerationRefRecordView, GenericIndexFailure>(record@));
            generic_index_laws::reference_is_canonical(encoded@);
        }
        ensure_canonical(encoded, record.encode()?.as_slice())?;
        Ok(record)
    }
}

impl GenericIndexAppendReceiptRecord {
    /// Durable bytes of this append receipt, if it is valid.
    pub fn encode(&self) -> (result: Result<Vec<u8>, GenericIndexRecordError>)
        ensures
            encoded_as(result, self@.check(), self@.encoding()),
            result is Ok ==> self@.sized(),
    {
        self.validate()?;
        let mut encoded: Vec<u8> = Vec::new();
        encoded.push(GENERIC_INDEX_VALUE_FORMAT_VERSION);
        assert(encoded@ =~= seq![GENERIC_INDEX_VALUE_FORMAT_VERSION]);
        bytes::push_u64(&mut encoded, self.first_sequence);
        bytes::push_u32(&mut encoded, self.row_count);
        bytes::push_u64(&mut encoded, self.commit_version.get());
        bytes::push_bytes(&mut encoded, self.input_digest.as_slice());
        bytes::push_u64(&mut encoded, self.resulting_row_count);
        bytes::push_bytes(&mut encoded, self.resulting_row_digest.as_slice());
        Ok(encoded)
    }

    /// Decodes one valid append receipt from exactly its durable bytes.
    pub fn decode(encoded: &[u8]) -> (result: Result<Self, GenericIndexRecordError>)
        ensures
            decoded(result) == GenericIndexAppendReceiptRecordView::parse(encoded@),
    {
        let mut decoder = Decoder::new(encoded);
        decoder.require_version()?;
        let first_sequence: u64 = decoder.u64("first_sequence")?;
        let row_count: u32 = decoder.u32("row_count")?;
        let commit_version = decoder.commit_version("commit_version")?;
        let input_digest = decoder.fixed::<32>("input_digest")?;
        let resulting_row_count: u64 = decoder.u64("resulting_row_count")?;
        let resulting_row_digest = decoder.fixed::<32>("resulting_row_digest")?;
        decoder.finish()?;
        let record = Self {
            first_sequence,
            row_count,
            commit_version,
            input_digest,
            resulting_row_count,
            resulting_row_digest,
        };
        record.validate()?;
        proof {
            assert(GenericIndexAppendReceiptRecordView::parse(encoded@) == Ok::<GenericIndexAppendReceiptRecordView, GenericIndexFailure>(record@));
            generic_index_laws::receipt_is_canonical(encoded@);
        }
        ensure_canonical(encoded, record.encode()?.as_slice())?;
        Ok(record)
    }
}

impl GenericIndexRegistrationOperationRecord {
    /// Durable bytes of this registration, if it is valid.
    pub fn encode(&self) -> (result: Result<Vec<u8>, GenericIndexRecordError>)
        ensures
            encoded_as(result, self@.check(), self@.encoding()),
            result is Ok ==> self@.sized(),
    {
        self.validate()?;
        let mut encoded: Vec<u8> = Vec::new();
        encoded.push(GENERIC_INDEX_VALUE_FORMAT_VERSION);
        assert(encoded@ =~= seq![GENERIC_INDEX_VALUE_FORMAT_VERSION]);
        bytes::push_bytes(&mut encoded, self.workspace_incarnation_id.as_bytes().as_slice());
        put_optional_path(&mut encoded, &self.index_path)?;
        bytes::push_bytes(&mut encoded, self.generation_id.as_bytes().as_slice());
        bytes::push_bytes(&mut encoded, self.request_digest.as_bytes().as_slice());
        bytes::push_u64(&mut encoded, self.source_read_version.get());
        bytes::push_u64(&mut encoded, self.last_transition_version.get());
        put_optional_generation(&mut encoded, &self.expected_current_generation);
        bytes::push_bytes(&mut encoded, self.capability_digest.as_slice());
        bytes::push_u64(&mut encoded, self.declared_row_count);
        bytes::push_u64(&mut encoded, self.appended_row_count);
        bytes::push_bytes(&mut encoded, self.rolling_row_digest.as_slice());
        bytes::push_u8(&mut encoded, self.phase.to_byte());
        put_optional_generation(&mut encoded, &self.published_pointer_generation);
        put_optional_string(
            &mut encoded,
            "terminal_error",
            &self.terminal_error,
            MAX_GENERIC_INDEX_TERMINAL_ERROR_BYTES,
        )?;
        Ok(encoded)
    }

    /// Decodes one valid registration from exactly its durable bytes.
    pub fn decode(encoded: &[u8]) -> (result: Result<Self, GenericIndexRecordError>)
        ensures
            decoded(result) == GenericIndexRegistrationOperationRecordView::parse(encoded@),
    {
        let mut decoder = Decoder::new(encoded);
        decoder.require_version()?;
        let workspace_incarnation_id = WorkspaceIncarnationId::from_bytes(decoder.fixed::<16>("workspace_incarnation_id")?);
        let index_path = decoder.optional_path()?;
        let generation_id = GenericIndexGenerationId::from_bytes(decoder.fixed::<16>("generation_id")?);
        let request_digest = CommandDigest::from_bytes(decoder.fixed::<32>("request_digest")?);
        let source_read_version = decoder.read_version("source_read_version")?;
        let last_transition_version = decoder.commit_version("last_transition_version")?;
        let expected_current_generation = decoder.optional_generation("expected_current_generation")?;
        let capability_digest = decoder.fixed::<32>("capability_digest")?;
        let declared_row_count: u64 = decoder.u64("declared_row_count")?;
        let appended_row_count: u64 = decoder.u64("appended_row_count")?;
        let rolling_row_digest = decoder.fixed::<32>("rolling_row_digest")?;
        let phase = decoder.registration_phase()?;
        let published_pointer_generation = decoder.optional_generation("published_pointer_generation")?;
        let terminal_error = decoder.optional_string("terminal_error", MAX_GENERIC_INDEX_TERMINAL_ERROR_BYTES)?;
        decoder.finish()?;
        let record = Self {
            workspace_incarnation_id,
            index_path,
            generation_id,
            request_digest,
            source_read_version,
            last_transition_version,
            expected_current_generation,
            capability_digest,
            declared_row_count,
            appended_row_count,
            rolling_row_digest,
            phase,
            published_pointer_generation,
            terminal_error,
        };
        record.validate()?;
        proof {
            assert(GenericIndexRegistrationOperationRecordView::parse(encoded@) == Ok::<GenericIndexRegistrationOperationRecordView, GenericIndexFailure>(record@));
            generic_index_laws::registration_is_canonical(encoded@);
        }
        ensure_canonical(encoded, record.encode()?.as_slice())?;
        Ok(record)
    }
}

impl CommitGenericIndexMemberRecord {
    /// Durable bytes of this commit member, if it is valid.
    pub fn encode(&self) -> (result: Result<Vec<u8>, GenericIndexRecordError>)
        ensures
            encoded_as(result, self@.check(), self@.encoding()),
            result is Ok ==> self@.sized(),
    {
        generic_index_validate::validate_row_closure(self.row_count, &self.row_digest)?;
        let mut encoded: Vec<u8> = Vec::new();
        encoded.push(GENERIC_INDEX_VALUE_FORMAT_VERSION);
        assert(encoded@ =~= seq![GENERIC_INDEX_VALUE_FORMAT_VERSION]);
        bytes::push_bytes(&mut encoded, self.generation_id.as_bytes().as_slice());
        bytes::push_bytes(&mut encoded, self.capability_digest.as_slice());
        bytes::push_u64(&mut encoded, self.row_count);
        bytes::push_bytes(&mut encoded, self.row_digest.as_slice());
        Ok(encoded)
    }

    /// Decodes one valid commit member from exactly its durable bytes.
    pub fn decode(encoded: &[u8]) -> (result: Result<Self, GenericIndexRecordError>)
        ensures
            decoded(result) == CommitGenericIndexMemberRecordView::parse(encoded@),
    {
        let mut decoder = Decoder::new(encoded);
        decoder.require_version()?;
        let generation_id = GenericIndexGenerationId::from_bytes(decoder.fixed::<16>("generation_id")?);
        let capability_digest = decoder.fixed::<32>("capability_digest")?;
        let row_count: u64 = decoder.u64("row_count")?;
        let row_digest = decoder.fixed::<32>("row_digest")?;
        decoder.finish()?;
        let record = Self {
            generation_id,
            capability_digest,
            row_count,
            row_digest,
        };
        generic_index_validate::validate_row_closure(record.row_count, &record.row_digest)?;
        proof {
            assert(CommitGenericIndexMemberRecordView::parse(encoded@) == Ok::<CommitGenericIndexMemberRecordView, GenericIndexFailure>(record@));
            generic_index_laws::member_is_canonical(encoded@);
        }
        ensure_canonical(encoded, record.encode()?.as_slice())?;
        Ok(record)
    }
}

} // verus!
