//! Digests that seal Generic index catalogs, rows, and owners.
//!
//! Each digest is the SHA-256 of a message that starts with its framed domain,
//! so that messages of different kinds never coincide.

use vstd::prelude::*;

use crate::bytes;
use crate::digest;
use crate::generic_index_codec;
use crate::generic_index_format;
use crate::generic_index_laws;
use crate::generic_index_records;
use crate::generic_index_records::{
    CommitGenericIndexMemberRecord, CommitGenericIndexMemberRecordView, GenericIndexFailure,
    GenericIndexFieldCapability, GenericIndexFieldCapabilityView, GenericIndexGenerationRecord,
    GenericIndexGenerationRecordView, GenericIndexRecordError, GenericIndexRowRecord,
    GenericIndexRowRecordView, GENERIC_INDEX_VALUE_FORMAT_VERSION, MAX_GENERIC_INDEX_APPEND_ROWS,
};
use crate::generic_index_validate;
use crate::ids::{CommitId, OperationId, WorkspaceIncarnationId};
use crate::names::NormalizedRelativePath;
use crate::publish_validate;
use crate::states::GenericIndexGenerationState;

verus! {

/// The framed domain that a message starts with.
pub open spec fn domain(name: &str) -> Seq<u8> {
    digest::framed(bytes::utf8(name@))
}

/// The result of a digest: the digest of the message when the check passes,
/// and otherwise the failure that the check names.
pub open spec fn digested_as(
    result: Result<[u8; 32], GenericIndexRecordError>,
    check: Result<(), GenericIndexFailure>,
    message: Seq<u8>,
) -> bool {
    match check {
        Ok(()) => result matches Ok(out) && out@ == digest::sha256(message),
        Err(failure) => result matches Err(e) && e.model() == failure,
    }
}

/// Message of a catalog.
pub open spec fn capability_message(capabilities: Seq<GenericIndexFieldCapabilityView>) -> Seq<u8> {
    domain("nokv/generic-index/capabilities/v1") + digest::framed(
        generic_index_format::capabilities_encoding(capabilities),
    )
}

/// Builds the message of a valid catalog.
pub fn build_capability_message(capabilities: &Vec<GenericIndexFieldCapability>) -> (result: Result<
    Vec<u8>,
    GenericIndexRecordError,
>)
    ensures
        generic_index_codec::encoded_as(
            result,
            generic_index_validate::capabilities_check(
                generic_index_records::capability_views(capabilities@),
            ),
            capability_message(generic_index_records::capability_views(capabilities@)),
        ),
{
    generic_index_validate::validate_capabilities(capabilities)?;
    proof {
        generic_index_codec::valid_catalog_has_bytes(
            generic_index_records::capability_views(capabilities@),
            0,
        );
    }
    let mut encoded: Vec<u8> = Vec::new();
    generic_index_codec::put_capabilities(&mut encoded, capabilities)?;
    proof {
        let encoding = generic_index_format::capabilities_encoding(
            generic_index_records::capability_views(capabilities@),
        );
        assert(Seq::<u8>::empty() + encoding =~= encoding);
    }
    let mut message = digest::domain_message("nokv/generic-index/capabilities/v1");
    digest::push_framed(&mut message, encoded.as_slice());
    Ok(message)
}

/// Digests the exact ordered field capability list.
pub fn generic_index_capability_digest(capabilities: &Vec<GenericIndexFieldCapability>) -> (result:
    Result<[u8; 32], GenericIndexRecordError>)
    ensures
        digested_as(
            result,
            generic_index_validate::capabilities_check(
                generic_index_records::capability_views(capabilities@),
            ),
            capability_message(generic_index_records::capability_views(capabilities@)),
        ),
{
    let message = build_capability_message(capabilities)?;
    Ok(digest::digest(message.as_slice()))
}

/// Message of a row at its sequence position.
pub open spec fn row_message(sequence: u64, row: GenericIndexRowRecordView) -> Seq<u8> {
    domain("nokv/generic-index/row/v1") + bytes::be64(sequence) + digest::framed(row.encoding())
}

/// Builds the message of a row at its sequence position.
pub fn build_row_message(sequence: u64, row: &GenericIndexRowRecord) -> (result: Result<
    Vec<u8>,
    GenericIndexRecordError,
>)
    ensures
        generic_index_codec::encoded_as(
            result,
            row@.encode_check(),
            row_message(sequence, row@),
        ),
{
    let encoded = row.encode()?;
    let mut message = digest::domain_message("nokv/generic-index/row/v1");
    bytes::push_u64(&mut message, sequence);
    digest::push_framed(&mut message, encoded.as_slice());
    Ok(message)
}

/// Digests one row together with its immutable sequence position.
pub fn generic_index_row_digest(sequence: u64, row: &GenericIndexRowRecord) -> (result: Result<
    [u8; 32],
    GenericIndexRecordError,
>)
    ensures
        digested_as(result, row@.encode_check(), row_message(sequence, row@)),
{
    let message = build_row_message(sequence, row)?;
    Ok(digest::digest(message.as_slice()))
}

/// Message that advances a chain by one digest.
pub open spec fn chain_message(name: &str, previous: Seq<u8>, next: Seq<u8>) -> Seq<u8> {
    domain(name) + previous + next
}

/// Advances the canonical ordered row closure by one row digest.
pub fn advance_generic_index_row_rolling_digest(previous: [u8; 32], row_digest: [u8; 32]) -> (next:
    [u8; 32])
    ensures
        next@ == digest::sha256(
            chain_message("nokv/generic-index/row-chain/v1", previous@, row_digest@),
        ),
{
    let mut message = digest::domain_message("nokv/generic-index/row-chain/v1");
    bytes::push_bytes(&mut message, previous.as_slice());
    bytes::push_bytes(&mut message, row_digest.as_slice());
    digest::digest(message.as_slice())
}

/// Advances the immutable commit Generic-index member closure.
pub fn advance_commit_generic_index_member_rolling_digest(
    previous: [u8; 32],
    member_digest: [u8; 32],
) -> (next: [u8; 32])
    ensures
        next@ == digest::sha256(
            chain_message("nokv/commit-generic-index-chain/v1", previous@, member_digest@),
        ),
{
    let mut message = digest::domain_message("nokv/commit-generic-index-chain/v1");
    bytes::push_bytes(&mut message, previous.as_slice());
    bytes::push_bytes(&mut message, member_digest.as_slice());
    digest::digest(message.as_slice())
}

/// Contents of a list of rows.
pub open spec fn row_views(rows: Seq<GenericIndexRowRecord>) -> Seq<GenericIndexRowRecordView> {
    Seq::new(rows.len(), |i: int| rows[i]@)
}

/// An append batch has between one and the maximum of rows, and its sequence
/// positions exist.
pub open spec fn append_range_check(first_sequence: u64, row_count: nat) -> Result<
    (),
    GenericIndexFailure,
> {
    if row_count == 0 {
        Err(GenericIndexRecordError::ZeroScalar { field: "row_count" })
    } else if row_count > MAX_GENERIC_INDEX_APPEND_ROWS {
        Err(
            GenericIndexRecordError::CountLimit {
                field: "row_count",
                count: row_count as usize,
                max: MAX_GENERIC_INDEX_APPEND_ROWS as usize,
            },
        )
    } else {
        generic_index_validate::require(
            first_sequence + row_count <= u64::MAX,
            GenericIndexRecordError::RangeOverflow { field: "append_sequence" },
        )
    }
}

/// Checks the range of an append batch.
fn validate_append_range(first_sequence: u64, row_count: usize) -> (result: Result<
    (),
    GenericIndexRecordError,
>)
    ensures
        generic_index_validate::checked(result) == append_range_check(
            first_sequence,
            row_count as nat,
        ),
{
    if row_count == 0 {
        return Err(GenericIndexRecordError::ZeroScalar { field: "row_count" });
    }
    if row_count > MAX_GENERIC_INDEX_APPEND_ROWS as usize {
        return Err(
            GenericIndexRecordError::CountLimit {
                field: "row_count",
                count: row_count,
                max: MAX_GENERIC_INDEX_APPEND_ROWS as usize,
            },
        );
    }
    if first_sequence.checked_add(row_count as u64).is_none() {
        return Err(GenericIndexRecordError::RangeOverflow { field: "append_sequence" });
    }
    Ok(())
}

/// Rows from index `i` on can all be encoded.
pub open spec fn rows_encode_check(rows: Seq<GenericIndexRowRecordView>, i: int) -> Result<
    (),
    GenericIndexFailure,
>
    decreases rows.len() - i,
{
    if i >= rows.len() {
        Ok(())
    } else {
        generic_index_validate::and_also(rows[i].encode_check(), rows_encode_check(rows, i + 1))
    }
}

/// Digests of consecutive rows, one behind the other.
pub open spec fn row_digests(first_sequence: u64, rows: Seq<GenericIndexRowRecordView>) -> Seq<u8>
    decreases rows.len(),
{
    if rows.len() == 0 {
        Seq::empty()
    } else {
        let last = rows.len() - 1;
        row_digests(first_sequence, rows.drop_last()) + digest::sha256(
            row_message((first_sequence + last) as u64, rows.last()),
        )
    }
}

/// Message of an append batch.
pub open spec fn append_batch_message(
    first_sequence: u64,
    rows: Seq<GenericIndexRowRecordView>,
) -> Seq<u8> {
    domain("nokv/generic-index/append-batch/v1") + bytes::be64(first_sequence) + bytes::be64(
        rows.len() as u64,
    ) + row_digests(first_sequence, rows)
}

/// Why an append batch has no digest, if it has none.
pub open spec fn append_batch_check(
    first_sequence: u64,
    rows: Seq<GenericIndexRowRecordView>,
) -> Result<(), GenericIndexFailure> {
    generic_index_validate::and_also(
        append_range_check(first_sequence, rows.len()),
        rows_encode_check(rows, 0),
    )
}

/// Builds the message of an append batch.
pub fn build_append_batch_message(first_sequence: u64, rows: &Vec<GenericIndexRowRecord>) -> (result:
    Result<Vec<u8>, GenericIndexRecordError>)
    ensures
        generic_index_codec::encoded_as(
            result,
            append_batch_check(first_sequence, row_views(rows@)),
            append_batch_message(first_sequence, row_views(rows@)),
        ),
{
    let ghost views = row_views(rows@);
    validate_append_range(first_sequence, rows.len())?;
    let mut message = digest::domain_message("nokv/generic-index/append-batch/v1");
    bytes::push_u64(&mut message, first_sequence);
    bytes::push_u64(&mut message, rows.len() as u64);
    let ghost start = message@;
    let mut offset: usize = 0;
    assert(views.take(0) =~= Seq::empty());
    assert(start + Seq::<u8>::empty() =~= start);
    while offset < rows.len()
        invariant
            offset <= rows@.len(),
            views == row_views(rows@),
            first_sequence + rows@.len() <= u64::MAX,
            append_batch_check(first_sequence, views) == rows_encode_check(views, offset as int),
            message@ == start + row_digests(first_sequence, views.take(offset as int)),
        decreases rows@.len() - offset,
    {
        assert(views[offset as int] == rows@[offset as int]@);
        let row_digest = generic_index_row_digest(first_sequence + offset as u64, &rows[offset])?;
        let ghost done = views.take(offset as int);
        bytes::push_bytes(&mut message, row_digest.as_slice());
        proof {
            let longer = views.take(offset + 1);
            assert(longer.drop_last() =~= done);
            assert(longer.last() == views[offset as int]);
            bytes::concat_regroups(start, row_digests(first_sequence, done), row_digest@);
        }
        offset = offset + 1;
    }
    assert(views.take(offset as int) =~= views);
    Ok(message)
}

/// Digests an exact append batch for durable response-loss replay.
pub fn generic_index_append_batch_digest(
    first_sequence: u64,
    rows: &Vec<GenericIndexRowRecord>,
) -> (result: Result<[u8; 32], GenericIndexRecordError>)
    ensures
        digested_as(
            result,
            append_batch_check(first_sequence, row_views(rows@)),
            append_batch_message(first_sequence, row_views(rows@)),
        ),
{
    let message = build_append_batch_message(first_sequence, rows)?;
    Ok(digest::digest(message.as_slice()))
}

/// Rows from index `i` on are all valid.
pub open spec fn rows_check(rows: Seq<GenericIndexRowRecordView>, i: int) -> Result<
    (),
    GenericIndexFailure,
>
    decreases rows.len() - i,
{
    if i >= rows.len() {
        Ok(())
    } else {
        generic_index_validate::and_also(rows[i].check(), rows_check(rows, i + 1))
    }
}

/// Bytes of what the caller gave for a row: its path and its ordered values,
/// without the binding.
pub open spec fn row_input(row: GenericIndexRowRecordView) -> Seq<u8> {
    seq![GENERIC_INDEX_VALUE_FORMAT_VERSION] + generic_index_format::optional_text(
        row.relative_path,
    ) + generic_index_format::row_fields_encoding(row.values)
}

/// Framed inputs of rows, one behind the other.
pub open spec fn row_inputs(rows: Seq<GenericIndexRowRecordView>) -> Seq<u8>
    decreases rows.len(),
{
    if rows.len() == 0 {
        Seq::empty()
    } else {
        row_inputs(rows.drop_last()) + digest::framed(row_input(rows.last()))
    }
}

/// Message of the input of an append.
pub open spec fn append_input_message(
    first_sequence: u64,
    rows: Seq<GenericIndexRowRecordView>,
) -> Seq<u8> {
    domain("nokv/generic-index/append-input/v1") + bytes::be64(first_sequence) + bytes::be64(
        rows.len() as u64,
    ) + row_inputs(rows)
}

/// Why the input of an append has no digest, if it has none.
pub open spec fn append_input_check(
    first_sequence: u64,
    rows: Seq<GenericIndexRowRecordView>,
) -> Result<(), GenericIndexFailure> {
    generic_index_validate::and_also(
        append_range_check(first_sequence, rows.len()),
        rows_check(rows, 0),
    )
}

/// Builds the message of the input of an append.
pub fn build_append_input_message(first_sequence: u64, rows: &Vec<GenericIndexRowRecord>) -> (result:
    Result<Vec<u8>, GenericIndexRecordError>)
    ensures
        generic_index_codec::encoded_as(
            result,
            append_input_check(first_sequence, row_views(rows@)),
            append_input_message(first_sequence, row_views(rows@)),
        ),
{
    let ghost views = row_views(rows@);
    validate_append_range(first_sequence, rows.len())?;
    let mut message = digest::domain_message("nokv/generic-index/append-input/v1");
    bytes::push_u64(&mut message, first_sequence);
    bytes::push_u64(&mut message, rows.len() as u64);
    let ghost start = message@;
    let mut i: usize = 0;
    assert(views.take(0) =~= Seq::empty());
    assert(start + Seq::<u8>::empty() =~= start);
    while i < rows.len()
        invariant
            i <= rows@.len(),
            views == row_views(rows@),
            append_input_check(first_sequence, views) == rows_check(views, i as int),
            message@ == start + row_inputs(views.take(i as int)),
        decreases rows@.len() - i,
    {
        assert(views[i as int] == rows@[i as int]@);
        let row = &rows[i];
        row.validate()?;
        let mut encoded: Vec<u8> = Vec::new();
        encoded.push(GENERIC_INDEX_VALUE_FORMAT_VERSION);
        assert(encoded@ =~= seq![GENERIC_INDEX_VALUE_FORMAT_VERSION]);
        generic_index_codec::put_optional_path(&mut encoded, &row.relative_path)?;
        generic_index_codec::put_row_fields(&mut encoded, row)?;
        let ghost done = views.take(i as int);
        digest::push_framed(&mut message, encoded.as_slice());
        proof {
            let longer = views.take(i + 1);
            assert(longer.drop_last() =~= done);
            assert(longer.last() == views[i as int]);
            bytes::concat_regroups(start, row_inputs(done), digest::framed(encoded@));
        }
        i = i + 1;
    }
    assert(views.take(i as int) =~= views);
    Ok(message)
}

/// Digests the exact caller-visible append input for durable response-loss
/// replay. Artifact revision and path-generation fences are not part of it:
/// those are derived from the frozen source and sealed by the resulting row
/// digest, while this digest must remain verifiable after row cleanup.
pub fn generic_index_append_input_digest(
    first_sequence: u64,
    rows: &Vec<GenericIndexRowRecord>,
) -> (result: Result<[u8; 32], GenericIndexRecordError>)
    ensures
        digested_as(
            result,
            append_input_check(first_sequence, row_views(rows@)),
            append_input_message(first_sequence, row_views(rows@)),
        ),
{
    let message = build_append_input_message(first_sequence, rows)?;
    Ok(digest::digest(message.as_slice()))
}

/// Failure of a seal.
pub open spec fn seal_failure(reason: &'static str) -> GenericIndexFailure {
    GenericIndexRecordError::InvalidSeal { reason }
}

/// A generation header is valid and sealed to the advertised closure, where
/// `capability_digest` is the digest of its own catalog.
pub open spec fn seal_check(
    generation: GenericIndexGenerationRecordView,
    capability_digest: Seq<u8>,
    expected_capability_digest: Seq<u8>,
    expected_row_count: u64,
    expected_row_digest: Seq<u8>,
) -> Result<(), GenericIndexFailure> {
    if generation.check() is Err {
        generation.check()
    } else if generation.state != GenericIndexGenerationState::Sealed {
        Err(seal_failure("generation is not sealed"))
    } else if capability_digest != expected_capability_digest {
        Err(seal_failure("capability digest does not match"))
    } else if generation.appended_row_count != expected_row_count || generation.rolling_row_digest
        != expected_row_digest {
        Err(seal_failure("row closure does not match"))
    } else {
        Ok(())
    }
}

/// Checks a generation header against the advertised closure, given the
/// digest of its own catalog.
pub fn check_generation_seal(
    generation: &GenericIndexGenerationRecord,
    capability_digest: [u8; 32],
    expected_capability_digest: [u8; 32],
    expected_row_count: u64,
    expected_row_digest: [u8; 32],
) -> (result: Result<(), GenericIndexRecordError>)
    ensures
        generic_index_validate::checked(result) == seal_check(
            generation@,
            capability_digest@,
            expected_capability_digest@,
            expected_row_count,
            expected_row_digest@,
        ),
{
    generation.validate()?;
    if generation.state != GenericIndexGenerationState::Sealed {
        return Err(GenericIndexRecordError::InvalidSeal { reason: "generation is not sealed" });
    }
    if !publish_validate::same_digest(&capability_digest, &expected_capability_digest) {
        return Err(
            GenericIndexRecordError::InvalidSeal { reason: "capability digest does not match" },
        );
    }
    if generation.appended_row_count != expected_row_count || !publish_validate::same_digest(
        &generation.rolling_row_digest,
        &expected_row_digest,
    ) {
        return Err(GenericIndexRecordError::InvalidSeal { reason: "row closure does not match" });
    }
    Ok(())
}

/// Verifies that a generation header is sealed to the exact advertised
/// closure.
pub fn verify_generic_index_generation_seal(
    generation: &GenericIndexGenerationRecord,
    expected_capability_digest: [u8; 32],
    expected_row_count: u64,
    expected_row_digest: [u8; 32],
) -> (result: Result<(), GenericIndexRecordError>)
    ensures
        generic_index_validate::checked(result) == seal_check(
            generation@,
            digest::sha256(capability_message(generation@.capabilities)),
            expected_capability_digest@,
            expected_row_count,
            expected_row_digest@,
        ),
{
    let capability_digest = generic_index_capability_digest(&generation.capabilities)?;
    check_generation_seal(
        generation,
        capability_digest,
        expected_capability_digest,
        expected_row_count,
        expected_row_digest,
    )
}

/// Bytes of an optional index scope.
pub open spec fn scope_bytes(index_path: Option<Seq<u8>>) -> Seq<u8> {
    match index_path {
        None => seq![0u8],
        Some(path) => seq![1u8] + digest::framed(path),
    }
}

/// Appends an optional index scope.
fn push_scope(message: &mut Vec<u8>, index_path: Option<&NormalizedRelativePath>)
    ensures
        final(message)@ == old(message)@ + scope_bytes(bytes::option_view(index_path)),
{
    match index_path {
        None => bytes::push_u8(message, 0),
        Some(path) => {
            bytes::push_u8(message, 1);
            digest::push_framed(message, path.as_bytes());
            proof {
                bytes::concat_regroups(old(message)@, seq![1u8], digest::framed(path@));
            }
        },
    }
}

/// Message of a commit member under its index scope.
pub open spec fn member_message(
    index_path: Option<Seq<u8>>,
    member: CommitGenericIndexMemberRecordView,
) -> Seq<u8> {
    domain("nokv/commit-generic-index-member/v1") + scope_bytes(index_path) + digest::framed(
        member.encoding(),
    )
}

/// Builds the message of a commit member under its index scope.
pub fn build_member_message(
    index_path: Option<&NormalizedRelativePath>,
    member: &CommitGenericIndexMemberRecord,
) -> (result: Result<Vec<u8>, GenericIndexRecordError>)
    ensures
        generic_index_codec::encoded_as(
            result,
            member@.check(),
            member_message(bytes::option_view(index_path), member@),
        ),
{
    let encoded = member.encode()?;
    let mut message = digest::domain_message("nokv/commit-generic-index-member/v1");
    push_scope(&mut message, index_path);
    digest::push_framed(&mut message, encoded.as_slice());
    Ok(message)
}

/// Digests a commit member using its workspace-relative index scope.
pub fn commit_generic_index_member_row_digest(
    index_path: Option<&NormalizedRelativePath>,
    member: &CommitGenericIndexMemberRecord,
) -> (result: Result<[u8; 32], GenericIndexRecordError>)
    ensures
        digested_as(
            result,
            member@.check(),
            member_message(bytes::option_view(index_path), member@),
        ),
{
    let message = build_member_message(index_path, member)?;
    Ok(digest::digest(message.as_slice()))
}

/// Message of the owner of a current pointer.
pub open spec fn current_owner_message(workspace: Seq<u8>, index_path: Option<Seq<u8>>) -> Seq<u8> {
    domain("nokv/generic-index/current-owner/v1") + workspace + scope_bytes(index_path)
}

/// Stable opaque owner digest for a current pointer reference.
pub fn generic_index_current_owner_digest(
    workspace: WorkspaceIncarnationId,
    index_path: Option<&NormalizedRelativePath>,
) -> (owner: [u8; 32])
    ensures
        owner@ == digest::sha256(
            current_owner_message(workspace@, bytes::option_view(index_path)),
        ),
{
    let mut message = digest::domain_message("nokv/generic-index/current-owner/v1");
    bytes::push_bytes(&mut message, workspace.as_bytes().as_slice());
    push_scope(&mut message, index_path);
    digest::digest(message.as_slice())
}

/// Message of an owner with a fixed identity.
pub open spec fn fixed_owner_message(name: &str, owner: Seq<u8>) -> Seq<u8> {
    domain(name) + digest::framed(owner)
}

/// Digest of an owner with a fixed identity.
fn fixed_owner_digest(name: &str, owner: &[u8]) -> (digest: [u8; 32])
    ensures
        digest@ == digest::sha256(fixed_owner_message(name, owner@)),
{
    let mut message = digest::domain_message(name);
    digest::push_framed(&mut message, owner);
    digest::digest(message.as_slice())
}

/// Stable opaque owner digest for one immutable commit reference.
pub fn generic_index_commit_owner_digest(commit: CommitId) -> (owner: [u8; 32])
    ensures
        owner@ == digest::sha256(
            fixed_owner_message("nokv/generic-index/commit-owner/v1", commit@),
        ),
{
    fixed_owner_digest("nokv/generic-index/commit-owner/v1", commit.as_bytes().as_slice())
}

/// Stable opaque owner digest for a commit-build operation reference.
pub fn generic_index_build_commit_owner_digest(operation: OperationId) -> (owner: [u8; 32])
    ensures
        owner@ == digest::sha256(
            fixed_owner_message("nokv/generic-index/build-commit-owner/v1", operation@),
        ),
{
    fixed_owner_digest("nokv/generic-index/build-commit-owner/v1", operation.as_bytes().as_slice())
}

/// Stable opaque owner digest for a restore operation reference.
pub fn generic_index_restore_owner_digest(operation: OperationId) -> (owner: [u8; 32])
    ensures
        owner@ == digest::sha256(
            fixed_owner_message("nokv/generic-index/restore-owner/v1", operation@),
        ),
{
    fixed_owner_digest("nokv/generic-index/restore-owner/v1", operation.as_bytes().as_slice())
}

/// Stable opaque owner digest for a registration operation reference.
pub fn generic_index_registration_owner_digest(operation: OperationId) -> (owner: [u8; 32])
    ensures
        owner@ == digest::sha256(
            fixed_owner_message("nokv/generic-index/registration-owner/v1", operation@),
        ),
{
    fixed_owner_digest("nokv/generic-index/registration-owner/v1", operation.as_bytes().as_slice())
}

/// Two rows show the caller the same path and values.
pub open spec fn same_input(a: GenericIndexRowRecordView, b: GenericIndexRowRecordView) -> bool {
    a.relative_path == b.relative_path && a.values == b.values
}

/// The digest of an append input does not depend on the bindings of its rows:
/// rows that show the caller the same paths and values hash the same message.
pub proof fn append_input_ignores_bindings(
    first_sequence: u64,
    a: Seq<GenericIndexRowRecordView>,
    b: Seq<GenericIndexRowRecordView>,
)
    requires
        a.len() == b.len(),
        forall|i: int| 0 <= i < a.len() ==> same_input(#[trigger] a[i], b[i]),
    ensures
        append_input_message(first_sequence, a) == append_input_message(first_sequence, b),
        row_inputs(a) == row_inputs(b),
    decreases a.len(),
{
    if a.len() > 0 {
        assert(same_input(a[a.len() - 1], b[b.len() - 1]));
        assert forall|i: int| 0 <= i < a.len() - 1 implies same_input(
            #[trigger] a.drop_last()[i],
            b.drop_last()[i],
        ) by {
            assert(same_input(a[i], b[i]));
        }
        append_input_ignores_bindings(first_sequence, a.drop_last(), b.drop_last());
    }
}

/// Different valid catalogs hash different messages.
pub proof fn catalog_messages_are_distinct(
    a: Seq<GenericIndexFieldCapabilityView>,
    b: Seq<GenericIndexFieldCapabilityView>,
)
    requires
        generic_index_format::capabilities_sized(a),
        generic_index_format::capabilities_sized(b),
        generic_index_validate::capabilities_check(a) is Ok,
        generic_index_validate::capabilities_check(b) is Ok,
        generic_index_format::capabilities_encoding(a).len() <= u64::MAX,
        generic_index_format::capabilities_encoding(b).len() <= u64::MAX,
        capability_message(a) == capability_message(b),
    ensures
        a == b,
{
    let name = domain("nokv/generic-index/capabilities/v1");
    let x = generic_index_format::capabilities_encoding(a);
    let y = generic_index_format::capabilities_encoding(b);
    let none = Seq::<u8>::empty();
    digest::concat_parts_are_unique(name, digest::framed(x), name, digest::framed(y));
    assert(digest::framed(x) + none =~= digest::framed(x));
    assert(digest::framed(y) + none =~= digest::framed(y));
    digest::framed_parts_are_unique(x, none, y, none);
    generic_index_laws::capabilities_read_back(a, none);
    generic_index_laws::capabilities_read_back(b, none);
}

/// Different sequence positions, or different valid rows, hash different
/// messages.
pub proof fn row_messages_are_distinct(
    first: u64,
    a: GenericIndexRowRecordView,
    second: u64,
    b: GenericIndexRowRecordView,
)
    requires
        a.sized(),
        b.sized(),
        a.encode_check() is Ok,
        b.encode_check() is Ok,
        row_message(first, a) == row_message(second, b),
    ensures
        first == second,
        a == b,
{
    let name = domain("nokv/generic-index/row/v1");
    let x = a.encoding();
    let y = b.encoding();
    let none = Seq::<u8>::empty();
    bytes::be64_reads_back(first);
    bytes::be64_reads_back(second);
    digest::concat_parts_are_unique(
        name + bytes::be64(first),
        digest::framed(x),
        name + bytes::be64(second),
        digest::framed(y),
    );
    digest::concat_parts_are_unique(name, bytes::be64(first), name, bytes::be64(second));
    assert(digest::framed(x) + none =~= digest::framed(x));
    assert(digest::framed(y) + none =~= digest::framed(y));
    digest::framed_parts_are_unique(x, none, y, none);
    generic_index_laws::row_reads_back(a);
    generic_index_laws::row_reads_back(b);
}

/// Different index scopes, or different valid members, hash different
/// messages.
pub proof fn member_messages_are_distinct(
    p: Option<Seq<u8>>,
    a: CommitGenericIndexMemberRecordView,
    q: Option<Seq<u8>>,
    b: CommitGenericIndexMemberRecordView,
)
    requires
        a.sized(),
        b.sized(),
        a.check() is Ok,
        b.check() is Ok,
        p matches Some(path) ==> path.len() <= u64::MAX,
        q matches Some(path) ==> path.len() <= u64::MAX,
        member_message(p, a) == member_message(q, b),
    ensures
        p == q,
        a == b,
{
    let name = domain("nokv/commit-generic-index-member/v1");
    let x = digest::framed(a.encoding());
    let y = digest::framed(b.encoding());
    let none = Seq::<u8>::empty();
    bytes::concat_regroups(name, scope_bytes(p), x);
    bytes::concat_regroups(name, scope_bytes(q), y);
    digest::concat_parts_are_unique(name, scope_bytes(p) + x, name, scope_bytes(q) + y);
    scopes_are_distinct(p, x, q, y);
    assert(x + none =~= x);
    assert(y + none =~= y);
    bytes::be64_reads_back(a.row_count);
    bytes::be64_reads_back(b.row_count);
    digest::framed_parts_are_unique(a.encoding(), none, b.encoding(), none);
    generic_index_laws::member_reads_back(a);
    generic_index_laws::member_reads_back(b);
}

/// An index scope can be told from what follows it.
proof fn scopes_are_distinct(p: Option<Seq<u8>>, x: Seq<u8>, q: Option<Seq<u8>>, y: Seq<u8>)
    requires
        p matches Some(path) ==> path.len() <= u64::MAX,
        q matches Some(path) ==> path.len() <= u64::MAX,
        scope_bytes(p) + x == scope_bytes(q) + y,
    ensures
        p == q,
        x == y,
{
    assert((scope_bytes(p) + x)[0] == scope_bytes(p)[0]);
    assert((scope_bytes(q) + y)[0] == scope_bytes(q)[0]);
    match (p, q) {
        (Some(a), Some(b)) => {
            bytes::concat_regroups(seq![1u8], digest::framed(a), x);
            bytes::concat_regroups(seq![1u8], digest::framed(b), y);
            digest::concat_parts_are_unique(
                seq![1u8],
                digest::framed(a) + x,
                seq![1u8],
                digest::framed(b) + y,
            );
            digest::framed_parts_are_unique(a, x, b, y);
        },
        (None, None) => {
            digest::concat_parts_are_unique(seq![0u8], x, seq![0u8], y);
        },
        _ => {},
    }
}

/// Different workspaces, or different index scopes, give current pointers
/// whose owners hash different messages.
pub proof fn current_owner_messages_are_distinct(
    v: Seq<u8>,
    p: Option<Seq<u8>>,
    w: Seq<u8>,
    q: Option<Seq<u8>>,
)
    requires
        v.len() == w.len(),
        p matches Some(path) ==> path.len() <= u64::MAX,
        q matches Some(path) ==> path.len() <= u64::MAX,
        current_owner_message(v, p) == current_owner_message(w, q),
    ensures
        v == w,
        p == q,
{
    let name = domain("nokv/generic-index/current-owner/v1");
    let none = Seq::<u8>::empty();
    digest::concat_parts_are_unique(name + v, scope_bytes(p), name + w, scope_bytes(q));
    digest::concat_parts_are_unique(name, v, name, w);
    assert(scope_bytes(p) + none =~= scope_bytes(p));
    assert(scope_bytes(q) + none =~= scope_bytes(q));
    scopes_are_distinct(p, none, q, none);
}

} // verus!
