//! What the phases of a publish operation stand for.
//!
//! An operation is finalized and published only with every object staged and
//! uploaded and every manifest row in place, and it is cleaned only with all of
//! them removed. The laws say which operations and rows are valid, and on which of
//! them each transition succeeds.

use vstd::prelude::*;

use crate::publish_records::{PublishFailure, PublishRecordError};
use crate::publish_validate;
use crate::publish_validate::{
    ArtifactManifestRowView, PublishClosureView, PublishIdentityView, PublishOperationRecordView,
    PublishResultView, PublishTerminalErrorView, PublishTransitionView, StagedObjectRecordView,
};
use crate::states::{PublishPhase, StagedCleanupState, StagedProviderState};

verus! {

/// A valid operation in `Finalizing` or `Published` has staged and uploaded all
/// its objects and has all its manifest rows, and its digests are the seals.
pub proof fn finalized_operations_are_uploaded(v: PublishOperationRecordView)
    requires
        v.check() is Ok,
        v.identity.phase is Finalizing || v.identity.phase is Published,
    ensures
        v.ledger.staged_object_cursor == v.ledger.staged_object_count,
        v.ledger.uploaded_object_cursor == v.ledger.staged_object_count,
        v.ledger.staged_object_rolling_digest == v.ledger.staged_object_seal,
        v.ledger.uploaded_object_rolling_digest == v.ledger.staged_object_seal,
        v.ledger.manifest_cursor == v.ledger.manifest_row_count,
        v.ledger.manifest_rolling_digest == v.ledger.manifest_seal,
        v.closure.cleanup_staged_object_cursor == 0,
        v.closure.cleanup_manifest_cursor == 0,
        v.closure.publication_absence_proof is None,
        v.closure.terminal_error is None,
        v.closure.result is Some <==> v.identity.phase is Published,
{
}

/// A valid operation that was aborted keeps its reason and never has a result. A
/// cleaned one has removed every row that it had staged, and a quarantined one has
/// evidence.
pub proof fn aborted_operations_keep_their_reason(v: PublishOperationRecordView)
    requires
        v.check() is Ok,
        v.identity.phase is Aborting || v.identity.phase is Cleaning || v.identity.phase is Cleaned
            || v.identity.phase is Quarantined,
    ensures
        v.closure.terminal_error is Some,
        v.closure.result is None,
        v.identity.phase is Aborting ==> v.closure.cleanup_staged_object_cursor == 0
            && v.closure.cleanup_manifest_cursor == 0,
        v.identity.phase is Cleaned ==> v.closure.cleanup_staged_object_cursor
            == v.ledger.staged_object_cursor && v.closure.cleanup_manifest_cursor
            == v.ledger.manifest_cursor,
        v.identity.phase is Quarantined ==> v.closure.terminal_error->0.evidence_digest is Some,
{
}

/// Finalization begins exactly on a valid operation in `Uploading` that has staged
/// and uploaded all its objects and has all its manifest rows. Nothing but the
/// phase changes. An operation with an object or a row still missing is refused for
/// that reason.
pub proof fn finalization_begins_on_whole_uploads(v: PublishOperationRecordView)
    ensures
        ({
            let result = v.step(
                PublishPhase::Uploading,
                PublishTransitionView::BeginFinalization,
            );
            let whole = v.ledger.staged_object_cursor == v.ledger.staged_object_count
                && v.ledger.uploaded_object_cursor == v.ledger.staged_object_count
                && v.ledger.staged_object_rolling_digest == v.ledger.staged_object_seal
                && v.ledger.uploaded_object_rolling_digest == v.ledger.staged_object_seal
                && v.ledger.manifest_cursor == v.ledger.manifest_row_count
                && v.ledger.manifest_rolling_digest == v.ledger.manifest_seal;
            &&& result is Ok <==> v.check() is Ok && v.identity.phase is Uploading && whole
            &&& result matches Ok(next) ==> next == (PublishOperationRecordView {
                identity: PublishIdentityView { phase: PublishPhase::Finalizing, ..v.identity },
                ..v
            })
            &&& v.check() is Ok && v.identity.phase is Uploading && !whole ==> result == Err::<
                PublishOperationRecordView,
                PublishFailure,
            >(
                PublishRecordError::InvalidPhasePayload {
                    phase: PublishPhase::Uploading,
                    reason:
                        "staged, uploaded, and manifest seals must be complete before finalization",
                },
            )
        }),
{
}

/// A text has between one byte and a maximum, none of them NUL.
pub open spec fn is_bounded_text(text: Seq<u8>, max: int) -> bool {
    0 < text.len() <= max && forall|i: int| 0 <= i < text.len() ==> #[trigger] text[i] != 0
}

/// A text is between 1 and 256 visible ASCII characters.
pub open spec fn is_digest_uri(text: Seq<u8>) -> bool {
    0 < text.len() <= 256 && forall|i: int| 0 <= i < text.len() ==> 33 <= #[trigger] text[i] <= 126
}

/// What is checked of texts.
proof fn text_checks_are_exact(field: &'static str, text: Seq<u8>, max: usize)
    ensures
        publish_validate::text_check(field, text, max) is Ok <==> is_bounded_text(text, max as int),
        publish_validate::visible_ascii_check(field, text, 256) is Ok <==> is_digest_uri(text),
{
    if is_digest_uri(text) {
        assert forall|i: int| 0 <= i < text.len() implies #[trigger] text[i] != 0 by {}
    }
}

/// A publish result is well formed where it names a workspace revision and a
/// digest URI, and a terminal error where it has a message of at most 4096 bytes.
pub proof fn outcomes_are_well_formed(result: PublishResultView, error: PublishTerminalErrorView)
    ensures
        result.check() is Ok <==> result.workspace_revision != 0 && is_digest_uri(
            result.body_digest_uri,
        ),
        error.check() is Ok <==> is_bounded_text(error.message, 4096),
{
    text_checks_are_exact("result.body_digest_uri", result.body_digest_uri, 256);
    text_checks_are_exact("terminal_error.message", error.message, 4096);
}

/// Publication succeeds exactly on a valid operation in `Finalizing`, with a well
/// formed result, which it keeps.
pub proof fn finalized_operations_are_published(
    v: PublishOperationRecordView,
    result: PublishResultView,
)
    ensures
        ({
            let done = v.step(
                PublishPhase::Finalizing,
                PublishTransitionView::Publish { result },
            );
            &&& done is Ok <==> v.check() is Ok && v.identity.phase is Finalizing
                && result.workspace_revision != 0 && is_digest_uri(result.body_digest_uri)
            &&& done matches Ok(next) ==> next == (PublishOperationRecordView {
                identity: PublishIdentityView { phase: PublishPhase::Published, ..v.identity },
                closure: PublishClosureView { result: Some(result), ..v.closure },
                ..v
            })
        }),
{
    text_checks_are_exact("result.body_digest_uri", result.body_digest_uri, 256);
}

/// An abort begins exactly on a valid operation in `Uploading`, however far it has
/// come, with a well formed reason, which it keeps.
pub proof fn uploads_are_aborted(v: PublishOperationRecordView, error: PublishTerminalErrorView)
    ensures
        ({
            let done = v.step(
                PublishPhase::Uploading,
                PublishTransitionView::BeginAbort { terminal_error: error },
            );
            &&& done is Ok <==> v.check() is Ok && v.identity.phase is Uploading && is_bounded_text(
                error.message,
                4096,
            )
            &&& done matches Ok(next) ==> next == (PublishOperationRecordView {
                identity: PublishIdentityView { phase: PublishPhase::Aborting, ..v.identity },
                closure: PublishClosureView { terminal_error: Some(error), ..v.closure },
                ..v
            })
        }),
{
    text_checks_are_exact("terminal_error.message", error.message, 4096);
}

/// Cleaning begins exactly on a valid operation in `Aborting`, and is finished
/// exactly on a valid one in `Cleaning` that has removed every row it had staged.
/// Nothing but the phase changes.
pub proof fn aborted_operations_are_cleaned(v: PublishOperationRecordView)
    ensures
        ({
            let begun = v.step(PublishPhase::Aborting, PublishTransitionView::BeginCleaning);
            let done = v.step(PublishPhase::Cleaning, PublishTransitionView::FinishCleanup);
            let removed = v.closure.cleanup_staged_object_cursor == v.ledger.staged_object_cursor
                && v.closure.cleanup_manifest_cursor == v.ledger.manifest_cursor;
            &&& begun is Ok <==> v.check() is Ok && v.identity.phase is Aborting
            &&& begun matches Ok(next) ==> next == (PublishOperationRecordView {
                identity: PublishIdentityView { phase: PublishPhase::Cleaning, ..v.identity },
                ..v
            })
            &&& done is Ok <==> v.check() is Ok && v.identity.phase is Cleaning && removed
            &&& done matches Ok(next) ==> next == (PublishOperationRecordView {
                identity: PublishIdentityView { phase: PublishPhase::Cleaned, ..v.identity },
                ..v
            })
            &&& v.check() is Ok && v.identity.phase is Cleaning && !removed ==> done == Err::<
                PublishOperationRecordView,
                PublishFailure,
            >(
                PublishRecordError::InvalidPhasePayload {
                    phase: PublishPhase::Cleaning,
                    reason: "all durable staging rows must be removed before Cleaned",
                },
            )
        }),
{
}

/// Quarantine succeeds exactly on a valid operation in `Cleaning`, with a well
/// formed reason that has evidence, and keeps that reason.
pub proof fn cleaning_operations_are_quarantined(
    v: PublishOperationRecordView,
    error: PublishTerminalErrorView,
)
    ensures
        ({
            let done = v.step(
                PublishPhase::Cleaning,
                PublishTransitionView::Quarantine { terminal_error: error },
            );
            &&& done is Ok <==> v.check() is Ok && v.identity.phase is Cleaning && is_bounded_text(
                error.message,
                4096,
            ) && error.evidence_digest is Some
            &&& done matches Ok(next) ==> next == (PublishOperationRecordView {
                identity: PublishIdentityView { phase: PublishPhase::Quarantined, ..v.identity },
                closure: PublishClosureView { terminal_error: Some(error), ..v.closure },
                ..v
            })
        }),
{
    text_checks_are_exact("terminal_error.message", error.message, 4096);
}

/// A takeover succeeds exactly on a valid operation in `Finalizing` with a well
/// formed reason. It aborts the operation, and keeps the proof and the reason.
pub proof fn finalizing_operations_are_taken_over(
    v: PublishOperationRecordView,
    absence: Seq<u8>,
    error: PublishTerminalErrorView,
)
    ensures
        v.taken_over(absence, error) is Ok <==> v.check() is Ok && v.identity.phase is Finalizing
            && is_bounded_text(error.message, 4096),
        v.taken_over(absence, error) matches Ok(next) ==> next == (PublishOperationRecordView {
            identity: PublishIdentityView { phase: PublishPhase::Aborting, ..v.identity },
            closure: PublishClosureView {
                publication_absence_proof: Some(absence),
                terminal_error: Some(error),
                ..v.closure
            },
            ..v
        }),
{
    text_checks_are_exact("terminal_error.message", error.message, 4096);
}

/// A transition that is asked for from another phase than the operation is in is
/// refused with both phases. From any phase, there is no other way on than the
/// named ones.
pub proof fn other_transitions_are_refused(
    v: PublishOperationRecordView,
    expected: PublishPhase,
    transition: PublishTransitionView,
)
    requires
        v.check() is Ok,
    ensures
        v.identity.phase != expected ==> v.step(expected, transition) == Err::<
            PublishOperationRecordView,
            PublishFailure,
        >(PublishRecordError::PhaseMismatch { expected, actual: v.identity.phase }),
        v.identity.phase == expected && !(match transition {
            PublishTransitionView::BeginFinalization => expected is Uploading,
            PublishTransitionView::Publish { .. } => expected is Finalizing,
            PublishTransitionView::BeginAbort { .. } => expected is Uploading,
            PublishTransitionView::BeginCleaning => expected is Aborting,
            PublishTransitionView::FinishCleanup => expected is Cleaning,
            PublishTransitionView::Quarantine { .. } => expected is Cleaning,
        }) ==> v.step(expected, transition) == Err::<PublishOperationRecordView, PublishFailure>(
            PublishRecordError::InvalidPhaseTransition {
                from: expected,
                to: match transition {
                    PublishTransitionView::BeginFinalization => PublishPhase::Finalizing,
                    PublishTransitionView::Publish { .. } => PublishPhase::Published,
                    PublishTransitionView::BeginAbort { .. } => PublishPhase::Aborting,
                    PublishTransitionView::BeginCleaning => PublishPhase::Cleaning,
                    PublishTransitionView::FinishCleanup => PublishPhase::Cleaned,
                    PublishTransitionView::Quarantine { .. } => PublishPhase::Quarantined,
                },
            },
        ),
{
}

/// A rolling digest starts at zero and ends at the seal, and nothing is sealed by
/// zero.
pub open spec fn digest_follows(
    count: u32,
    seal: Seq<u8>,
    cursor: u32,
    rolling_digest: Seq<u8>,
) -> bool {
    &&& cursor == 0 ==> rolling_digest == Seq::new(32, |i: int| 0u8)
    &&& count == 0 ==> seal == Seq::new(32, |i: int| 0u8)
    &&& cursor == count ==> rolling_digest == seal
}

/// An operation is valid exactly where it has a deadline, its counts and cursors
/// are in range, its digests follow its cursors, its outcome is well formed, and its
/// phase allows what it holds.
pub proof fn operations_are_valid_as_they_stand(v: PublishOperationRecordView)
    ensures
        v.check() is Ok <==> ({
            let ledger = v.ledger;
            let closure = v.closure;
            &&& v.identity.activity_deadline_ms != 0
            &&& ledger.staged_object_count <= 1_048_576
            &&& ledger.manifest_row_count <= 1_048_576
            &&& closure.dependency_count <= 64
            &&& closure.dependency_depth <= 8
            &&& closure.dependency_count == 0 <==> closure.dependency_depth == 0
            &&& ledger.uploaded_object_cursor <= ledger.staged_object_cursor
                <= ledger.staged_object_count
            &&& ledger.manifest_cursor <= ledger.manifest_row_count
            &&& closure.cleanup_staged_object_cursor <= ledger.staged_object_cursor
            &&& closure.cleanup_manifest_cursor <= ledger.manifest_cursor
            &&& digest_follows(
                ledger.staged_object_count,
                ledger.staged_object_seal,
                ledger.staged_object_cursor,
                ledger.staged_object_rolling_digest,
            )
            &&& digest_follows(
                ledger.staged_object_count,
                ledger.staged_object_seal,
                ledger.uploaded_object_cursor,
                ledger.uploaded_object_rolling_digest,
            )
            &&& digest_follows(
                ledger.manifest_row_count,
                ledger.manifest_seal,
                ledger.manifest_cursor,
                ledger.manifest_rolling_digest,
            )
            &&& ledger.manifest_last_position is Some <==> ledger.manifest_cursor > 0
            &&& closure.result matches Some(result) ==> result.workspace_revision != 0
                && is_digest_uri(result.body_digest_uri)
            &&& closure.terminal_error matches Some(error) ==> is_bounded_text(error.message, 4096)
            &&& v.identity.phase is Uploading || v.identity.phase is Finalizing
                || v.identity.phase is Published || v.identity.phase is Aborting
                ==> closure.cleanup_staged_object_cursor == 0 && closure.cleanup_manifest_cursor
                == 0
            &&& v.identity.phase is Finalizing || v.identity.phase is Published
                ==> ledger.uploaded_object_cursor == ledger.staged_object_count
                && ledger.manifest_cursor == ledger.manifest_row_count
            &&& v.identity.phase is Uploading || v.identity.phase is Finalizing
                || v.identity.phase is Published ==> closure.publication_absence_proof is None
            &&& closure.result is Some <==> v.identity.phase is Published
            &&& closure.terminal_error is Some <==> v.identity.phase is Aborting
                || v.identity.phase is Cleaning || v.identity.phase is Cleaned
                || v.identity.phase is Quarantined
            &&& v.identity.phase is Cleaned ==> closure.cleanup_staged_object_cursor
                == ledger.staged_object_cursor && closure.cleanup_manifest_cursor
                == ledger.manifest_cursor
            &&& v.identity.phase is Quarantined ==> closure.terminal_error->0.evidence_digest
                is Some
        }),
{
    if let Some(result) = v.closure.result {
        text_checks_are_exact("result.body_digest_uri", result.body_digest_uri, 256);
    }
    if let Some(error) = v.closure.terminal_error {
        text_checks_are_exact("terminal_error.message", error.message, 4096);
    }
    assert(publish_validate::zero_digest() =~= Seq::new(32, |i: int| 0u8));
}

/// A staged object is valid exactly where its number is in range, its key is an
/// object key of its revision, its upload id is bounded, it has a length and a digest
/// URI, and its states agree: only a planned, running or finished upload is owned,
/// one of these or a pending abort is to be deleted, only an aborted one is deleted,
/// and only an ambiguous one is quarantined.
pub proof fn staged_objects_are_valid_as_they_stand(v: StagedObjectRecordView)
    ensures
        v.check() is Ok <==> ({
            &&& v.object_sequence < 1_048_576
            &&& publish_validate::object_key_index(v.object_key, v.artifact_revision_id) is Ok
            &&& v.multipart_upload_id matches Some(upload_id) ==> 0 < upload_id.len() <= 1024
            &&& v.expected_length != 0
            &&& is_digest_uri(v.expected_digest_uri)
            &&& v.cleanup_state == StagedCleanupState::Owned ==> v.provider_state
                == StagedProviderState::Planned || v.provider_state
                == StagedProviderState::Uploading || v.provider_state
                == StagedProviderState::Uploaded
            &&& v.cleanup_state == StagedCleanupState::DeletePending ==> v.provider_state
                == StagedProviderState::Planned || v.provider_state
                == StagedProviderState::Uploading || v.provider_state
                == StagedProviderState::Uploaded || v.provider_state
                == StagedProviderState::AbortPending
            &&& v.cleanup_state == StagedCleanupState::Deleted ==> v.provider_state
                == StagedProviderState::Aborted
            &&& v.cleanup_state == StagedCleanupState::Quarantined ==> v.provider_state
                == StagedProviderState::Ambiguous
        }),
{
    text_checks_are_exact("expected_digest_uri", v.expected_digest_uri, 256);
}

/// A manifest row is valid exactly where its key is the object key of its owner and
/// index, it has a length, its ranges stay within 64 bits, and it has a digest URI.
pub proof fn manifest_rows_are_valid_as_they_stand(v: ArtifactManifestRowView)
    ensures
        v.check() is Ok <==> ({
            &&& publish_validate::object_key_index(v.object_key, v.physical_owner_revision_id)
                == Ok::<int, PublishFailure>(v.physical_object_index as int)
            &&& v.length != 0
            &&& v.logical_offset + v.length <= u64::MAX
            &&& v.offset + v.length <= u64::MAX
            &&& is_digest_uri(v.digest_uri)
            &&& v.append_segment matches Some(segment) ==> segment.segment_sequence < 1_048_576
                && segment.segment_offset + v.length <= u64::MAX
        }),
{
    text_checks_are_exact("digest_uri", v.digest_uri, 256);
}

/// An object key has 137 bytes: `nokv/artifacts/`, then shard, root and revision of
/// 32 digits each, `blocks` and an index of 16 digits, with a slash between two
/// parts. The revision is that of its owner.
pub proof fn object_keys_are_built_of_their_parts(key: Seq<u8>, revision: Seq<u8>)
    ensures
        publish_validate::object_key_index(key, revision) is Ok <==> ({
            let hex = |from: int, to: int|
                forall|i: int|
                    from <= i < to ==> 48 <= #[trigger] key[i] <= 57 || 97 <= key[i] <= 102;
            &&& key.len() == 137
            &&& key.take(15) == seq![
                110u8, 111u8, 107u8, 118u8, 47u8, 97u8, 114u8, 116u8, 105u8, 102u8, 97u8, 99u8,
                116u8, 115u8, 47u8,
            ]
            &&& hex(15, 47)
            &&& key[47] == 47
            &&& hex(48, 80)
            &&& key[80] == 47
            &&& key.subrange(81, 113) == publish_validate::hex_text(revision)
            &&& hex(81, 113)
            &&& key.subrange(113, 121) == seq![47u8, 98u8, 108u8, 111u8, 99u8, 107u8, 115u8, 47u8]
            &&& hex(121, 137)
        }),
        publish_validate::object_key_index(key, revision) matches Ok(index) ==> index
            == publish_validate::hex_value(key.subrange(121, 137)),
{
    if key.len() == 137 {
        hex_parts(key, 15, 47);
        hex_parts(key, 48, 80);
        hex_parts(key, 81, 113);
        hex_parts(key, 121, 137);
    }
}

/// A part is of digits.
proof fn hex_parts(key: Seq<u8>, from: int, to: int)
    requires
        0 <= from <= to <= key.len(),
    ensures
        publish_validate::is_hex(key.subrange(from, to)) <==> forall|i: int|
            from <= i < to ==> 48 <= #[trigger] key[i] <= 57 || 97 <= key[i] <= 102,
{
    let part = key.subrange(from, to);
    if publish_validate::is_hex(part) {
        assert forall|i: int| from <= i < to implies 48 <= #[trigger] key[i] <= 57 || 97 <= key[i]
            <= 102 by {
            assert(publish_validate::is_hex_digit(part[i - from]));
        }
    }
    if forall|i: int| from <= i < to ==> 48 <= #[trigger] key[i] <= 57 || 97 <= key[i] <= 102 {
        assert forall|i: int| 0 <= i < part.len() implies publish_validate::is_hex_digit(
            #[trigger] part[i],
        ) by {
            assert(part[i] == key[from + i]);
        }
    }
}

} // verus!
