//! What holds of publication codecs and of the publish state machine.

use vstd::prelude::*;
use vstd::utf8::*;

use crate::bytes;
use crate::names::{NormalizedRelativePath, WorkbenchId};
use crate::publish_codec;
use crate::publish_records::{
    AppendSegment, PublishFailure, PublishRecordError, MAX_DIGEST_URI_BYTES, MAX_MANIFEST_ROW_BYTES,
    MAX_MULTIPART_ID_BYTES, MAX_PUBLISH_OPERATION_RECORD_BYTES, MAX_STAGED_OBJECT_RECORD_BYTES,
    MAX_TERMINAL_ERROR_BYTES, OBJECT_KEY_BYTES, PUBLISH_VALUE_FORMAT_VERSION,
};
use crate::publish_validate::{
    ArtifactManifestRowView, PublishAuthorityView, PublishClaimView, PublishClosureView,
    PublishIdentityView, PublishLedgerView, PublishOperationRecordView, PublishResultView,
    PublishTerminalErrorView, PublishTransitionView, StagedObjectRecordView,
};
use crate::records;
use crate::states::PublishPhase;

verus! {

broadcast use crate::bytes::group_big_endian;

/// Reading the first part of a concatenation leaves the second.
proof fn take_first_part(a: Seq<u8>, t: Seq<u8>, field: &'static str)
    ensures
        publish_codec::take_field(a + t, field, a.len()) == Ok::<(Seq<u8>, Seq<u8>), PublishFailure>(
            (a, t),
        ),
{
    reveal(publish_codec::take_field);
    bytes::concat_splits(a, t);
}

/// What is split off and what is left make up the input.
proof fn take_parts_join(b: Seq<u8>, field: &'static str, width: nat)
    ensures
        publish_codec::take_field(b, field, width) matches Ok((a, t)) ==> b == a + t && a.len()
            == width,
{
    reveal(publish_codec::take_field);
    if b.len() >= width {
        assert(b =~= b.take(width as int) + b.skip(width as int));
    }
}

/// One byte and what follows it read back.
proof fn u8_reads_back(x: u8, t: Seq<u8>, field: &'static str)
    ensures
        publish_codec::parse_u8(seq![x] + t, field) == Ok::<(u8, Seq<u8>), PublishFailure>((x, t)),
{
    take_first_part(seq![x], t, field);
}

/// A byte that was read is what the input starts with.
proof fn u8_joins(b: Seq<u8>, field: &'static str)
    ensures
        publish_codec::parse_u8(b, field) matches Ok((x, t)) ==> b == seq![x] + t,
{
    take_parts_join(b, field, 1);
    if publish_codec::take_field(b, field, 1) is Ok {
        let a = publish_codec::take_field(b, field, 1)->Ok_0.0;
        assert(a =~= seq![a[0]]);
    }
}

/// A 32-bit integer and what follows it read back.
proof fn u32_reads_back(x: u32, t: Seq<u8>, field: &'static str)
    ensures
        publish_codec::parse_u32(bytes::be32(x) + t, field) == Ok::<(u32, Seq<u8>), PublishFailure>(
            (x, t),
        ),
{
    take_first_part(bytes::be32(x), t, field);
}

/// A 32-bit integer that was read is what the input starts with.
proof fn u32_joins(b: Seq<u8>, field: &'static str)
    ensures
        publish_codec::parse_u32(b, field) matches Ok((x, t)) ==> b == bytes::be32(x) + t,
{
    take_parts_join(b, field, 4);
}

/// A 64-bit integer and what follows it read back.
proof fn u64_reads_back(x: u64, t: Seq<u8>, field: &'static str)
    ensures
        publish_codec::parse_u64(bytes::be64(x) + t, field) == Ok::<(u64, Seq<u8>), PublishFailure>(
            (x, t),
        ),
{
    take_first_part(bytes::be64(x), t, field);
}

/// A 64-bit integer that was read is what the input starts with.
proof fn u64_joins(b: Seq<u8>, field: &'static str)
    ensures
        publish_codec::parse_u64(b, field) matches Ok((x, t)) ==> b == bytes::be64(x) + t,
{
    take_parts_join(b, field, 8);
}

/// A bounded byte string and what follows it read back.
proof fn bytes_read_back(value: Seq<u8>, t: Seq<u8>, field: &'static str, max: usize)
    requires
        value.len() <= max,
        value.len() <= u32::MAX,
    ensures
        publish_codec::parse_bytes(records::length_prefixed(value) + t, field, max) == Ok::<
            (Seq<u8>, Seq<u8>),
            PublishFailure,
        >((value, t)),
{
    let head = bytes::be32(value.len() as u32);
    bytes::concat_regroups(head, value, t);
    u32_reads_back(value.len() as u32, value + t, field);
    take_first_part(value, t, field);
}

/// A byte string that was read is what the input starts with.
proof fn bytes_join(b: Seq<u8>, field: &'static str, max: usize)
    ensures
        publish_codec::parse_bytes(b, field, max) matches Ok((value, t)) ==> value.len() <= max
            && value.len() <= u32::MAX && b == records::length_prefixed(value) + t,
{
    u32_joins(b, field);
    if publish_codec::parse_bytes(b, field, max) is Ok {
        let length = publish_codec::parse_u32(b, field)->Ok_0.0;
        let rest = publish_codec::parse_u32(b, field)->Ok_0.1;
        take_parts_join(rest, field, length as nat);
        let value = publish_codec::take_field(rest, field, length as nat)->Ok_0.0;
        let t = publish_codec::take_field(rest, field, length as nat)->Ok_0.1;
        bytes::concat_regroups(bytes::be32(length), value, t);
    }
}

/// A bounded text and what follows it read back.
proof fn text_reads_back(value: Seq<u8>, t: Seq<u8>, field: &'static str, max: usize)
    requires
        value.len() <= max,
        value.len() <= u32::MAX,
        valid_utf8(value),
    ensures
        publish_codec::parse_text(records::length_prefixed(value) + t, field, max) == Ok::<
            (Seq<u8>, Seq<u8>),
            PublishFailure,
        >((value, t)),
{
    bytes_read_back(value, t, field, max);
}

/// A text that was read is what the input starts with.
proof fn text_joins(b: Seq<u8>, field: &'static str, max: usize)
    ensures
        publish_codec::parse_text(b, field, max) matches Ok((value, t)) ==> value.len() <= max
            && value.len() <= u32::MAX && valid_utf8(value) && b == records::length_prefixed(value)
            + t,
{
    bytes_join(b, field, max);
}

/// An optional byte string and what follows it read back.
proof fn optional_bytes_reads_back(
    value: Option<Seq<u8>>,
    t: Seq<u8>,
    field: &'static str,
    max: usize,
)
    requires
        value matches Some(v) ==> v.len() <= max && v.len() <= u32::MAX,
    ensures
        publish_codec::parse_optional_bytes(publish_codec::optional_bytes(value) + t, field, max)
            == Ok::<(Option<Seq<u8>>, Seq<u8>), PublishFailure>((value, t)),
{
    match value {
        None => u8_reads_back(0, t, field),
        Some(v) => {
            bytes::concat_regroups(seq![1u8], records::length_prefixed(v), t);
            u8_reads_back(1, records::length_prefixed(v) + t, field);
            bytes_read_back(v, t, field, max);
        },
    }
}

/// An optional byte string that was read is what the input starts with.
proof fn optional_bytes_joins(b: Seq<u8>, field: &'static str, max: usize)
    ensures
        publish_codec::parse_optional_bytes(b, field, max) matches Ok((value, t)) ==> b
            == publish_codec::optional_bytes(value) + t,
{
    u8_joins(b, field);
    if publish_codec::parse_optional_bytes(b, field, max) is Ok {
        let rest = publish_codec::parse_u8(b, field)->Ok_0.1;
        bytes_join(rest, field, max);
        match publish_codec::parse_optional_bytes(b, field, max)->Ok_0.0 {
            None => {},
            Some(v) => {
                let t = publish_codec::parse_optional_bytes(b, field, max)->Ok_0.1;
                bytes::concat_regroups(seq![1u8], records::length_prefixed(v), t);
            },
        }
    }
}

/// An optional digest and what follows it read back.
proof fn optional_digest_reads_back(value: Option<Seq<u8>>, t: Seq<u8>, field: &'static str)
    requires
        value matches Some(v) ==> v.len() == 32,
    ensures
        publish_codec::parse_optional_digest(publish_codec::optional_digest(value) + t, field)
            == Ok::<(Option<Seq<u8>>, Seq<u8>), PublishFailure>((value, t)),
{
    match value {
        None => u8_reads_back(0, t, field),
        Some(v) => {
            bytes::concat_regroups(seq![1u8], v, t);
            u8_reads_back(1, v + t, field);
            take_first_part(v, t, field);
        },
    }
}

/// An optional digest that was read is what the input starts with.
proof fn optional_digest_joins(b: Seq<u8>, field: &'static str)
    ensures
        publish_codec::parse_optional_digest(b, field) matches Ok((value, t)) ==> b
            == publish_codec::optional_digest(value) + t && (value matches Some(v) ==> v.len()
            == 32),
{
    u8_joins(b, field);
    if publish_codec::parse_optional_digest(b, field) is Ok {
        let rest = publish_codec::parse_u8(b, field)->Ok_0.1;
        take_parts_join(rest, field, 32);
        match publish_codec::parse_optional_digest(b, field)->Ok_0.0 {
            None => {},
            Some(v) => {
                let t = publish_codec::parse_optional_digest(b, field)->Ok_0.1;
                bytes::concat_regroups(seq![1u8], v, t);
            },
        }
    }
}

/// An optional manifest position and what follows it read back.
proof fn optional_position_reads_back(value: Option<u64>, t: Seq<u8>)
    ensures
        publish_codec::parse_optional_position(publish_codec::optional_position(value) + t) == Ok::<
            (Option<u64>, Seq<u8>),
            PublishFailure,
        >((value, t)),
{
    match value {
        None => u8_reads_back(0, t, "manifest_last_position.tag"),
        Some(v) => {
            bytes::concat_regroups(seq![1u8], bytes::be64(v), t);
            u8_reads_back(1, bytes::be64(v) + t, "manifest_last_position.tag");
            u64_reads_back(v, t, "manifest_last_position.object_index");
        },
    }
}

/// An optional manifest position that was read is what the input starts with.
proof fn optional_position_joins(b: Seq<u8>)
    ensures
        publish_codec::parse_optional_position(b) matches Ok((value, t)) ==> b
            == publish_codec::optional_position(value) + t,
{
    u8_joins(b, "manifest_last_position.tag");
    if publish_codec::parse_optional_position(b) is Ok {
        let rest = publish_codec::parse_u8(b, "manifest_last_position.tag")->Ok_0.1;
        u64_joins(rest, "manifest_last_position.object_index");
        match publish_codec::parse_optional_position(b)->Ok_0.0 {
            None => {},
            Some(v) => {
                let t = publish_codec::parse_optional_position(b)->Ok_0.1;
                bytes::concat_regroups(seq![1u8], bytes::be64(v), t);
            },
        }
    }
}

/// An optional append segment and what follows it read back.
proof fn append_segment_reads_back(value: Option<AppendSegment>, t: Seq<u8>)
    ensures
        publish_codec::parse_append_segment(publish_codec::append_segment(value) + t) == Ok::<
            (Option<AppendSegment>, Seq<u8>),
            PublishFailure,
        >((value, t)),
{
    match value {
        None => u8_reads_back(0, t, "append_segment tag"),
        Some(v) => {
            let sequence = bytes::be32(v.segment_sequence);
            let offset = bytes::be64(v.segment_offset);
            bytes::regroup_4(seq![1u8], sequence, offset, t);
            u8_reads_back(1, sequence + (offset + t), "append_segment tag");
            u32_reads_back(v.segment_sequence, offset + t, "append segment_sequence");
            u64_reads_back(v.segment_offset, t, "append segment_offset");
        },
    }
}

/// An optional append segment that was read is what the input starts with.
proof fn append_segment_joins(b: Seq<u8>)
    ensures
        publish_codec::parse_append_segment(b) matches Ok((value, t)) ==> b
            == publish_codec::append_segment(value) + t,
{
    u8_joins(b, "append_segment tag");
    if publish_codec::parse_append_segment(b) is Ok {
        let b1 = publish_codec::parse_u8(b, "append_segment tag")->Ok_0.1;
        match publish_codec::parse_append_segment(b)->Ok_0.0 {
            None => {},
            Some(v) => {
                u32_joins(b1, "append segment_sequence");
                let b2 = publish_codec::parse_u32(b1, "append segment_sequence")->Ok_0.1;
                u64_joins(b2, "append segment_offset");
                let t = publish_codec::parse_append_segment(b)->Ok_0.1;
                bytes::regroup_4(
                    seq![1u8],
                    bytes::be32(v.segment_sequence),
                    bytes::be64(v.segment_offset),
                    t,
                );
            },
        }
    }
}

/// An authority and what follows it read back.
proof fn authority_reads_back(v: PublishAuthorityView, t: Seq<u8>)
    requires
        v.sized(),
    ensures
        PublishAuthorityView::parse(v.encoding() + t) == Ok::<
            (PublishAuthorityView, Seq<u8>),
            PublishFailure,
        >((v, t)),
{
    match v {
        PublishAuthorityView::Visible => u8_reads_back(1, t, "authority"),
        PublishAuthorityView::RestoreStaging { restore_operation_id } => {
            bytes::concat_regroups(seq![2u8], restore_operation_id, t);
            u8_reads_back(2, restore_operation_id + t, "authority");
            take_first_part(restore_operation_id, t, "authority.restore_operation_id");
        },
        PublishAuthorityView::CommitStaging { commit_operation_id } => {
            bytes::concat_regroups(seq![3u8], commit_operation_id, t);
            u8_reads_back(3, commit_operation_id + t, "authority");
            take_first_part(commit_operation_id, t, "authority.commit_operation_id");
        },
    }
}

/// An authority that was read is what the input starts with.
proof fn authority_joins(b: Seq<u8>)
    ensures
        PublishAuthorityView::parse(b) matches Ok((v, t)) ==> v.sized() && b == v.encoding() + t,
{
    u8_joins(b, "authority");
    if PublishAuthorityView::parse(b) is Ok {
        let rest = publish_codec::parse_u8(b, "authority")->Ok_0.1;
        let t = PublishAuthorityView::parse(b)->Ok_0.1;
        take_parts_join(rest, "authority.restore_operation_id", 16);
        take_parts_join(rest, "authority.commit_operation_id", 16);
        match PublishAuthorityView::parse(b)->Ok_0.0 {
            PublishAuthorityView::Visible => {},
            PublishAuthorityView::RestoreStaging { restore_operation_id } => {
                bytes::concat_regroups(seq![2u8], restore_operation_id, t);
            },
            PublishAuthorityView::CommitStaging { commit_operation_id } => {
                bytes::concat_regroups(seq![3u8], commit_operation_id, t);
            },
        }
    }
}

/// A claim and what follows it read back.
proof fn claim_reads_back(v: PublishClaimView, t: Seq<u8>)
    requires
        v.sized(),
    ensures
        PublishClaimView::parse(v.encoding() + t) == Ok::<
            (PublishClaimView, Seq<u8>),
            PublishFailure,
        >((v, t)),
{
    match v {
        PublishClaimView::CreateOnly => u8_reads_back(1, t, "claim"),
        PublishClaimView::ReplaceOnly { expected_generation } => {
            let generation = bytes::be64(expected_generation);
            bytes::concat_regroups(seq![2u8], generation, t);
            u8_reads_back(2, generation + t, "claim");
            u64_reads_back(expected_generation, t, "claim.expected_generation");
        },
        PublishClaimView::Append { expected_generation, base_revision_id, append_offset } => {
            let generation = bytes::be64(expected_generation);
            let offset = bytes::be64(append_offset);
            bytes::regroup_5(seq![3u8], generation, base_revision_id, offset, t);
            u8_reads_back(3, generation + (base_revision_id + (offset + t)), "claim");
            u64_reads_back(
                expected_generation,
                base_revision_id + (offset + t),
                "claim.expected_generation",
            );
            take_first_part(base_revision_id, offset + t, "claim.base_revision_id");
            u64_reads_back(append_offset, t, "claim.append_offset");
        },
    }
}

/// A claim that was read is what the input starts with.
proof fn claim_joins(b: Seq<u8>)
    ensures
        PublishClaimView::parse(b) matches Ok((v, t)) ==> v.sized() && b == v.encoding() + t,
{
    u8_joins(b, "claim");
    if PublishClaimView::parse(b) is Ok {
        let b1 = publish_codec::parse_u8(b, "claim")->Ok_0.1;
        let t = PublishClaimView::parse(b)->Ok_0.1;
        u64_joins(b1, "claim.expected_generation");
        match PublishClaimView::parse(b)->Ok_0.0 {
            PublishClaimView::CreateOnly => {},
            PublishClaimView::ReplaceOnly { expected_generation } => {
                bytes::concat_regroups(seq![2u8], bytes::be64(expected_generation), t);
            },
            PublishClaimView::Append { expected_generation, base_revision_id, append_offset } => {
                let b2 = publish_codec::parse_u64(b1, "claim.expected_generation")->Ok_0.1;
                take_parts_join(b2, "claim.base_revision_id", 16);
                let b3 = publish_codec::take_field(b2, "claim.base_revision_id", 16)->Ok_0.1;
                u64_joins(b3, "claim.append_offset");
                bytes::regroup_5(
                    seq![3u8],
                    bytes::be64(expected_generation),
                    base_revision_id,
                    bytes::be64(append_offset),
                    t,
                );
            },
        }
    }
}

/// An optional result and what follows it read back.
proof fn optional_result_reads_back(value: Option<PublishResultView>, t: Seq<u8>)
    requires
        value matches Some(v) ==> v.path_generation != 0 && valid_utf8(v.body_digest_uri)
            && v.body_digest_uri.len() <= MAX_DIGEST_URI_BYTES,
    ensures
        publish_codec::parse_optional_result(publish_codec::optional_result(value) + t) == Ok::<
            (Option<PublishResultView>, Seq<u8>),
            PublishFailure,
        >((value, t)),
{
    match value {
        None => u8_reads_back(0, t, "result tag"),
        Some(v) => {
            let generation = bytes::be64(v.path_generation);
            let revision = bytes::be64(v.workspace_revision);
            let size = bytes::be64(v.logical_size);
            let uri = records::length_prefixed(v.body_digest_uri);
            bytes::regroup_6(seq![1u8], generation, revision, size, uri, t);
            u8_reads_back(1, generation + (revision + (size + (uri + t))), "result tag");
            u64_reads_back(
                v.path_generation,
                revision + (size + (uri + t)),
                "result.path_generation",
            );
            u64_reads_back(v.workspace_revision, size + (uri + t), "result.workspace_revision");
            u64_reads_back(v.logical_size, uri + t, "result.logical_size");
            text_reads_back(v.body_digest_uri, t, "result.body_digest_uri", MAX_DIGEST_URI_BYTES);
        },
    }
}

/// An optional result that was read is what the input starts with.
proof fn optional_result_joins(b: Seq<u8>)
    ensures
        publish_codec::parse_optional_result(b) matches Ok((value, t)) ==> b
            == publish_codec::optional_result(value) + t && (value matches Some(v)
            ==> v.path_generation != 0 && valid_utf8(v.body_digest_uri)),
{
    u8_joins(b, "result tag");
    if publish_codec::parse_optional_result(b) is Ok {
        let b1 = publish_codec::parse_u8(b, "result tag")->Ok_0.1;
        match publish_codec::parse_optional_result(b)->Ok_0.0 {
            None => {},
            Some(v) => {
                let t = publish_codec::parse_optional_result(b)->Ok_0.1;
                u64_joins(b1, "result.path_generation");
                let b2 = publish_codec::parse_u64(b1, "result.path_generation")->Ok_0.1;
                u64_joins(b2, "result.workspace_revision");
                let b3 = publish_codec::parse_u64(b2, "result.workspace_revision")->Ok_0.1;
                u64_joins(b3, "result.logical_size");
                let b4 = publish_codec::parse_u64(b3, "result.logical_size")->Ok_0.1;
                text_joins(b4, "result.body_digest_uri", MAX_DIGEST_URI_BYTES);
                bytes::regroup_6(
                    seq![1u8],
                    bytes::be64(v.path_generation),
                    bytes::be64(v.workspace_revision),
                    bytes::be64(v.logical_size),
                    records::length_prefixed(v.body_digest_uri),
                    t,
                );
            },
        }
    }
}

/// An optional terminal error and what follows it read back.
proof fn optional_error_reads_back(value: Option<PublishTerminalErrorView>, t: Seq<u8>)
    requires
        value matches Some(v) ==> valid_utf8(v.message) && v.message.len()
            <= MAX_TERMINAL_ERROR_BYTES && (v.evidence_digest matches Some(digest) ==> digest.len()
            == 32),
    ensures
        publish_codec::parse_optional_terminal_error(
            publish_codec::optional_terminal_error(value) + t,
        ) == Ok::<(Option<PublishTerminalErrorView>, Seq<u8>), PublishFailure>((value, t)),
{
    match value {
        None => u8_reads_back(0, t, "terminal_error tag"),
        Some(v) => {
            let kind = seq![v.kind.byte()];
            let message = records::length_prefixed(v.message);
            let evidence = publish_codec::optional_digest(v.evidence_digest);
            bytes::regroup_5(seq![1u8], kind, message, evidence, t);
            u8_reads_back(1, kind + (message + (evidence + t)), "terminal_error tag");
            u8_reads_back(v.kind.byte(), message + (evidence + t), "terminal_error.kind");
            text_reads_back(
                v.message,
                evidence + t,
                "terminal_error.message",
                MAX_TERMINAL_ERROR_BYTES,
            );
            optional_digest_reads_back(v.evidence_digest, t, "terminal_error.evidence_digest");
        },
    }
}

/// An optional terminal error that was read is what the input starts with.
proof fn optional_error_joins(b: Seq<u8>)
    ensures
        publish_codec::parse_optional_terminal_error(b) matches Ok((value, t)) ==> b
            == publish_codec::optional_terminal_error(value) + t && (value matches Some(v)
            ==> valid_utf8(v.message) && (v.evidence_digest matches Some(digest) ==> digest.len()
            == 32)),
{
    u8_joins(b, "terminal_error tag");
    if publish_codec::parse_optional_terminal_error(b) is Ok {
        let b1 = publish_codec::parse_u8(b, "terminal_error tag")->Ok_0.1;
        match publish_codec::parse_optional_terminal_error(b)->Ok_0.0 {
            None => {},
            Some(v) => {
                let t = publish_codec::parse_optional_terminal_error(b)->Ok_0.1;
                u8_joins(b1, "terminal_error.kind");
                let b2 = publish_codec::parse_u8(b1, "terminal_error.kind")->Ok_0.1;
                text_joins(b2, "terminal_error.message", MAX_TERMINAL_ERROR_BYTES);
                let b3 = publish_codec::parse_text(
                    b2,
                    "terminal_error.message",
                    MAX_TERMINAL_ERROR_BYTES,
                )->Ok_0.1;
                optional_digest_joins(b3, "terminal_error.evidence_digest");
                bytes::regroup_5(
                    seq![1u8],
                    seq![v.kind.byte()],
                    records::length_prefixed(v.message),
                    publish_codec::optional_digest(v.evidence_digest),
                    t,
                );
            },
        }
    }
}

/// The identity of a publish operation reads back.
proof fn identity_reads_back(v: PublishIdentityView, t: Seq<u8>)
    requires
        v.sized(),
    ensures
        PublishIdentityView::parse(v.encoding() + t) == Ok::<(PublishIdentityView, Seq<u8>), PublishFailure>((v, t)),
{
    let p1 = v.operation_id;
    let p2 = v.identity_digest;
    let p3 = v.initialization_digest;
    let p4 = bytes::be64(v.initiating_owner_epoch);
    let p5 = bytes::be64(v.activity_deadline_ms);
    let p6 = v.authority.encoding();
    let p7 = records::length_prefixed(v.workbench_id);
    let p8 = v.workspace_incarnation_id;
    let p9 = records::length_prefixed(v.path);
    let p10 = v.artifact_revision_id;
    let p11 = v.claim.encoding();
    let p12 = seq![v.phase.byte()];
    let t13 = t;
    let t12 = p12 + t13;
    let t11 = p11 + t12;
    let t10 = p10 + t11;
    let t9 = p9 + t10;
    let t8 = p8 + t9;
    let t7 = p7 + t8;
    let t6 = p6 + t7;
    let t5 = p5 + t6;
    let t4 = p4 + t5;
    let t3 = p3 + t4;
    let t2 = p2 + t3;
    let e1 = p1;
    let e2 = e1 + p2;
    let e3 = e2 + p3;
    let e4 = e3 + p4;
    let e5 = e4 + p5;
    let e6 = e5 + p6;
    let e7 = e6 + p7;
    let e8 = e7 + p8;
    let e9 = e8 + p9;
    let e10 = e9 + p10;
    let e11 = e10 + p11;
    let e12 = e11 + p12;
    bytes::concat_regroups(e11, p12, t13);
    bytes::concat_regroups(e10, p11, t12);
    bytes::concat_regroups(e9, p10, t11);
    bytes::concat_regroups(e8, p9, t10);
    bytes::concat_regroups(e7, p8, t9);
    bytes::concat_regroups(e6, p7, t8);
    bytes::concat_regroups(e5, p6, t7);
    bytes::concat_regroups(e4, p5, t6);
    bytes::concat_regroups(e3, p4, t5);
    bytes::concat_regroups(e2, p3, t4);
    bytes::concat_regroups(e1, p2, t3);
    take_first_part(v.operation_id, t2, "operation_id");
    take_first_part(v.identity_digest, t3, "identity_digest");
    take_first_part(v.initialization_digest, t4, "initialization_digest");
    u64_reads_back(v.initiating_owner_epoch, t5, "initiating_owner_epoch");
    u64_reads_back(v.activity_deadline_ms, t6, "activity_deadline_ms");
    authority_reads_back(v.authority, t7);
    text_reads_back(v.workbench_id, t8, "workbench_id", WorkbenchId::MAX_BYTES);
    take_first_part(v.workspace_incarnation_id, t9, "workspace_incarnation_id");
    text_reads_back(v.path, t10, "path", NormalizedRelativePath::MAX_BYTES);
    take_first_part(v.artifact_revision_id, t11, "artifact_revision_id");
    claim_reads_back(v.claim, t12);
    u8_reads_back(v.phase.byte(), t13, "phase");
}

/// The identity that was read is what the input starts with.
proof fn identity_joins(b: Seq<u8>)
    ensures
        PublishIdentityView::parse(b) matches Ok((v, rest)) ==> v.sized() && b == v.encoding() + rest,
{
    if PublishIdentityView::parse(b) is Ok {
        let v = PublishIdentityView::parse(b)->Ok_0.0;
        let rest = PublishIdentityView::parse(b)->Ok_0.1;
        let b0 = b;
        take_parts_join(b0, "operation_id", 16);
        let b1 = publish_codec::take_field(b0, "operation_id", 16)->Ok_0.1;
        take_parts_join(b1, "identity_digest", 32);
        let b2 = publish_codec::take_field(b1, "identity_digest", 32)->Ok_0.1;
        take_parts_join(b2, "initialization_digest", 32);
        let b3 = publish_codec::take_field(b2, "initialization_digest", 32)->Ok_0.1;
        u64_joins(b3, "initiating_owner_epoch");
        let b4 = publish_codec::parse_position(b3, "initiating_owner_epoch")->Ok_0.1;
        u64_joins(b4, "activity_deadline_ms");
        let b5 = publish_codec::parse_u64(b4, "activity_deadline_ms")->Ok_0.1;
        authority_joins(b5);
        let b6 = PublishAuthorityView::parse(b5)->Ok_0.1;
        text_joins(b6, "workbench_id", WorkbenchId::MAX_BYTES);
        let b7 = publish_codec::parse_workbench_id(b6)->Ok_0.1;
        take_parts_join(b7, "workspace_incarnation_id", 16);
        let b8 = publish_codec::take_field(b7, "workspace_incarnation_id", 16)->Ok_0.1;
        text_joins(b8, "path", NormalizedRelativePath::MAX_BYTES);
        let b9 = publish_codec::parse_path(b8)->Ok_0.1;
        take_parts_join(b9, "artifact_revision_id", 16);
        let b10 = publish_codec::take_field(b9, "artifact_revision_id", 16)->Ok_0.1;
        claim_joins(b10);
        let b11 = PublishClaimView::parse(b10)->Ok_0.1;
        u8_joins(b11, "phase");
        let b12 = publish_codec::parse_phase(b11)->Ok_0.1;
        let p1 = v.operation_id;
        let p2 = v.identity_digest;
        let p3 = v.initialization_digest;
        let p4 = bytes::be64(v.initiating_owner_epoch);
        let p5 = bytes::be64(v.activity_deadline_ms);
        let p6 = v.authority.encoding();
        let p7 = records::length_prefixed(v.workbench_id);
        let p8 = v.workspace_incarnation_id;
        let p9 = records::length_prefixed(v.path);
        let p10 = v.artifact_revision_id;
        let p11 = v.claim.encoding();
        let p12 = seq![v.phase.byte()];
        let t13 = rest;
        let t12 = p12 + t13;
        let t11 = p11 + t12;
        let t10 = p10 + t11;
        let t9 = p9 + t10;
        let t8 = p8 + t9;
        let t7 = p7 + t8;
        let t6 = p6 + t7;
        let t5 = p5 + t6;
        let t4 = p4 + t5;
        let t3 = p3 + t4;
        let t2 = p2 + t3;
        let e1 = p1;
        let e2 = e1 + p2;
        let e3 = e2 + p3;
        let e4 = e3 + p4;
        let e5 = e4 + p5;
        let e6 = e5 + p6;
        let e7 = e6 + p7;
        let e8 = e7 + p8;
        let e9 = e8 + p9;
        let e10 = e9 + p10;
        let e11 = e10 + p11;
        let e12 = e11 + p12;
        bytes::concat_regroups(e11, p12, t13);
        bytes::concat_regroups(e10, p11, t12);
        bytes::concat_regroups(e9, p10, t11);
        bytes::concat_regroups(e8, p9, t10);
        bytes::concat_regroups(e7, p8, t9);
        bytes::concat_regroups(e6, p7, t8);
        bytes::concat_regroups(e5, p6, t7);
        bytes::concat_regroups(e4, p5, t6);
        bytes::concat_regroups(e3, p4, t5);
        bytes::concat_regroups(e2, p3, t4);
        bytes::concat_regroups(e1, p2, t3);
    }
}

/// The ledger of a publish operation reads back.
proof fn ledger_reads_back(v: PublishLedgerView, t: Seq<u8>)
    requires
        v.sized(),
    ensures
        PublishLedgerView::parse(v.encoding() + t) == Ok::<(PublishLedgerView, Seq<u8>), PublishFailure>((v, t)),
{
    let p1 = bytes::be32(v.staged_object_count);
    let p2 = v.staged_object_seal;
    let p3 = bytes::be32(v.staged_object_cursor);
    let p4 = v.staged_object_rolling_digest;
    let p5 = bytes::be32(v.uploaded_object_cursor);
    let p6 = v.uploaded_object_rolling_digest;
    let p7 = bytes::be32(v.manifest_row_count);
    let p8 = v.manifest_seal;
    let p9 = bytes::be32(v.manifest_cursor);
    let p10 = v.manifest_rolling_digest;
    let p11 = publish_codec::optional_position(v.manifest_last_position);
    let t12 = t;
    let t11 = p11 + t12;
    let t10 = p10 + t11;
    let t9 = p9 + t10;
    let t8 = p8 + t9;
    let t7 = p7 + t8;
    let t6 = p6 + t7;
    let t5 = p5 + t6;
    let t4 = p4 + t5;
    let t3 = p3 + t4;
    let t2 = p2 + t3;
    let e1 = p1;
    let e2 = e1 + p2;
    let e3 = e2 + p3;
    let e4 = e3 + p4;
    let e5 = e4 + p5;
    let e6 = e5 + p6;
    let e7 = e6 + p7;
    let e8 = e7 + p8;
    let e9 = e8 + p9;
    let e10 = e9 + p10;
    let e11 = e10 + p11;
    bytes::concat_regroups(e10, p11, t12);
    bytes::concat_regroups(e9, p10, t11);
    bytes::concat_regroups(e8, p9, t10);
    bytes::concat_regroups(e7, p8, t9);
    bytes::concat_regroups(e6, p7, t8);
    bytes::concat_regroups(e5, p6, t7);
    bytes::concat_regroups(e4, p5, t6);
    bytes::concat_regroups(e3, p4, t5);
    bytes::concat_regroups(e2, p3, t4);
    bytes::concat_regroups(e1, p2, t3);
    u32_reads_back(v.staged_object_count, t2, "staged_object_count");
    take_first_part(v.staged_object_seal, t3, "staged_object_seal");
    u32_reads_back(v.staged_object_cursor, t4, "staged_object_cursor");
    take_first_part(v.staged_object_rolling_digest, t5, "staged_object_rolling_digest");
    u32_reads_back(v.uploaded_object_cursor, t6, "uploaded_object_cursor");
    take_first_part(v.uploaded_object_rolling_digest, t7, "uploaded_object_rolling_digest");
    u32_reads_back(v.manifest_row_count, t8, "manifest_row_count");
    take_first_part(v.manifest_seal, t9, "manifest_seal");
    u32_reads_back(v.manifest_cursor, t10, "manifest_cursor");
    take_first_part(v.manifest_rolling_digest, t11, "manifest_rolling_digest");
    optional_position_reads_back(v.manifest_last_position, t12);
}

/// The ledger that was read is what the input starts with.
proof fn ledger_joins(b: Seq<u8>)
    ensures
        PublishLedgerView::parse(b) matches Ok((v, rest)) ==> v.sized() && b == v.encoding() + rest,
{
    if PublishLedgerView::parse(b) is Ok {
        let v = PublishLedgerView::parse(b)->Ok_0.0;
        let rest = PublishLedgerView::parse(b)->Ok_0.1;
        let b0 = b;
        u32_joins(b0, "staged_object_count");
        let b1 = publish_codec::parse_u32(b0, "staged_object_count")->Ok_0.1;
        take_parts_join(b1, "staged_object_seal", 32);
        let b2 = publish_codec::take_field(b1, "staged_object_seal", 32)->Ok_0.1;
        u32_joins(b2, "staged_object_cursor");
        let b3 = publish_codec::parse_u32(b2, "staged_object_cursor")->Ok_0.1;
        take_parts_join(b3, "staged_object_rolling_digest", 32);
        let b4 = publish_codec::take_field(b3, "staged_object_rolling_digest", 32)->Ok_0.1;
        u32_joins(b4, "uploaded_object_cursor");
        let b5 = publish_codec::parse_u32(b4, "uploaded_object_cursor")->Ok_0.1;
        take_parts_join(b5, "uploaded_object_rolling_digest", 32);
        let b6 = publish_codec::take_field(b5, "uploaded_object_rolling_digest", 32)->Ok_0.1;
        u32_joins(b6, "manifest_row_count");
        let b7 = publish_codec::parse_u32(b6, "manifest_row_count")->Ok_0.1;
        take_parts_join(b7, "manifest_seal", 32);
        let b8 = publish_codec::take_field(b7, "manifest_seal", 32)->Ok_0.1;
        u32_joins(b8, "manifest_cursor");
        let b9 = publish_codec::parse_u32(b8, "manifest_cursor")->Ok_0.1;
        take_parts_join(b9, "manifest_rolling_digest", 32);
        let b10 = publish_codec::take_field(b9, "manifest_rolling_digest", 32)->Ok_0.1;
        optional_position_joins(b10);
        let b11 = publish_codec::parse_optional_position(b10)->Ok_0.1;
        let p1 = bytes::be32(v.staged_object_count);
        let p2 = v.staged_object_seal;
        let p3 = bytes::be32(v.staged_object_cursor);
        let p4 = v.staged_object_rolling_digest;
        let p5 = bytes::be32(v.uploaded_object_cursor);
        let p6 = v.uploaded_object_rolling_digest;
        let p7 = bytes::be32(v.manifest_row_count);
        let p8 = v.manifest_seal;
        let p9 = bytes::be32(v.manifest_cursor);
        let p10 = v.manifest_rolling_digest;
        let p11 = publish_codec::optional_position(v.manifest_last_position);
        let t12 = rest;
        let t11 = p11 + t12;
        let t10 = p10 + t11;
        let t9 = p9 + t10;
        let t8 = p8 + t9;
        let t7 = p7 + t8;
        let t6 = p6 + t7;
        let t5 = p5 + t6;
        let t4 = p4 + t5;
        let t3 = p3 + t4;
        let t2 = p2 + t3;
        let e1 = p1;
        let e2 = e1 + p2;
        let e3 = e2 + p3;
        let e4 = e3 + p4;
        let e5 = e4 + p5;
        let e6 = e5 + p6;
        let e7 = e6 + p7;
        let e8 = e7 + p8;
        let e9 = e8 + p9;
        let e10 = e9 + p10;
        let e11 = e10 + p11;
        bytes::concat_regroups(e10, p11, t12);
        bytes::concat_regroups(e9, p10, t11);
        bytes::concat_regroups(e8, p9, t10);
        bytes::concat_regroups(e7, p8, t9);
        bytes::concat_regroups(e6, p7, t8);
        bytes::concat_regroups(e5, p6, t7);
        bytes::concat_regroups(e4, p5, t6);
        bytes::concat_regroups(e3, p4, t5);
        bytes::concat_regroups(e2, p3, t4);
        bytes::concat_regroups(e1, p2, t3);
    }
}

/// The closure of a publish operation reads back.
proof fn closure_reads_back(v: PublishClosureView, t: Seq<u8>)
    requires
        v.sized(),
        v.result matches Some(result) ==> result.body_digest_uri.len() <= MAX_DIGEST_URI_BYTES,
        v.terminal_error matches Some(error) ==> error.message.len() <= MAX_TERMINAL_ERROR_BYTES,
    ensures
        PublishClosureView::parse(v.encoding() + t) == Ok::<(PublishClosureView, Seq<u8>), PublishFailure>((v, t)),
{
    let p1 = seq![v.dependency_count];
    let p2 = seq![v.dependency_depth];
    let p3 = v.dependency_digest;
    let p4 = bytes::be32(v.cleanup_staged_object_cursor);
    let p5 = bytes::be32(v.cleanup_manifest_cursor);
    let p6 = publish_codec::optional_digest(v.publication_absence_proof);
    let p7 = publish_codec::optional_result(v.result);
    let p8 = publish_codec::optional_terminal_error(v.terminal_error);
    let t9 = t;
    let t8 = p8 + t9;
    let t7 = p7 + t8;
    let t6 = p6 + t7;
    let t5 = p5 + t6;
    let t4 = p4 + t5;
    let t3 = p3 + t4;
    let t2 = p2 + t3;
    let e1 = p1;
    let e2 = e1 + p2;
    let e3 = e2 + p3;
    let e4 = e3 + p4;
    let e5 = e4 + p5;
    let e6 = e5 + p6;
    let e7 = e6 + p7;
    let e8 = e7 + p8;
    bytes::concat_regroups(e7, p8, t9);
    bytes::concat_regroups(e6, p7, t8);
    bytes::concat_regroups(e5, p6, t7);
    bytes::concat_regroups(e4, p5, t6);
    bytes::concat_regroups(e3, p4, t5);
    bytes::concat_regroups(e2, p3, t4);
    bytes::concat_regroups(e1, p2, t3);
    u8_reads_back(v.dependency_count, t2, "dependency_count");
    u8_reads_back(v.dependency_depth, t3, "dependency_depth");
    take_first_part(v.dependency_digest, t4, "dependency_digest");
    u32_reads_back(v.cleanup_staged_object_cursor, t5, "cleanup_staged_object_cursor");
    u32_reads_back(v.cleanup_manifest_cursor, t6, "cleanup_manifest_cursor");
    optional_digest_reads_back(v.publication_absence_proof, t7, "publication_absence_proof");
    optional_result_reads_back(v.result, t8);
    optional_error_reads_back(v.terminal_error, t9);
}

/// The closure that was read is what the input starts with.
proof fn closure_joins(b: Seq<u8>)
    ensures
        PublishClosureView::parse(b) matches Ok((v, rest)) ==> v.sized() && b == v.encoding() + rest,
{
    if PublishClosureView::parse(b) is Ok {
        let v = PublishClosureView::parse(b)->Ok_0.0;
        let rest = PublishClosureView::parse(b)->Ok_0.1;
        let b0 = b;
        u8_joins(b0, "dependency_count");
        let b1 = publish_codec::parse_u8(b0, "dependency_count")->Ok_0.1;
        u8_joins(b1, "dependency_depth");
        let b2 = publish_codec::parse_u8(b1, "dependency_depth")->Ok_0.1;
        take_parts_join(b2, "dependency_digest", 32);
        let b3 = publish_codec::take_field(b2, "dependency_digest", 32)->Ok_0.1;
        u32_joins(b3, "cleanup_staged_object_cursor");
        let b4 = publish_codec::parse_u32(b3, "cleanup_staged_object_cursor")->Ok_0.1;
        u32_joins(b4, "cleanup_manifest_cursor");
        let b5 = publish_codec::parse_u32(b4, "cleanup_manifest_cursor")->Ok_0.1;
        optional_digest_joins(b5, "publication_absence_proof");
        let b6 = publish_codec::parse_optional_digest(b5, "publication_absence_proof")->Ok_0.1;
        optional_result_joins(b6);
        let b7 = publish_codec::parse_optional_result(b6)->Ok_0.1;
        optional_error_joins(b7);
        let b8 = publish_codec::parse_optional_terminal_error(b7)->Ok_0.1;
        let p1 = seq![v.dependency_count];
        let p2 = seq![v.dependency_depth];
        let p3 = v.dependency_digest;
        let p4 = bytes::be32(v.cleanup_staged_object_cursor);
        let p5 = bytes::be32(v.cleanup_manifest_cursor);
        let p6 = publish_codec::optional_digest(v.publication_absence_proof);
        let p7 = publish_codec::optional_result(v.result);
        let p8 = publish_codec::optional_terminal_error(v.terminal_error);
        let t9 = rest;
        let t8 = p8 + t9;
        let t7 = p7 + t8;
        let t6 = p6 + t7;
        let t5 = p5 + t6;
        let t4 = p4 + t5;
        let t3 = p3 + t4;
        let t2 = p2 + t3;
        let e1 = p1;
        let e2 = e1 + p2;
        let e3 = e2 + p3;
        let e4 = e3 + p4;
        let e5 = e4 + p5;
        let e6 = e5 + p6;
        let e7 = e6 + p7;
        let e8 = e7 + p8;
        bytes::concat_regroups(e7, p8, t9);
        bytes::concat_regroups(e6, p7, t8);
        bytes::concat_regroups(e5, p6, t7);
        bytes::concat_regroups(e4, p5, t6);
        bytes::concat_regroups(e3, p4, t5);
        bytes::concat_regroups(e2, p3, t4);
        bytes::concat_regroups(e1, p2, t3);
    }
}

/// The parts of a valid publish operation read back.
proof fn operation_parts_read_back(v: PublishOperationRecordView, t: Seq<u8>)
    requires
        v.sized(),
        v.check() is Ok,
    ensures
        PublishOperationRecordView::parse_parts(v.encoding() + t) == Ok::<
            (PublishOperationRecordView, Seq<u8>),
            PublishFailure,
        >((v, t)),
{
    let format = seq![PUBLISH_VALUE_FORMAT_VERSION];
    let identity = v.identity.encoding();
    let ledger = v.ledger.encoding();
    let closure = v.closure.encoding();
    bytes::regroup_5(format, identity, ledger, closure, t);
    u8_reads_back(
        PUBLISH_VALUE_FORMAT_VERSION,
        identity + (ledger + (closure + t)),
        "value_format_version",
    );
    identity_reads_back(v.identity, ledger + (closure + t));
    ledger_reads_back(v.ledger, closure + t);
    closure_reads_back(v.closure, t);
}

/// Decoding the bytes of a valid publish operation gives it back; decoding
/// them with anything behind them, as far as the size bound allows, is refused.
pub proof fn publish_operation_reads_back(v: PublishOperationRecordView, extra: Seq<u8>)
    requires
        v.sized(),
        v.encode_check() is Ok,
        v.encoding().len() + extra.len() <= MAX_PUBLISH_OPERATION_RECORD_BYTES,
    ensures
        extra.len() == 0 ==> PublishOperationRecordView::parse(v.encoding() + extra) == Ok::<
            PublishOperationRecordView,
            PublishFailure,
        >(v),
        extra.len() > 0 ==> PublishOperationRecordView::parse(v.encoding() + extra) == Err::<
            PublishOperationRecordView,
            PublishFailure,
        >(PublishRecordError::TrailingBytes { count: extra.len() as usize }),
{
    operation_parts_read_back(v, extra);
}

/// Bytes that decode to a publish operation are exactly its encoding.
pub proof fn publish_operation_is_canonical(b: Seq<u8>)
    ensures
        PublishOperationRecordView::parse(b) matches Ok(v) ==> v.sized() && v.encode_check() is Ok
            && b == v.encoding(),
{
    if PublishOperationRecordView::parse(b) is Ok {
        let v = PublishOperationRecordView::parse(b)->Ok_0;
        u8_joins(b, "value_format_version");
        let b1 = publish_codec::parse_format(b)->Ok_0.1;
        identity_joins(b1);
        let b2 = PublishIdentityView::parse(b1)->Ok_0.1;
        ledger_joins(b2);
        let b3 = PublishLedgerView::parse(b2)->Ok_0.1;
        closure_joins(b3);
        let b4 = PublishClosureView::parse(b3)->Ok_0.1;
        bytes::regroup_5(
            seq![PUBLISH_VALUE_FORMAT_VERSION],
            v.identity.encoding(),
            v.ledger.encoding(),
            v.closure.encoding(),
            b4,
        );
        assert(b4 =~= Seq::<u8>::empty());
        assert(v.encoding() + b4 =~= v.encoding());
    }
}

/// The fields of a staged object read back.
proof fn staged_object_fields_read_back(v: StagedObjectRecordView, t: Seq<u8>)
    requires
        v.sized(),
        v.check() is Ok,
    ensures
        StagedObjectRecordView::parse_fields(v.encoding() + t) == Ok::<(StagedObjectRecordView, Seq<u8>), PublishFailure>((v, t)),
{
    let p1 = seq![PUBLISH_VALUE_FORMAT_VERSION];
    let p2 = v.artifact_revision_id;
    let p3 = bytes::be32(v.object_sequence);
    let p4 = records::length_prefixed(v.object_key);
    let p5 = publish_codec::optional_bytes(v.multipart_upload_id);
    let p6 = bytes::be64(v.expected_length);
    let p7 = records::length_prefixed(v.expected_digest_uri);
    let p8 = seq![v.provider_state.byte()];
    let p9 = seq![v.cleanup_state.byte()];
    let t10 = t;
    let t9 = p9 + t10;
    let t8 = p8 + t9;
    let t7 = p7 + t8;
    let t6 = p6 + t7;
    let t5 = p5 + t6;
    let t4 = p4 + t5;
    let t3 = p3 + t4;
    let t2 = p2 + t3;
    let e1 = p1;
    let e2 = e1 + p2;
    let e3 = e2 + p3;
    let e4 = e3 + p4;
    let e5 = e4 + p5;
    let e6 = e5 + p6;
    let e7 = e6 + p7;
    let e8 = e7 + p8;
    let e9 = e8 + p9;
    bytes::concat_regroups(e8, p9, t10);
    bytes::concat_regroups(e7, p8, t9);
    bytes::concat_regroups(e6, p7, t8);
    bytes::concat_regroups(e5, p6, t7);
    bytes::concat_regroups(e4, p5, t6);
    bytes::concat_regroups(e3, p4, t5);
    bytes::concat_regroups(e2, p3, t4);
    bytes::concat_regroups(e1, p2, t3);
    u8_reads_back(PUBLISH_VALUE_FORMAT_VERSION, t2, "value_format_version");
    take_first_part(v.artifact_revision_id, t3, "artifact_revision_id");
    u32_reads_back(v.object_sequence, t4, "object_sequence");
    text_reads_back(v.object_key, t5, "object_key", OBJECT_KEY_BYTES);
    optional_bytes_reads_back(v.multipart_upload_id, t6, "multipart_upload_id", MAX_MULTIPART_ID_BYTES);
    u64_reads_back(v.expected_length, t7, "expected_length");
    text_reads_back(v.expected_digest_uri, t8, "expected_digest_uri", MAX_DIGEST_URI_BYTES);
    u8_reads_back(v.provider_state.byte(), t9, "provider_state");
    u8_reads_back(v.cleanup_state.byte(), t10, "cleanup_state");
}

/// The fields of a staged object that were read are what the input starts with.
proof fn staged_object_fields_join(b: Seq<u8>)
    ensures
        StagedObjectRecordView::parse_fields(b) matches Ok((v, rest)) ==> v.sized() && b == v.encoding() + rest,
{
    if StagedObjectRecordView::parse_fields(b) is Ok {
        let v = StagedObjectRecordView::parse_fields(b)->Ok_0.0;
        let rest = StagedObjectRecordView::parse_fields(b)->Ok_0.1;
        u8_joins(b, "value_format_version");
        let b0 = publish_codec::parse_format(b)->Ok_0.1;
        take_parts_join(b0, "artifact_revision_id", 16);
        let b1 = publish_codec::take_field(b0, "artifact_revision_id", 16)->Ok_0.1;
        u32_joins(b1, "object_sequence");
        let b2 = publish_codec::parse_u32(b1, "object_sequence")->Ok_0.1;
        text_joins(b2, "object_key", OBJECT_KEY_BYTES);
        let b3 = publish_codec::parse_text(b2, "object_key", OBJECT_KEY_BYTES)->Ok_0.1;
        optional_bytes_joins(b3, "multipart_upload_id", MAX_MULTIPART_ID_BYTES);
        let b4 = publish_codec::parse_optional_bytes(b3, "multipart_upload_id", MAX_MULTIPART_ID_BYTES)->Ok_0.1;
        u64_joins(b4, "expected_length");
        let b5 = publish_codec::parse_u64(b4, "expected_length")->Ok_0.1;
        text_joins(b5, "expected_digest_uri", MAX_DIGEST_URI_BYTES);
        let b6 = publish_codec::parse_text(b5, "expected_digest_uri", MAX_DIGEST_URI_BYTES)->Ok_0.1;
        u8_joins(b6, "provider_state");
        let b7 = publish_codec::parse_provider_state(b6)->Ok_0.1;
        u8_joins(b7, "cleanup_state");
        let b8 = publish_codec::parse_cleanup_state(b7)->Ok_0.1;
        let p1 = seq![PUBLISH_VALUE_FORMAT_VERSION];
        let p2 = v.artifact_revision_id;
        let p3 = bytes::be32(v.object_sequence);
        let p4 = records::length_prefixed(v.object_key);
        let p5 = publish_codec::optional_bytes(v.multipart_upload_id);
        let p6 = bytes::be64(v.expected_length);
        let p7 = records::length_prefixed(v.expected_digest_uri);
        let p8 = seq![v.provider_state.byte()];
        let p9 = seq![v.cleanup_state.byte()];
        let t10 = rest;
        let t9 = p9 + t10;
        let t8 = p8 + t9;
        let t7 = p7 + t8;
        let t6 = p6 + t7;
        let t5 = p5 + t6;
        let t4 = p4 + t5;
        let t3 = p3 + t4;
        let t2 = p2 + t3;
        let e1 = p1;
        let e2 = e1 + p2;
        let e3 = e2 + p3;
        let e4 = e3 + p4;
        let e5 = e4 + p5;
        let e6 = e5 + p6;
        let e7 = e6 + p7;
        let e8 = e7 + p8;
        let e9 = e8 + p9;
        bytes::concat_regroups(e8, p9, t10);
        bytes::concat_regroups(e7, p8, t9);
        bytes::concat_regroups(e6, p7, t8);
        bytes::concat_regroups(e5, p6, t7);
        bytes::concat_regroups(e4, p5, t6);
        bytes::concat_regroups(e3, p4, t5);
        bytes::concat_regroups(e2, p3, t4);
        bytes::concat_regroups(e1, p2, t3);
    }
}

/// Decoding the bytes of a valid staged object gives it back; decoding them with
/// anything behind them, as far as the size bound allows, is refused.
pub proof fn staged_object_reads_back(v: StagedObjectRecordView, extra: Seq<u8>)
    requires
        v.sized(),
        v.encode_check() is Ok,
        v.encoding().len() + extra.len() <= MAX_STAGED_OBJECT_RECORD_BYTES,
    ensures
        extra.len() == 0 ==> StagedObjectRecordView::parse(v.encoding() + extra) == Ok::<StagedObjectRecordView, PublishFailure>(v),
        extra.len() > 0 ==> StagedObjectRecordView::parse(v.encoding() + extra) == Err::<StagedObjectRecordView, PublishFailure>(
            PublishRecordError::TrailingBytes { count: extra.len() as usize },
        ),
{
    staged_object_fields_read_back(v, extra);
}

/// Bytes that decode to a staged object are exactly its encoding.
pub proof fn staged_object_is_canonical(b: Seq<u8>)
    ensures
        StagedObjectRecordView::parse(b) matches Ok(v) ==> v.sized() && v.encode_check() is Ok && b == v.encoding(),
{
    staged_object_fields_join(b);
    if StagedObjectRecordView::parse(b) is Ok {
        let v = StagedObjectRecordView::parse(b)->Ok_0;
        assert(v.encoding() + Seq::<u8>::empty() =~= v.encoding());
        assert(StagedObjectRecordView::parse_fields(b)->Ok_0.1 =~= Seq::<u8>::empty());
    }
}

/// The fields of a manifest row read back.
proof fn manifest_row_fields_read_back(v: ArtifactManifestRowView, t: Seq<u8>)
    requires
        v.sized(),
        v.check() is Ok,
    ensures
        ArtifactManifestRowView::parse_fields(v.encoding() + t) == Ok::<(ArtifactManifestRowView, Seq<u8>), PublishFailure>((v, t)),
{
    let p1 = seq![PUBLISH_VALUE_FORMAT_VERSION];
    let p2 = v.physical_owner_revision_id;
    let p3 = bytes::be64(v.physical_object_index);
    let p4 = records::length_prefixed(v.object_key);
    let p5 = bytes::be64(v.logical_offset);
    let p6 = bytes::be64(v.offset);
    let p7 = bytes::be64(v.length);
    let p8 = records::length_prefixed(v.digest_uri);
    let p9 = publish_codec::append_segment(v.append_segment);
    let t10 = t;
    let t9 = p9 + t10;
    let t8 = p8 + t9;
    let t7 = p7 + t8;
    let t6 = p6 + t7;
    let t5 = p5 + t6;
    let t4 = p4 + t5;
    let t3 = p3 + t4;
    let t2 = p2 + t3;
    let e1 = p1;
    let e2 = e1 + p2;
    let e3 = e2 + p3;
    let e4 = e3 + p4;
    let e5 = e4 + p5;
    let e6 = e5 + p6;
    let e7 = e6 + p7;
    let e8 = e7 + p8;
    let e9 = e8 + p9;
    bytes::concat_regroups(e8, p9, t10);
    bytes::concat_regroups(e7, p8, t9);
    bytes::concat_regroups(e6, p7, t8);
    bytes::concat_regroups(e5, p6, t7);
    bytes::concat_regroups(e4, p5, t6);
    bytes::concat_regroups(e3, p4, t5);
    bytes::concat_regroups(e2, p3, t4);
    bytes::concat_regroups(e1, p2, t3);
    u8_reads_back(PUBLISH_VALUE_FORMAT_VERSION, t2, "value_format_version");
    take_first_part(v.physical_owner_revision_id, t3, "physical_owner_revision_id");
    u64_reads_back(v.physical_object_index, t4, "physical_object_index");
    text_reads_back(v.object_key, t5, "object_key", OBJECT_KEY_BYTES);
    u64_reads_back(v.logical_offset, t6, "logical_offset");
    u64_reads_back(v.offset, t7, "offset");
    u64_reads_back(v.length, t8, "length");
    text_reads_back(v.digest_uri, t9, "digest_uri", MAX_DIGEST_URI_BYTES);
    append_segment_reads_back(v.append_segment, t10);
}

/// The fields of a manifest row that were read are what the input starts with.
proof fn manifest_row_fields_join(b: Seq<u8>)
    ensures
        ArtifactManifestRowView::parse_fields(b) matches Ok((v, rest)) ==> v.sized() && b == v.encoding() + rest,
{
    if ArtifactManifestRowView::parse_fields(b) is Ok {
        let v = ArtifactManifestRowView::parse_fields(b)->Ok_0.0;
        let rest = ArtifactManifestRowView::parse_fields(b)->Ok_0.1;
        u8_joins(b, "value_format_version");
        let b0 = publish_codec::parse_format(b)->Ok_0.1;
        take_parts_join(b0, "physical_owner_revision_id", 16);
        let b1 = publish_codec::take_field(b0, "physical_owner_revision_id", 16)->Ok_0.1;
        u64_joins(b1, "physical_object_index");
        let b2 = publish_codec::parse_u64(b1, "physical_object_index")->Ok_0.1;
        text_joins(b2, "object_key", OBJECT_KEY_BYTES);
        let b3 = publish_codec::parse_text(b2, "object_key", OBJECT_KEY_BYTES)->Ok_0.1;
        u64_joins(b3, "logical_offset");
        let b4 = publish_codec::parse_u64(b3, "logical_offset")->Ok_0.1;
        u64_joins(b4, "offset");
        let b5 = publish_codec::parse_u64(b4, "offset")->Ok_0.1;
        u64_joins(b5, "length");
        let b6 = publish_codec::parse_u64(b5, "length")->Ok_0.1;
        text_joins(b6, "digest_uri", MAX_DIGEST_URI_BYTES);
        let b7 = publish_codec::parse_text(b6, "digest_uri", MAX_DIGEST_URI_BYTES)->Ok_0.1;
        append_segment_joins(b7);
        let b8 = publish_codec::parse_append_segment(b7)->Ok_0.1;
        let p1 = seq![PUBLISH_VALUE_FORMAT_VERSION];
        let p2 = v.physical_owner_revision_id;
        let p3 = bytes::be64(v.physical_object_index);
        let p4 = records::length_prefixed(v.object_key);
        let p5 = bytes::be64(v.logical_offset);
        let p6 = bytes::be64(v.offset);
        let p7 = bytes::be64(v.length);
        let p8 = records::length_prefixed(v.digest_uri);
        let p9 = publish_codec::append_segment(v.append_segment);
        let t10 = rest;
        let t9 = p9 + t10;
        let t8 = p8 + t9;
        let t7 = p7 + t8;
        let t6 = p6 + t7;
        let t5 = p5 + t6;
        let t4 = p4 + t5;
        let t3 = p3 + t4;
        let t2 = p2 + t3;
        let e1 = p1;
        let e2 = e1 + p2;
        let e3 = e2 + p3;
        let e4 = e3 + p4;
        let e5 = e4 + p5;
        let e6 = e5 + p6;
        let e7 = e6 + p7;
        let e8 = e7 + p8;
        let e9 = e8 + p9;
        bytes::concat_regroups(e8, p9, t10);
        bytes::concat_regroups(e7, p8, t9);
        bytes::concat_regroups(e6, p7, t8);
        bytes::concat_regroups(e5, p6, t7);
        bytes::concat_regroups(e4, p5, t6);
        bytes::concat_regroups(e3, p4, t5);
        bytes::concat_regroups(e2, p3, t4);
        bytes::concat_regroups(e1, p2, t3);
    }
}

/// Decoding the bytes of a valid manifest row gives it back; decoding them with
/// anything behind them, as far as the size bound allows, is refused.
pub proof fn manifest_row_reads_back(v: ArtifactManifestRowView, extra: Seq<u8>)
    requires
        v.sized(),
        v.encode_check() is Ok,
        v.encoding().len() + extra.len() <= MAX_MANIFEST_ROW_BYTES,
    ensures
        extra.len() == 0 ==> ArtifactManifestRowView::parse(v.encoding() + extra) == Ok::<ArtifactManifestRowView, PublishFailure>(v),
        extra.len() > 0 ==> ArtifactManifestRowView::parse(v.encoding() + extra) == Err::<ArtifactManifestRowView, PublishFailure>(
            PublishRecordError::TrailingBytes { count: extra.len() as usize },
        ),
{
    manifest_row_fields_read_back(v, extra);
}

/// Bytes that decode to a manifest row are exactly its encoding.
pub proof fn manifest_row_is_canonical(b: Seq<u8>)
    ensures
        ArtifactManifestRowView::parse(b) matches Ok(v) ==> v.sized() && v.encode_check() is Ok && b == v.encoding(),
{
    manifest_row_fields_join(b);
    if ArtifactManifestRowView::parse(b) is Ok {
        let v = ArtifactManifestRowView::parse(b)->Ok_0;
        assert(v.encoding() + Seq::<u8>::empty() =~= v.encoding());
        assert(ArtifactManifestRowView::parse_fields(b)->Ok_0.1 =~= Seq::<u8>::empty());
    }
}

/// The edges of the publish state machine that a transition may take.
pub open spec fn legal_edge(from: PublishPhase, to: PublishPhase) -> bool {
    match from {
        PublishPhase::Uploading => to is Finalizing || to is Aborting,
        PublishPhase::Finalizing => to is Published,
        PublishPhase::Aborting => to is Cleaning,
        PublishPhase::Cleaning => to is Cleaned || to is Quarantined,
        PublishPhase::Published => false,
        PublishPhase::Cleaned => false,
        PublishPhase::Quarantined => false,
    }
}

/// A transition that succeeds takes a legal edge from the observed phase to its
/// target, keeps the operation valid, and changes neither what the operation is
/// about nor its ledger, dependencies, or cleanup cursors.
pub proof fn transition_is_exact(
    v: PublishOperationRecordView,
    expected: PublishPhase,
    transition: PublishTransitionView,
)
    ensures
        v.step(expected, transition) matches Ok(next) ==> {
            &&& v.identity.phase == expected
            &&& next.identity.phase == transition.target_phase()
            &&& legal_edge(expected, next.identity.phase)
            &&& next.check() is Ok
            &&& next.identity == (PublishIdentityView { phase: next.identity.phase, ..v.identity })
            &&& next.ledger == v.ledger
            &&& next.closure == (PublishClosureView {
                result: next.closure.result,
                terminal_error: next.closure.terminal_error,
                ..v.closure
            })
        },
{
}

/// The terminal phases admit no transition at all.
pub proof fn terminal_phases_are_final(
    v: PublishOperationRecordView,
    transition: PublishTransitionView,
)
    requires
        v.identity.phase is Published || v.identity.phase is Cleaned
            || v.identity.phase is Quarantined,
    ensures
        forall|expected: PublishPhase| #[trigger] v.step(expected, transition) is Err,
{
}

/// From `Uploading`, finalization and abort exclude each other: once either
/// has been applied, the other is refused for the phase it observed.
pub proof fn finalizing_and_aborting_are_single_winner(
    v: PublishOperationRecordView,
    first: PublishTransitionView,
    second: PublishTransitionView,
)
    requires
        first.target_phase() is Finalizing || first.target_phase() is Aborting,
    ensures
        v.step(PublishPhase::Uploading, first) matches Ok(next) ==> next.step(
            PublishPhase::Uploading,
            second,
        ) == Err::<PublishOperationRecordView, PublishFailure>(
            PublishRecordError::PhaseMismatch {
                expected: PublishPhase::Uploading,
                actual: first.target_phase(),
            },
        ),
{
}

/// A takeover leads from `Finalizing` to `Aborting`, keeps the operation valid,
/// and retains the absence proof and the terminal error.
pub proof fn takeover_retains_absence_proof(
    v: PublishOperationRecordView,
    proof_digest: Seq<u8>,
    error: PublishTerminalErrorView,
)
    ensures
        v.taken_over(proof_digest, error) matches Ok(next) ==> {
            &&& v.identity.phase is Finalizing
            &&& next.identity.phase is Aborting
            &&& next.check() is Ok
            &&& next.closure.publication_absence_proof == Some(proof_digest)
            &&& next.closure.terminal_error == Some(error)
            &&& next.ledger == v.ledger
        },
        v.check() is Ok && v.identity.phase is Finalizing && error.check() is Ok ==> v.taken_over(
            proof_digest,
            error,
        ) is Ok,
{
}

/// A valid operation in `Uploading` whose closure is complete can be finalized,
/// and then published with any well-formed result.
pub proof fn complete_upload_can_be_published(
    v: PublishOperationRecordView,
    result: PublishResultView,
)
    requires
        v.check() is Ok,
        v.identity.phase is Uploading,
        v.complete_closure(),
        result.check() is Ok,
    ensures
        v.step(
            PublishPhase::Uploading,
            PublishTransitionView::BeginFinalization,
        ) matches Ok(finalizing) && finalizing.step(
            PublishPhase::Finalizing,
            PublishTransitionView::Publish { result },
        ) matches Ok(published) && published.closure.result == Some(result),
{
}

/// A valid operation in `Uploading` can always be aborted with a well-formed
/// error, and then cleaned.
pub proof fn upload_can_always_be_aborted(
    v: PublishOperationRecordView,
    error: PublishTerminalErrorView,
)
    requires
        v.check() is Ok,
        v.identity.phase is Uploading,
        error.check() is Ok,
    ensures
        v.step(
            PublishPhase::Uploading,
            PublishTransitionView::BeginAbort { terminal_error: error },
        ) matches Ok(aborting) && aborting.step(
            PublishPhase::Aborting,
            PublishTransitionView::BeginCleaning,
        ) matches Ok(cleaning) && cleaning.closure.terminal_error == Some(error),
{
}

/// A publish operation whose first byte is not the supported format version is refused.
pub proof fn publish_operation_refuses_other_versions(b: Seq<u8>)
    requires
        0 < b.len() <= MAX_PUBLISH_OPERATION_RECORD_BYTES,
        b[0] != PUBLISH_VALUE_FORMAT_VERSION,
    ensures
        PublishOperationRecordView::parse(b) == Err::<PublishOperationRecordView, PublishFailure>(
            PublishRecordError::UnsupportedValueVersion {
                actual: b[0],
                expected: PUBLISH_VALUE_FORMAT_VERSION,
            },
        ),
{
    reveal(publish_codec::take_field);
}

/// A staged object whose first byte is not the supported format version is refused.
pub proof fn staged_object_refuses_other_versions(b: Seq<u8>)
    requires
        0 < b.len() <= MAX_STAGED_OBJECT_RECORD_BYTES,
        b[0] != PUBLISH_VALUE_FORMAT_VERSION,
    ensures
        StagedObjectRecordView::parse(b) == Err::<StagedObjectRecordView, PublishFailure>(
            PublishRecordError::UnsupportedValueVersion {
                actual: b[0],
                expected: PUBLISH_VALUE_FORMAT_VERSION,
            },
        ),
{
    reveal(publish_codec::take_field);
}

/// A manifest row whose first byte is not the supported format version is refused.
pub proof fn manifest_row_refuses_other_versions(b: Seq<u8>)
    requires
        0 < b.len() <= MAX_MANIFEST_ROW_BYTES,
        b[0] != PUBLISH_VALUE_FORMAT_VERSION,
    ensures
        ArtifactManifestRowView::parse(b) == Err::<ArtifactManifestRowView, PublishFailure>(
            PublishRecordError::UnsupportedValueVersion {
                actual: b[0],
                expected: PUBLISH_VALUE_FORMAT_VERSION,
            },
        ),
{
    reveal(publish_codec::take_field);
}

} // verus!
