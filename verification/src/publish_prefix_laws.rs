//! Cut-off publication records are refused as truncated.
//!
//! Reading is settled by what was read: where a parser comes to a result before
//! its input ends, more input behind it changes nothing. So a proper prefix of a
//! valid encoding can neither be read nor be refused for any other reason.

use vstd::prelude::*;

use crate::publish_codec;
use crate::publish_codec::Parsed;
use crate::publish_laws;
use crate::publish_records::{PublishFailure, PublishRecordError};
use crate::publish_validate::{
    ArtifactManifestRowView, PublishAuthorityView, PublishClaimView, PublishClosureView,
    PublishIdentityView, PublishLedgerView, PublishOperationRecordView, StagedObjectRecordView,
};

verus! {

/// The input ended before the value did.
pub open spec fn is_truncated<V>(result: Result<V, PublishFailure>) -> bool {
    result matches Err(PublishRecordError::Truncated { .. })
}

/// A result on some input, and that on the input with more behind it: only a
/// truncated input can come to something else.
pub open spec fn settled<V>(short: Parsed<V>, long: Parsed<V>, more: Seq<u8>) -> bool {
    match short {
        Ok((value, rest)) => long == Ok::<(V, Seq<u8>), PublishFailure>((value, rest + more)),
        Err(e) => is_truncated(short) || long == Err::<(V, Seq<u8>), PublishFailure>(e),
    }
}

/// Splitting off a field is settled by the field.
broadcast proof fn fields_are_settled(b: Seq<u8>, more: Seq<u8>, field: &'static str, width: nat)
    ensures
        settled(
            publish_codec::take_field(b, field, width),
            #[trigger] publish_codec::take_field(b + more, field, width),
            more,
        ),
{
    reveal(publish_codec::take_field);
    if b.len() >= width {
        assert((b + more).take(width as int) =~= b.take(width as int));
        assert((b + more).skip(width as int) =~= b.skip(width as int) + more);
    }
}

/// Reading an authority is settled by the authority.
broadcast proof fn authorities_are_settled(b: Seq<u8>, more: Seq<u8>)
    ensures
        settled(PublishAuthorityView::parse(b), #[trigger] PublishAuthorityView::parse(b + more), more),
{
    broadcast use fields_are_settled;

}

/// Reading a claim is settled by the claim.
broadcast proof fn claims_are_settled(b: Seq<u8>, more: Seq<u8>)
    ensures
        settled(PublishClaimView::parse(b), #[trigger] PublishClaimView::parse(b + more), more),
{
    broadcast use fields_are_settled;

}

/// Reading an optional result is settled by the result.
broadcast proof fn results_are_settled(b: Seq<u8>, more: Seq<u8>)
    ensures
        settled(
            publish_codec::parse_optional_result(b),
            #[trigger] publish_codec::parse_optional_result(b + more),
            more,
        ),
{
    broadcast use fields_are_settled;

}

/// Reading an optional terminal error is settled by the error.
broadcast proof fn errors_are_settled(b: Seq<u8>, more: Seq<u8>)
    ensures
        settled(
            publish_codec::parse_optional_terminal_error(b),
            #[trigger] publish_codec::parse_optional_terminal_error(b + more),
            more,
        ),
{
    broadcast use fields_are_settled;

}

/// Reading the identity of an operation is settled by the identity.
broadcast proof fn identities_are_settled(b: Seq<u8>, more: Seq<u8>)
    ensures
        settled(PublishIdentityView::parse(b), #[trigger] PublishIdentityView::parse(b + more), more),
{
    broadcast use fields_are_settled;
    broadcast use authorities_are_settled;
    broadcast use claims_are_settled;

}

/// Reading the ledger of an operation is settled by the ledger.
broadcast proof fn ledgers_are_settled(b: Seq<u8>, more: Seq<u8>)
    ensures
        settled(PublishLedgerView::parse(b), #[trigger] PublishLedgerView::parse(b + more), more),
{
    broadcast use fields_are_settled;

}

/// Reading the closure of an operation is settled by the closure.
broadcast proof fn closures_are_settled(b: Seq<u8>, more: Seq<u8>)
    ensures
        settled(PublishClosureView::parse(b), #[trigger] PublishClosureView::parse(b + more), more),
{
    broadcast use fields_are_settled;
    broadcast use results_are_settled;
    broadcast use errors_are_settled;

}

/// A proper prefix and what it lacks make up the encoding.
proof fn prefix_is_completed(b: Seq<u8>, n: int)
    requires
        0 <= n < b.len(),
    ensures
        b == b.take(n) + b.skip(n),
        b.skip(n).len() > 0,
        b + Seq::<u8>::empty() == b,
{
    assert(b =~= b.take(n) + b.skip(n));
    assert(b + Seq::<u8>::empty() =~= b);
}

/// Every proper prefix of a valid publish operation is refused as truncated.
pub proof fn publish_operation_prefix_is_truncated(v: PublishOperationRecordView, n: int)
    requires
        v.sized(),
        v.encode_check() is Ok,
        0 <= n < v.encoding().len(),
    ensures
        is_truncated(PublishOperationRecordView::parse(v.encoding().take(n))),
{
    let b = v.encoding().take(n);
    let more = v.encoding().skip(n);
    prefix_is_completed(v.encoding(), n);
    publish_laws::publish_operation_reads_back(v, Seq::empty());
    assert(settled(
        PublishOperationRecordView::parse_parts(b),
        PublishOperationRecordView::parse_parts(b + more),
        more,
    )) by {
        broadcast use fields_are_settled;
        broadcast use identities_are_settled;
        broadcast use ledgers_are_settled;
        broadcast use closures_are_settled;

    }
}

/// Every proper prefix of a valid staged object is refused as truncated.
pub proof fn staged_object_prefix_is_truncated(v: StagedObjectRecordView, n: int)
    requires
        v.sized(),
        v.encode_check() is Ok,
        0 <= n < v.encoding().len(),
    ensures
        is_truncated(StagedObjectRecordView::parse(v.encoding().take(n))),
{
    let b = v.encoding().take(n);
    let more = v.encoding().skip(n);
    prefix_is_completed(v.encoding(), n);
    publish_laws::staged_object_reads_back(v, Seq::empty());
    assert(settled(
        StagedObjectRecordView::parse_fields(b),
        StagedObjectRecordView::parse_fields(b + more),
        more,
    )) by {
        broadcast use fields_are_settled;

    }
}

/// Every proper prefix of a valid manifest row is refused as truncated.
pub proof fn manifest_row_prefix_is_truncated(v: ArtifactManifestRowView, n: int)
    requires
        v.sized(),
        v.encode_check() is Ok,
        0 <= n < v.encoding().len(),
    ensures
        is_truncated(ArtifactManifestRowView::parse(v.encoding().take(n))),
{
    let b = v.encoding().take(n);
    let more = v.encoding().skip(n);
    prefix_is_completed(v.encoding(), n);
    publish_laws::manifest_row_reads_back(v, Seq::empty());
    assert(settled(
        ArtifactManifestRowView::parse_fields(b),
        ArtifactManifestRowView::parse_fields(b + more),
        more,
    )) by {
        broadcast use fields_are_settled;

    }
}

} // verus!
