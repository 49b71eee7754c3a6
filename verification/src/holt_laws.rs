//! What the Holt provider does with plans, commits, scans and stores: which
//! plans it takes, what a commit is reported as, and which entries a scan
//! shows.

use vstd::prelude::*;

use crate::bytes;
use crate::holt_provider;
use crate::holt_provider::{HoltScanRunView, ProviderRequirements};
use crate::provider::{
    AtomicOpView, ProviderErrorKind, ProviderInstanceToken, ProviderOperationV1,
    ProviderScanItemView, ProviderScanView, ProviderTransactionModel, ProviderVersionModel,
    ReadScopeView, ReadWitnessView,
};
use crate::provider_catalog;

verus! {

/// A provider takes the atomic batches over all spaces that metadata needs,
/// with keys and values of at most 65535 bytes, batches of at most 4294967295
/// bytes, and as many operations and bytes of a plan as are required of it;
/// what it reads is consistent, and its scans and views have no limit.
pub proof fn capabilities_meet_the_requirements(requirements: ProviderRequirements)
    ensures
        ({
            let offer = holt_provider::capabilities_of(requirements);
            &&& offer.transaction_model == ProviderTransactionModel::CrossSpaceAtomicBatch
            &&& offer.version_model == ProviderVersionModel::OpaqueRecordWitness
            &&& offer.consistent_cross_space_reads
            &&& offer.all_ambiguous_commit_outcomes_settled_before_return
            &&& offer.commit_resolution_reads_causally_current
            &&& offer.exclusive_scan_start_after
            &&& offer.consistent_snapshot_scans
            &&& offer.max_key_bytes == 65535
            &&& offer.max_value_bytes == 65535
            &&& offer.max_transaction_bytes == 4294967295
            &&& offer.max_atomic_operations == requirements.max_atomic_operations
            &&& offer.max_logical_plan_bytes == requirements.max_logical_plan_bytes
            &&& offer.max_read_view_duration_ms is None
            &&& offer.max_scan_items is None
        }),
{
}

/// A witness shows a version exactly when this provider issued it over the
/// eight bytes of one, and then it shows that version.
pub proof fn witnesses_show_their_version(
    token: ProviderInstanceToken,
    witness: ReadWitnessView,
    version: u64,
)
    ensures
        holt_provider::version_of(token, witness) is Ok <==> witness.issuer == token
            && witness.version.len() == 8,
        witness.issuer == token && witness.version == bytes::be64(version)
            ==> holt_provider::version_of(token, witness) == Ok::<
            u64,
            crate::provider::ProviderFailure,
        >(version),
        witness.issuer != token ==> holt_provider::version_of(token, witness)->Err_0.kind
            == ProviderErrorKind::AuthorityMismatch,
{
    bytes::be64_reads_back(version);
}

/// The bytes that a batch affects are 32 for each operation and its key and
/// value; a guard over a version takes the eight bytes of the version, and one
/// over an absent record the key again and a byte.
pub proof fn plans_are_charged_by_operation(operations: Seq<AtomicOpView>, op: AtomicOpView)
    ensures
        holt_provider::affected(Seq::empty()) == 0,
        holt_provider::affected(operations.push(op)) == holt_provider::affected(operations) + 32 + (
        match op {
            AtomicOpView::AssertUnchanged { key, .. } => (key.len() + 8) as int,
            AtomicOpView::AssertAbsent { key, .. } => (key.len() + key.len() + 1) as int,
            AtomicOpView::AssertPrefixEmpty { prefix, .. } => prefix.len() as int,
            AtomicOpView::Put { key, value, .. } => (key.len() + value.len()) as int,
            AtomicOpView::PutIfAbsent { key, value, .. } => (key.len() + value.len()) as int,
            AtomicOpView::CompareAndPut { key, value, .. } => (key.len() + value.len()) as int,
            AtomicOpView::Delete { key, .. } => key.len() as int,
        }),
{
    assert(operations.push(op).drop_last() =~= operations);
}

/// A plan may hold an operation: its space is known, its key and value have at
/// most 65535 bytes, and its witness is one of this provider over a version.
pub open spec fn is_admissible(op: AtomicOpView, token: ProviderInstanceToken) -> bool {
    match op {
        AtomicOpView::AssertUnchanged { space, key, witness } => provider_catalog::is_space(space)
            && key.len() <= 65535 && witness.issuer == token && witness.version.len() == 8,
        AtomicOpView::AssertAbsent { space, key } => provider_catalog::is_space(space)
            && key.len() <= 65535,
        AtomicOpView::AssertPrefixEmpty { space, prefix } => provider_catalog::is_space(space)
            && prefix.len() <= 65535,
        AtomicOpView::Put { space, key, value } => provider_catalog::is_space(space) && key.len()
            <= 65535 && value.len() <= 65535,
        AtomicOpView::PutIfAbsent { space, key, value } => provider_catalog::is_space(space)
            && key.len() <= 65535 && value.len() <= 65535,
        AtomicOpView::CompareAndPut { space, key, witness, value } => provider_catalog::is_space(
            space,
        ) && key.len() <= 65535 && value.len() <= 65535 && witness.issuer == token
            && witness.version.len() == 8,
        AtomicOpView::Delete { space, key } => provider_catalog::is_space(space) && key.len()
            <= 65535,
    }
}

proof fn operations_from(operations: Seq<AtomicOpView>, token: ProviderInstanceToken, i: int)
    requires
        0 <= i <= operations.len(),
    ensures
        holt_provider::operations_check(operations, token, i) is Ok <==> (forall|k: int|
            i <= k < operations.len() ==> is_admissible(#[trigger] operations[k], token)),
    decreases operations.len() - i,
{
    if i < operations.len() {
        operations_from(operations, token, i + 1);
    }
}

/// A plan is taken exactly when it affects at most 4294967295 bytes and each
/// of its operations may stand in a plan.
pub proof fn plans_are_taken_within_their_limits(
    operations: Seq<AtomicOpView>,
    token: ProviderInstanceToken,
)
    requires
        usize::BITS == 64,
    ensures
        holt_provider::plan_check(operations, token) is Ok <==> {
            &&& holt_provider::affected(operations) <= 4294967295
            &&& forall|k: int|
                0 <= k < operations.len() ==> is_admissible(#[trigger] operations[k], token)
        },
{
    operations_from(operations, token, 0);
}

/// A commit is reported as committed or as a conflict exactly when the engine
/// said so and the runtime was valid behind it; otherwise it is not known
/// whether it happened, and it is no longer in flight.
pub proof fn commits_are_reported_as_they_ended(committed: Option<bool>, runtime_valid: bool)
    ensures
        holt_provider::settled(committed, runtime_valid) matches Ok(outcome) ==> runtime_valid
            && committed == Some(outcome is Committed),
        holt_provider::settled(committed, runtime_valid) is Ok <==> runtime_valid
            && committed is Some,
        holt_provider::settled(committed, runtime_valid) matches Err(failure) ==> failure.kind
            == ProviderErrorKind::UnknownCommitSettled && failure.operation
            == ProviderOperationV1::Commit,
{
}

/// A scan that was given entries one after the other.
pub open spec fn given(run: HoltScanRunView, entries: Seq<ProviderScanItemView>) -> HoltScanRunView
    decreases entries.len(),
{
    if entries.len() == 0 {
        run
    } else {
        given(run, entries.drop_last()).accepted(entries.last())
    }
}

/// An entry lies behind the cursor of a scan.
pub open spec fn lies_behind(request: ProviderScanView, entry: ProviderScanItemView) -> bool {
    match (request.start_after, entry) {
        (None, _) => true,
        (Some(cursor), ProviderScanItemView::Key { key, .. }) => bytes::lex_less(cursor, key),
        (Some(cursor), ProviderScanItemView::CommonPrefix(prefix)) => bytes::lex_less(
            cursor,
            prefix,
        ),
    }
}

/// The entries behind the cursor of a scan, in their order.
pub open spec fn entries_behind(
    request: ProviderScanView,
    entries: Seq<ProviderScanItemView>,
) -> Seq<ProviderScanItemView> {
    entries.filter(|entry: ProviderScanItemView| lies_behind(request, entry))
}

/// A scan shows, of the entries that it was given, those behind its cursor, in
/// their order, all of them without a limit, and otherwise the first ones up
/// to the limit.
pub proof fn scans_show_the_entries_behind_the_cursor(
    run: HoltScanRunView,
    entries: Seq<ProviderScanItemView>,
)
    requires
        run.items.len() == 0,
    ensures
        given(run, entries).request == run.request,
        run.request.limit == 0 ==> given(run, entries).items == entries_behind(
            run.request,
            entries,
        ),
        0 < run.request.limit ==> given(run, entries).items == entries_behind(
            run.request,
            entries,
        ).take(
            if entries_behind(run.request, entries).len() <= run.request.limit {
                entries_behind(run.request, entries).len() as int
            } else {
                run.request.limit as int
            },
        ),
    decreases entries.len(),
{
    reveal(Seq::filter);
    let all = entries_behind(run.request, entries);
    if entries.len() == 0 {
        assert(all =~= Seq::empty());
        assert(run.items =~= Seq::empty());
    } else {
        let before = given(run, entries.drop_last());
        let seen = entries_behind(run.request, entries.drop_last());
        scans_show_the_entries_behind_the_cursor(run, entries.drop_last());
        if lies_behind(run.request, entries.last()) {
            assert(all =~= seen.push(entries.last()));
        } else {
            assert(all =~= seen);
        }
        assert(before.accepted(entries.last()).items =~= given(run, entries).items);
        if run.request.limit == 0 {
            assert(given(run, entries).items =~= all);
        } else {
            let n: int = if all.len() <= run.request.limit {
                all.len() as int
            } else {
                run.request.limit as int
            };
            assert(given(run, entries).items =~= all.take(n));
        }
    }
}

proof fn scopes_from(scopes: Seq<ReadScopeView>, i: int)
    requires
        0 <= i <= scopes.len(),
    ensures
        holt_provider::scopes_check(scopes, i) is Ok <==> (forall|k: int|
            i <= k < scopes.len() ==> provider_catalog::is_space((#[trigger] scopes[k]).space)
                && scopes[k].prefix.len() <= 65535),
    decreases scopes.len() - i,
{
    if i < scopes.len() {
        scopes_from(scopes, i + 1);
    }
}

/// Reads are admitted exactly when their prefixes and cursors have at most
/// 65535 bytes and the spaces of a view are known.
pub proof fn reads_are_admitted_within_their_limits(
    scopes: Seq<ReadScopeView>,
    request: ProviderScanView,
)
    ensures
        holt_provider::scopes_check(scopes, 0) is Ok <==> (forall|k: int|
            0 <= k < scopes.len() ==> provider_catalog::is_space((#[trigger] scopes[k]).space)
                && scopes[k].prefix.len() <= 65535),
        holt_provider::scan_check(request) is Ok <==> request.prefix.len() <= 65535 && (
        request.start_after matches Some(cursor) ==> cursor.len() <= 65535),
{
    scopes_from(scopes, 0);
}

proof fn occurrences_are_counted(names: Seq<Seq<u8>>, name: Seq<u8>)
    ensures
        holt_provider::occurrences(names, name) == names.to_multiset().count(name),
    decreases names.len(),
{
    broadcast use vstd::multiset::group_multiset_axioms;
    broadcast use vstd::seq_lib::group_to_multiset_ensures;

    if names.len() > 0 {
        occurrences_are_counted(names.drop_last(), name);
        assert(names =~= names.drop_last().push(names.last()));
        assert(names.to_multiset() =~= names.drop_last().to_multiset().insert(names.last()));
    } else {
        assert(names.to_multiset().len() == 0);
    }
}

/// Two registries hold the same trees exactly when they are equal as
/// multisets: the order of the trees is free, and nothing more is.
pub proof fn registries_are_compared_without_order(a: Seq<Seq<u8>>, b: Seq<Seq<u8>>)
    ensures
        holt_provider::same_names(a, b) <==> a.to_multiset() =~= b.to_multiset(),
{
    broadcast use vstd::multiset::group_multiset_axioms;

    assert forall|name: Seq<u8>| #[trigger]
        holt_provider::occurrences(a, name) == a.to_multiset().count(name)
            && holt_provider::occurrences(b, name) == b.to_multiset().count(name) by {
        occurrences_are_counted(a, name);
        occurrences_are_counted(b, name);
    }
    if holt_provider::same_names(a, b) {
        assert forall|name: Seq<u8>| a.to_multiset().count(name) == b.to_multiset().count(name) by {
            assert(holt_provider::occurrences(a, name) == holt_provider::occurrences(b, name));
        }
        assert(a.to_multiset() =~= b.to_multiset());
    }
}

/// The registry of the schema has a tree for each ordered space, under the
/// name of that space.
pub proof fn registries_have_a_tree_for_each_space(space: crate::provider_catalog::OrderedSpaceId)
    requires
        provider_catalog::is_space(space),
    ensures
        holt_provider::schema_trees().len() == provider_catalog::space_ids().len(),
        provider_catalog::tree_of(space) is Some ==> holt_provider::schema_trees().contains(
            bytes::utf8(provider_catalog::tree_of(space)->Some_0@),
        ),
{
    let i = choose|i: int|
        0 <= i < provider_catalog::space_ids().len() && provider_catalog::space_ids()[i] == space;
    assert(holt_provider::schema_trees()[i] == bytes::utf8(
        provider_catalog::tree_of(space)->Some_0@,
    ));
}

/// A text stands somewhere in a description.
pub open spec fn mentions(description: Seq<u8>, text: Seq<char>) -> bool {
    exists|i: int|
        0 <= i && i + bytes::utf8(text).len() <= description.len() && #[trigger] description.subrange(
            i,
            i + bytes::utf8(text).len(),
        ) == bytes::utf8(text)
}

/// An operation is told by the first of these that its description mentions: a
/// commit or transaction, a scan, a view, a read or prefix, a creation, an
/// opening, a schema or tree; otherwise it is one of the runtime.
pub proof fn operations_are_told_by_their_description(description: Seq<u8>)
    ensures
        ({
            let told = holt_provider::operation_of(description);
            let commits = mentions(description, "commit"@) || mentions(
                description,
                "transaction"@,
            );
            let scans = mentions(description, "scan"@);
            let views = mentions(description, "read view"@) || mentions(
                description,
                "begin metadata read"@,
            );
            let reads = mentions(description, "read"@) || mentions(description, "prefix"@);
            let creates = mentions(description, "create"@) || mentions(description, "fresh"@);
            let opens = mentions(description, "open"@) || mentions(description, "reopen"@);
            let inspects = mentions(description, "schema"@) || mentions(description, "tree"@);
            &&& commits <==> told == ProviderOperationV1::Commit
            &&& !commits && scans <==> told == ProviderOperationV1::Scan
            &&& !commits && !scans && views <==> told == ProviderOperationV1::BeginRead
            &&& !commits && !scans && !views && reads <==> told == ProviderOperationV1::ReadRecord
            &&& !commits && !scans && !views && !reads && creates <==> told
                == ProviderOperationV1::Create
            &&& !commits && !scans && !views && !reads && !creates && opens <==> told
                == ProviderOperationV1::Reopen
            &&& !commits && !scans && !views && !reads && !creates && !opens && inspects <==> told
                == ProviderOperationV1::InspectSchema
        }),
{
}

} // verus!
