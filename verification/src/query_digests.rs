//! Digests that tie a cursor to its request.
//!
//! Each digest is the SHA-256 digest of a message that spells out everything
//! in the request that decides the order of its results. The cursor itself and
//! the page limit are no part of it.

use vstd::prelude::*;

use crate::bytes;
use crate::digest;
use crate::ids::RootId;
use crate::names::{NormalizedRelativePath, QueryFieldId};
use crate::query_cursor;
use crate::query_types::{
    AggregateFunction, AggregateRequest, AggregateRequestView, AggregateSpec, AggregateSpecView,
    CatalogRequest, CatalogRequestView, ChangePageRequest, ChangePageRequestView, CommittedFilter,
    FindWorkspacesRequest, FindWorkspacesRequestView, QueryOperand, QueryOperandView,
    QueryOperator, QueryPredicate, QueryPredicateView, QueryScope, QueryScopeView, QuerySort,
    QuerySortDirection, QuerySortView, SearchRequest, SearchRequestView,
};
use crate::scalars::{QueryScalar, QueryScalarView};
use crate::sorted_maps;
use crate::sorted_maps::ScalarSet;
use crate::store_records;

verus! {

/// Digest domain of searches.
pub open spec fn search_domain() -> Seq<u8> {
    bytes::utf8("nokv.query.search.v1"@) + seq![0u8]
}

/// Digest domain of aggregates.
pub open spec fn aggregate_domain() -> Seq<u8> {
    bytes::utf8("nokv.query.aggregate.v1"@) + seq![0u8]
}

/// Digest domain of catalogs.
pub open spec fn catalog_domain() -> Seq<u8> {
    bytes::utf8("nokv.query.catalog.v1"@) + seq![0u8]
}

/// Digest domain of workspace discovery.
pub open spec fn find_domain() -> Seq<u8> {
    bytes::utf8("nokv.query.find-workspaces.v1"@) + seq![0u8]
}

/// Digest domain of change pages.
pub open spec fn change_domain() -> Seq<u8> {
    bytes::utf8("nokv.query.changes.v2"@) + seq![0u8]
}

impl QueryOperator {
    /// Byte of this operator in a message.
    pub open spec fn byte(self) -> u8 {
        match self {
            Self::Equal => 1,
            Self::NotEqual => 2,
            Self::Less => 3,
            Self::LessOrEqual => 4,
            Self::Greater => 5,
            Self::GreaterOrEqual => 6,
            Self::Prefix => 7,
            Self::Contains => 8,
            Self::Exists => 9,
            Self::In => 10,
            Self::Suffix => 11,
            Self::NotExists => 12,
        }
    }

    /// Byte of this operator in a message.
    pub fn to_byte(self) -> (value: u8)
        ensures
            value == self.byte(),
    {
        match self {
            Self::Equal => 1,
            Self::NotEqual => 2,
            Self::Less => 3,
            Self::LessOrEqual => 4,
            Self::Greater => 5,
            Self::GreaterOrEqual => 6,
            Self::Prefix => 7,
            Self::Contains => 8,
            Self::Exists => 9,
            Self::In => 10,
            Self::Suffix => 11,
            Self::NotExists => 12,
        }
    }
}

impl QuerySortDirection {
    /// Byte of this direction in a message.
    pub open spec fn byte(self) -> u8 {
        match self {
            Self::Ascending => 1,
            Self::Descending => 2,
        }
    }
}

impl AggregateFunction {
    /// Byte of this function in a message.
    pub open spec fn byte(self) -> u8 {
        match self {
            Self::Count => 1,
            Self::Sum => 2,
            Self::Average => 3,
            Self::Minimum => 4,
            Self::Maximum => 5,
        }
    }

    /// Byte of this function in a message.
    pub fn to_byte(self) -> (value: u8)
        ensures
            value == self.byte(),
    {
        match self {
            Self::Count => 1,
            Self::Sum => 2,
            Self::Average => 3,
            Self::Minimum => 4,
            Self::Maximum => 5,
        }
    }
}

impl CommittedFilter {
    /// Byte of this filter in a message.
    pub open spec fn byte(self) -> u8 {
        match self {
            Self::Any => 1,
            Self::Committed => 2,
            Self::Uncommitted => 3,
        }
    }
}

/// Message part of a scope.
pub open spec fn scope_part(scope: QueryScopeView) -> Seq<u8> {
    match scope {
        QueryScopeView::Root => seq![1u8],
        QueryScopeView::Workspace(workbench_id) => seq![2u8] + digest::framed(workbench_id),
    }
}

/// Message part of an optional byte string.
pub open spec fn optional_part(value: Option<Seq<u8>>) -> Seq<u8> {
    match value {
        None => seq![0u8],
        Some(value) => seq![1u8] + digest::framed(value),
    }
}

/// Message part of the members of a set.
pub open spec fn members_part(members: Seq<QueryScalarView>) -> Seq<u8>
    decreases members.len(),
{
    if members.len() == 0 {
        Seq::empty()
    } else {
        digest::framed(query_cursor::scalar_bytes(members[0])) + members_part(
            members.drop_first(),
        )
    }
}

/// Message part of an operand.
pub open spec fn operand_part(operand: QueryOperandView) -> Seq<u8> {
    match operand {
        QueryOperandView::Absent => seq![0u8],
        QueryOperandView::Scalar(value) => seq![1u8] + digest::framed(
            query_cursor::scalar_bytes(value),
        ),
        QueryOperandView::Members(members) => seq![2u8] + (bytes::be64(members.len() as u64)
            + members_part(members)),
    }
}

/// Message part of one predicate.
pub open spec fn predicate_part(predicate: QueryPredicateView) -> Seq<u8> {
    digest::framed(predicate.field_id) + (seq![predicate.operator.byte()] + operand_part(
        predicate.operand,
    ))
}

/// Message part of the predicates in order.
pub open spec fn predicates_body(predicates: Seq<QueryPredicateView>) -> Seq<u8>
    decreases predicates.len(),
{
    if predicates.len() == 0 {
        Seq::empty()
    } else {
        predicate_part(predicates[0]) + predicates_body(predicates.drop_first())
    }
}

/// Message part of a counted list of predicates.
pub open spec fn predicates_part(predicates: Seq<QueryPredicateView>) -> Seq<u8> {
    bytes::be64(predicates.len() as u64) + predicates_body(predicates)
}

/// Message part of the fields in order.
pub open spec fn fields_body(fields: Seq<Seq<u8>>) -> Seq<u8>
    decreases fields.len(),
{
    if fields.len() == 0 {
        Seq::empty()
    } else {
        digest::framed(fields[0]) + fields_body(fields.drop_first())
    }
}

/// Message part of a counted list of fields.
pub open spec fn fields_part(fields: Seq<Seq<u8>>) -> Seq<u8> {
    bytes::be64(fields.len() as u64) + fields_body(fields)
}

/// Message part of the sorts in order.
pub open spec fn sort_body(sort: Seq<QuerySortView>) -> Seq<u8>
    decreases sort.len(),
{
    if sort.len() == 0 {
        Seq::empty()
    } else {
        digest::framed(sort[0].field_id) + (seq![sort[0].direction.byte()] + sort_body(
            sort.drop_first(),
        ))
    }
}

/// Message part of a counted list of sorts.
pub open spec fn sort_part(sort: Seq<QuerySortView>) -> Seq<u8> {
    bytes::be64(sort.len() as u64) + sort_body(sort)
}

/// Message part of one aggregate.
pub open spec fn aggregate_part(aggregate: AggregateSpecView) -> Seq<u8> {
    digest::framed(aggregate.result_id) + (seq![aggregate.function.byte()] + optional_part(
        aggregate.field_id,
    ))
}

/// Message part of the aggregates in order.
pub open spec fn aggregates_body(aggregates: Seq<AggregateSpecView>) -> Seq<u8>
    decreases aggregates.len(),
{
    if aggregates.len() == 0 {
        Seq::empty()
    } else {
        aggregate_part(aggregates[0]) + aggregates_body(aggregates.drop_first())
    }
}

/// Message part of a counted list of aggregates.
pub open spec fn aggregates_part(aggregates: Seq<AggregateSpecView>) -> Seq<u8> {
    bytes::be64(aggregates.len() as u64) + aggregates_body(aggregates)
}

impl SearchRequestView {
    /// The message that identifies this request.
    pub open spec fn message(self) -> Seq<u8> {
        search_domain() + (scope_part(self.scope) + (optional_part(self.path_prefix) + (
        predicates_part(self.predicates) + (fields_part(self.projection) + (sort_part(self.sort)
            + fields_part(self.facets))))))
    }

    /// Every operand fits the message.
    pub open spec fn operands_fit(self) -> bool {
        predicates_fit(self.predicates)
    }
}

impl AggregateRequestView {
    /// The message that identifies this request.
    pub open spec fn message(self) -> Seq<u8> {
        aggregate_domain() + (scope_part(self.scope) + (optional_part(self.path_prefix) + (
        predicates_part(self.predicates) + (fields_part(self.group_by) + (aggregates_part(
            self.aggregates,
        ) + sort_part(self.sort))))))
    }

    /// Every operand fits the message.
    pub open spec fn operands_fit(self) -> bool {
        predicates_fit(self.predicates)
    }
}

impl CatalogRequestView {
    /// The message that identifies this request.
    pub open spec fn message(self) -> Seq<u8> {
        catalog_domain() + (scope_part(self.scope) + (optional_part(self.path_prefix)
            + optional_part(self.field_prefix)))
    }
}

impl FindWorkspacesRequestView {
    /// The message that identifies this request.
    pub open spec fn message(self) -> Seq<u8> {
        find_domain() + seq![self.committed.byte()]
    }
}

/// Message part of an optional version.
pub open spec fn version_part(version: Option<u64>) -> Seq<u8> {
    match version {
        None => seq![0u8],
        Some(version) => seq![1u8] + bytes::be64(version),
    }
}

impl ChangePageRequestView {
    /// The message that identifies this request under one root.
    pub open spec fn message(self, root_id: Seq<u8>) -> Seq<u8> {
        change_domain() + (root_id + (scope_part(self.scope) + version_part(
            self.after_commit_version,
        )))
    }
}

/// The length of every text and byte operand fits a 32-bit prefix.
pub open spec fn operand_fits(operand: QueryOperandView) -> bool {
    match operand {
        QueryOperandView::Absent => true,
        QueryOperandView::Scalar(value) => query_cursor::scalar_fits(value),
        QueryOperandView::Members(members) => members_fit(members),
    }
}

/// The length of every text and byte member fits a 32-bit prefix.
pub open spec fn members_fit(members: Seq<QueryScalarView>) -> bool {
    forall|i: int| 0 <= i < members.len() ==> query_cursor::scalar_fits(#[trigger] members[i])
}

/// Whether the length of every text and byte member fits a 32-bit prefix.
fn all_members_fit(members: &ScalarSet) -> (fit: bool)
    ensures
        fit == members_fit(members@),
{
    let values = members.values();
    let mut k: usize = 0;
    while k < values.len()
        invariant
            k <= values@.len(),
            sorted_maps::scalar_views(values@) == members@,
            forall|j: int| 0 <= j < k ==> query_cursor::scalar_fits(#[trigger] members@[j]),
        decreases values@.len() - k,
    {
        assert(members@[k as int] == values@[k as int]@);
        if !query_cursor::fits_cursor(&values[k]) {
            assert(k < members@.len());
            assert(!query_cursor::scalar_fits(members@[k as int]));
            return false;
        }
        k = k + 1;
    }
    true
}

/// Every operand of the predicates fits the message.
pub open spec fn predicates_fit(predicates: Seq<QueryPredicateView>) -> bool {
    forall|i: int| 0 <= i < predicates.len() ==> operand_fits((#[trigger] predicates[i]).operand)
}

/// Whether every operand of the predicates fits the message.
pub fn operands_fit(predicates: &Vec<QueryPredicate>) -> (fit: bool)
    ensures
        fit == predicates_fit(store_records::views(predicates@)),
{
    let ghost all = store_records::views(predicates@);
    let mut i: usize = 0;
    while i < predicates.len()
        invariant
            i <= predicates@.len(),
            all == store_records::views(predicates@),
            forall|j: int| 0 <= j < i ==> operand_fits((#[trigger] all[j]).operand),
        decreases predicates@.len() - i,
    {
        assert(all[i as int] == predicates@[i as int]@);
        let fits: bool = match &predicates[i].operand {
            QueryOperand::Absent => true,
            QueryOperand::Scalar(value) => query_cursor::fits_cursor(value),
            QueryOperand::Members(members) => all_members_fit(members),
        };
        if !fits {
            assert(!operand_fits(all[i as int].operand));
            return false;
        }
        i = i + 1;
    }
    true
}

/// Appends a scope.
fn hash_scope(out: &mut Vec<u8>, scope: &QueryScope)
    ensures
        final(out)@ == old(out)@ + scope_part(scope@),
{
    broadcast use bytes::concat_regroups;

    match scope {
        QueryScope::Root => {
            bytes::push_u8(out, 1);
        },
        QueryScope::Workspace(workbench_id) => {
            bytes::push_u8(out, 2);
            digest::push_framed(out, workbench_id.as_bytes());
        },
    }
}

/// Appends an optional byte string.
fn hash_optional(out: &mut Vec<u8>, value: Option<&[u8]>)
    ensures
        final(out)@ == old(out)@ + optional_part(
            match value {
                None => None,
                Some(value) => Some(value@),
            },
        ),
{
    broadcast use bytes::concat_regroups;

    match value {
        None => {
            bytes::push_u8(out, 0);
        },
        Some(value) => {
            bytes::push_u8(out, 1);
            digest::push_framed(out, value);
        },
    }
}

/// Appends an optional path.
fn hash_path(out: &mut Vec<u8>, path: &Option<NormalizedRelativePath>)
    ensures
        final(out)@ == old(out)@ + optional_part(bytes::option_view(*path)),
{
    match path {
        None => hash_optional(out, None),
        Some(path) => hash_optional(out, Some(path.as_bytes())),
    }
}

/// Appends one scalar.
fn hash_scalar(out: &mut Vec<u8>, value: &QueryScalar)
    requires
        query_cursor::scalar_fits(value@),
    ensures
        final(out)@ == old(out)@ + digest::framed(query_cursor::scalar_bytes(value@)),
{
    let mut encoded: Vec<u8> = Vec::new();
    query_cursor::encode_cursor_scalar(&mut encoded, value);
    assert(encoded@ =~= query_cursor::scalar_bytes(value@));
    digest::push_framed(out, encoded.as_slice());
}

/// Appends the members of a set.
fn hash_members(out: &mut Vec<u8>, set: &ScalarSet)
    requires
        members_fit(set@),
    ensures
        final(out)@ == old(out)@ + (bytes::be64(set@.len() as u64) + members_part(set@)),
{
    broadcast use bytes::concat_regroups;

    let members = set.values();
    let ghost all = set@;
    bytes::push_u64(out, members.len() as u64);
    let ghost head = out@;
    let mut i: usize = 0;
    assert(all.skip(0) =~= all);
    while i < members.len()
        invariant
            i <= members@.len(),
            all == sorted_maps::scalar_views(members@),
            members_fit(all),
            head + members_part(all) == out@ + members_part(all.skip(i as int)),
        decreases members@.len() - i,
    {
        let ghost before = out@;
        assert(all[i as int] == members@[i as int]@);
        hash_scalar(out, &members[i]);
        proof {
            let rest = all.skip(i as int);
            assert(rest[0] == all[i as int]);
            assert(rest.drop_first() =~= all.skip(i + 1));
            bytes::concat_regroups(
                before,
                digest::framed(query_cursor::scalar_bytes(all[i as int])),
                members_part(all.skip(i + 1)),
            );
        }
        i = i + 1;
    }
    assert(all.skip(i as int) =~= Seq::<QueryScalarView>::empty());
    assert(out@ =~= out@ + members_part(all.skip(i as int)));
}

/// Appends one predicate.
fn hash_predicate(out: &mut Vec<u8>, predicate: &QueryPredicate)
    requires
        operand_fits(predicate@.operand),
    ensures
        final(out)@ == old(out)@ + predicate_part(predicate@),
{
    broadcast use bytes::concat_regroups;

    digest::push_framed(out, predicate.field_id.as_bytes());
    bytes::push_u8(out, predicate.operator.to_byte());
    match &predicate.operand {
        QueryOperand::Absent => {
            bytes::push_u8(out, 0);
        },
        QueryOperand::Scalar(value) => {
            bytes::push_u8(out, 1);
            hash_scalar(out, value);
        },
        QueryOperand::Members(members) => {
            bytes::push_u8(out, 2);
            hash_members(out, members);
        },
    }
}

/// Appends a counted list of predicates.
fn hash_predicates(out: &mut Vec<u8>, predicates: &Vec<QueryPredicate>)
    requires
        predicates_fit(store_records::views(predicates@)),
    ensures
        final(out)@ == old(out)@ + predicates_part(store_records::views(predicates@)),
{
    broadcast use bytes::concat_regroups;

    let ghost all = store_records::views(predicates@);
    bytes::push_u64(out, predicates.len() as u64);
    let ghost head = out@;
    let mut i: usize = 0;
    assert(all.skip(0) =~= all);
    while i < predicates.len()
        invariant
            i <= predicates@.len(),
            all == store_records::views(predicates@),
            predicates_fit(all),
            head + predicates_body(all) == out@ + predicates_body(all.skip(i as int)),
        decreases predicates@.len() - i,
    {
        let ghost before = out@;
        assert(all[i as int] == predicates@[i as int]@);
        hash_predicate(out, &predicates[i]);
        proof {
            let rest = all.skip(i as int);
            assert(rest[0] == all[i as int]);
            assert(rest.drop_first() =~= all.skip(i + 1));
            bytes::concat_regroups(
                before,
                predicate_part(all[i as int]),
                predicates_body(all.skip(i + 1)),
            );
        }
        i = i + 1;
    }
    assert(all.skip(i as int) =~= Seq::<QueryPredicateView>::empty());
    assert(out@ =~= out@ + predicates_body(all.skip(i as int)));
}

/// Appends a counted list of fields.
fn hash_fields(out: &mut Vec<u8>, fields: &Vec<QueryFieldId>)
    ensures
        final(out)@ == old(out)@ + fields_part(store_records::views(fields@)),
{
    broadcast use bytes::concat_regroups;

    let ghost all = store_records::views(fields@);
    bytes::push_u64(out, fields.len() as u64);
    let ghost head = out@;
    let mut i: usize = 0;
    assert(all.skip(0) =~= all);
    while i < fields.len()
        invariant
            i <= fields@.len(),
            all == store_records::views(fields@),
            head + fields_body(all) == out@ + fields_body(all.skip(i as int)),
        decreases fields@.len() - i,
    {
        let ghost before = out@;
        assert(all[i as int] == fields@[i as int]@);
        digest::push_framed(out, fields[i].as_bytes());
        proof {
            let rest = all.skip(i as int);
            assert(rest[0] == all[i as int]);
            assert(rest.drop_first() =~= all.skip(i + 1));
            bytes::concat_regroups(
                before,
                digest::framed(all[i as int]),
                fields_body(all.skip(i + 1)),
            );
        }
        i = i + 1;
    }
    assert(all.skip(i as int) =~= Seq::<Seq<u8>>::empty());
    assert(out@ =~= out@ + fields_body(all.skip(i as int)));
}

/// Appends a counted list of sorts.
fn hash_sort(out: &mut Vec<u8>, sort: &Vec<QuerySort>)
    ensures
        final(out)@ == old(out)@ + sort_part(store_records::views(sort@)),
{
    broadcast use bytes::concat_regroups;

    let ghost all = store_records::views(sort@);
    bytes::push_u64(out, sort.len() as u64);
    let ghost head = out@;
    let mut i: usize = 0;
    assert(all.skip(0) =~= all);
    while i < sort.len()
        invariant
            i <= sort@.len(),
            all == store_records::views(sort@),
            head + sort_body(all) == out@ + sort_body(all.skip(i as int)),
        decreases sort@.len() - i,
    {
        let ghost before = out@;
        assert(all[i as int] == sort@[i as int]@);
        digest::push_framed(out, sort[i].field_id.as_bytes());
        bytes::push_u8(
            out,
            match sort[i].direction {
                QuerySortDirection::Ascending => 1,
                QuerySortDirection::Descending => 2,
            },
        );
        proof {
            let rest = all.skip(i as int);
            assert(rest[0] == all[i as int]);
            assert(rest.drop_first() =~= all.skip(i + 1));
            bytes::regroup_4(
                before,
                digest::framed(all[i as int].field_id),
                seq![all[i as int].direction.byte()],
                sort_body(all.skip(i + 1)),
            );
        }
        i = i + 1;
    }
    assert(all.skip(i as int) =~= Seq::<QuerySortView>::empty());
    assert(out@ =~= out@ + sort_body(all.skip(i as int)));
}

/// Appends one aggregate.
fn hash_aggregate(out: &mut Vec<u8>, aggregate: &AggregateSpec)
    ensures
        final(out)@ == old(out)@ + aggregate_part(aggregate@),
{
    broadcast use bytes::concat_regroups;

    digest::push_framed(out, aggregate.result_id.as_bytes());
    bytes::push_u8(out, aggregate.function.to_byte());
    match &aggregate.field_id {
        None => hash_optional(out, None),
        Some(field) => hash_optional(out, Some(field.as_bytes())),
    }
}

/// Appends a counted list of aggregates.
fn hash_aggregates(out: &mut Vec<u8>, aggregates: &Vec<AggregateSpec>)
    ensures
        final(out)@ == old(out)@ + aggregates_part(store_records::views(aggregates@)),
{
    broadcast use bytes::concat_regroups;

    let ghost all = store_records::views(aggregates@);
    bytes::push_u64(out, aggregates.len() as u64);
    let ghost head = out@;
    let mut i: usize = 0;
    assert(all.skip(0) =~= all);
    while i < aggregates.len()
        invariant
            i <= aggregates@.len(),
            all == store_records::views(aggregates@),
            head + aggregates_body(all) == out@ + aggregates_body(all.skip(i as int)),
        decreases aggregates@.len() - i,
    {
        let ghost before = out@;
        assert(all[i as int] == aggregates@[i as int]@);
        hash_aggregate(out, &aggregates[i]);
        proof {
            let rest = all.skip(i as int);
            assert(rest[0] == all[i as int]);
            assert(rest.drop_first() =~= all.skip(i + 1));
            bytes::concat_regroups(
                before,
                aggregate_part(all[i as int]),
                aggregates_body(all.skip(i + 1)),
            );
        }
        i = i + 1;
    }
    assert(all.skip(i as int) =~= Seq::<AggregateSpecView>::empty());
    assert(out@ =~= out@ + aggregates_body(all.skip(i as int)));
}

/// Starts a message with its domain.
fn start_message(domain: &str) -> (out: Vec<u8>)
    ensures
        out@ == bytes::utf8(domain@) + seq![0u8],
{
    let mut out: Vec<u8> = Vec::new();
    bytes::push_bytes(&mut out, domain.as_bytes());
    bytes::push_u8(&mut out, 0);
    assert(out@ =~= bytes::utf8(domain@) + seq![0u8]);
    out
}

/// The message that identifies a search.
pub fn search_message(request: &SearchRequest) -> (message: Vec<u8>)
    requires
        request@.operands_fit(),
    ensures
        message@ == request@.message(),
{
    broadcast use bytes::concat_regroups;

    let mut out = start_message("nokv.query.search.v1");
    hash_scope(&mut out, &request.scope);
    hash_path(&mut out, &request.path_prefix);
    hash_predicates(&mut out, &request.predicates);
    hash_fields(&mut out, &request.projection);
    hash_sort(&mut out, &request.sort);
    hash_fields(&mut out, &request.facets);
    out
}

/// The digest of a search.
pub fn search_digest(request: &SearchRequest) -> (digest: [u8; 32])
    requires
        request@.operands_fit(),
    ensures
        digest@ == digest::sha256(request@.message()),
{
    let message = search_message(request);
    digest::digest(message.as_slice())
}

/// The message that identifies an aggregate.
pub fn aggregate_message(request: &AggregateRequest) -> (message: Vec<u8>)
    requires
        request@.operands_fit(),
    ensures
        message@ == request@.message(),
{
    broadcast use bytes::concat_regroups;

    let mut out = start_message("nokv.query.aggregate.v1");
    hash_scope(&mut out, &request.scope);
    hash_path(&mut out, &request.path_prefix);
    hash_predicates(&mut out, &request.predicates);
    hash_fields(&mut out, &request.group_by);
    hash_aggregates(&mut out, &request.aggregates);
    hash_sort(&mut out, &request.sort);
    out
}

/// The digest of an aggregate.
pub fn aggregate_digest(request: &AggregateRequest) -> (digest: [u8; 32])
    requires
        request@.operands_fit(),
    ensures
        digest@ == digest::sha256(request@.message()),
{
    let message = aggregate_message(request);
    digest::digest(message.as_slice())
}

/// The message that identifies a catalog request.
pub fn catalog_message(request: &CatalogRequest) -> (message: Vec<u8>)
    ensures
        message@ == request@.message(),
{
    broadcast use bytes::concat_regroups;

    let mut out = start_message("nokv.query.catalog.v1");
    hash_scope(&mut out, &request.scope);
    hash_path(&mut out, &request.path_prefix);
    match &request.field_prefix {
        None => hash_optional(&mut out, None),
        Some(prefix) => hash_optional(&mut out, Some(prefix.as_str().as_bytes())),
    }
    out
}

/// The digest of a catalog request.
pub fn catalog_digest(request: &CatalogRequest) -> (digest: [u8; 32])
    ensures
        digest@ == digest::sha256(request@.message()),
{
    let message = catalog_message(request);
    digest::digest(message.as_slice())
}

/// The message that identifies a discovery request.
pub fn find_message(request: &FindWorkspacesRequest) -> (message: Vec<u8>)
    ensures
        message@ == request@.message(),
{
    let mut out = start_message("nokv.query.find-workspaces.v1");
    bytes::push_u8(
        &mut out,
        match request.committed {
            CommittedFilter::Any => 1,
            CommittedFilter::Committed => 2,
            CommittedFilter::Uncommitted => 3,
        },
    );
    out
}

/// The digest of a discovery request.
pub fn find_digest(request: &FindWorkspacesRequest) -> (digest: [u8; 32])
    ensures
        digest@ == digest::sha256(request@.message()),
{
    let message = find_message(request);
    digest::digest(message.as_slice())
}

/// The message that identifies a change request under one root.
pub fn change_message(root_id: RootId, request: &ChangePageRequest) -> (message: Vec<u8>)
    ensures
        message@ == request@.message(root_id@),
{
    broadcast use bytes::concat_regroups;

    let mut out = start_message("nokv.query.changes.v2");
    bytes::push_bytes(&mut out, root_id.as_bytes().as_slice());
    hash_scope(&mut out, &request.scope);
    match request.after_commit_version {
        None => {
            bytes::push_u8(&mut out, 0);
        },
        Some(version) => {
            bytes::push_u8(&mut out, 1);
            bytes::push_u64(&mut out, version.get());
        },
    }
    out
}

/// The digest of a change request under one root.
pub fn change_digest(root_id: RootId, request: &ChangePageRequest) -> (digest: [u8; 32])
    ensures
        digest@ == digest::sha256(request@.message(root_id@)),
{
    let message = change_message(root_id, request);
    digest::digest(message.as_slice())
}

} // verus!
