//! Requests, plans, and failures that every metadata provider shares.

use vstd::prelude::*;

use crate::bytes;
use crate::provider_catalog;
use crate::provider_catalog::OrderedSpaceId;

verus! {

/// What a provider was doing.
#[derive(Clone, Copy, Debug, PartialEq, Eq, Structural)]
pub enum ProviderOperationV1 {
    InspectSchema,
    Create,
    Reopen,
    ValidateRuntime,
    BeginRead,
    ReadRecord,
    Scan,
    ValidatePlan,
    ValidateWitness,
    Commit,
}

/// Class of a provider failure.
#[derive(Clone, Copy, Debug, PartialEq, Eq, Structural)]
pub enum ProviderErrorKind {
    InvalidPlan,
    Schema,
    AuthorityMismatch,
    Unavailable,
    Backend,
    TransactionTooLarge,
    /// The commit may have happened, and is no longer in flight.
    UnknownCommitSettled,
    /// The commit may have happened, or may still happen.
    UnknownCommitUnsettled,
}

/// The limit that a transaction exceeded.
#[derive(Clone, Copy, Debug, PartialEq, Eq, Structural)]
pub struct ProviderTransactionLimit {
    pub affected_bytes: usize,
    pub max_bytes: usize,
}

/// Failure of a provider.
#[derive(Clone, Debug, PartialEq, Eq)]
pub struct ProviderError {
    pub kind: ProviderErrorKind,
    pub operation: ProviderOperationV1,
    pub limit: Option<ProviderTransactionLimit>,
    /// Text of a native failure; empty for every other class.
    pub detail: String,
}

/// Contents of a [`ProviderError`]; its text is a sequence of characters.
pub struct ProviderFailure {
    pub kind: ProviderErrorKind,
    pub operation: ProviderOperationV1,
    pub limit: Option<ProviderTransactionLimit>,
    pub detail: Seq<char>,
}

impl View for ProviderError {
    type V = ProviderFailure;

    open spec fn view(&self) -> ProviderFailure {
        ProviderFailure {
            kind: self.kind,
            operation: self.operation,
            limit: self.limit,
            detail: self.detail@,
        }
    }
}

impl ProviderFailure {
    /// A failure without a limit or a text.
    pub open spec fn plain(kind: ProviderErrorKind, operation: ProviderOperationV1) -> Self {
        ProviderFailure { kind, operation, limit: None, detail: ""@ }
    }

    /// The plan or request is not valid.
    pub open spec fn invalid_plan() -> Self {
        Self::plain(ProviderErrorKind::InvalidPlan, ProviderOperationV1::ValidatePlan)
    }

    /// The store does not have the expected schema.
    pub open spec fn schema() -> Self {
        Self::plain(ProviderErrorKind::Schema, ProviderOperationV1::InspectSchema)
    }

    /// The store or the witness belongs to another authority.
    pub open spec fn authority_mismatch(operation: ProviderOperationV1) -> Self {
        Self::plain(ProviderErrorKind::AuthorityMismatch, operation)
    }

    /// The store cannot be reached now.
    pub open spec fn unavailable(operation: ProviderOperationV1) -> Self {
        Self::plain(ProviderErrorKind::Unavailable, operation)
    }

    /// The store failed natively.
    pub open spec fn backend(operation: ProviderOperationV1, detail: Seq<char>) -> Self {
        ProviderFailure { kind: ProviderErrorKind::Backend, operation, limit: None, detail }
    }

    /// A size exceeds its limit.
    pub open spec fn transaction_too_large(affected_bytes: usize, max_bytes: usize) -> Self {
        ProviderFailure {
            kind: ProviderErrorKind::TransactionTooLarge,
            operation: ProviderOperationV1::Commit,
            limit: Some(ProviderTransactionLimit { affected_bytes, max_bytes }),
            detail: ""@,
        }
    }

    /// The commit may have happened, and is no longer in flight.
    pub open spec fn unknown_commit_settled() -> Self {
        Self::plain(ProviderErrorKind::UnknownCommitSettled, ProviderOperationV1::Commit)
    }

    /// The commit may have happened, or may still happen.
    pub open spec fn unknown_commit_unsettled() -> Self {
        Self::plain(ProviderErrorKind::UnknownCommitUnsettled, ProviderOperationV1::Commit)
    }

    /// Whether the commit happened is not known.
    pub open spec fn is_unknown_commit(self) -> bool {
        self.kind is UnknownCommitSettled || self.kind is UnknownCommitUnsettled
    }
}

impl ProviderError {
    /// A failure without a limit or a text.
    fn plain(kind: ProviderErrorKind, operation: ProviderOperationV1) -> (error: Self)
        ensures
            error@ == ProviderFailure::plain(kind, operation),
    {
        Self { kind, operation, limit: None, detail: "".to_owned() }
    }

    /// The plan or request is not valid.
    pub fn invalid_plan() -> (error: Self)
        ensures
            error@ == ProviderFailure::invalid_plan(),
    {
        Self::plain(ProviderErrorKind::InvalidPlan, ProviderOperationV1::ValidatePlan)
    }

    /// The store does not have the expected schema.
    pub fn schema() -> (error: Self)
        ensures
            error@ == ProviderFailure::schema(),
    {
        Self::plain(ProviderErrorKind::Schema, ProviderOperationV1::InspectSchema)
    }

    /// The store or the witness belongs to another authority.
    pub fn authority_mismatch(operation: ProviderOperationV1) -> (error: Self)
        ensures
            error@ == ProviderFailure::authority_mismatch(operation),
    {
        Self::plain(ProviderErrorKind::AuthorityMismatch, operation)
    }

    /// The store cannot be reached now.
    pub fn unavailable(operation: ProviderOperationV1) -> (error: Self)
        ensures
            error@ == ProviderFailure::unavailable(operation),
    {
        Self::plain(ProviderErrorKind::Unavailable, operation)
    }

    /// The store failed natively.
    pub fn backend(operation: ProviderOperationV1, detail: &str) -> (error: Self)
        ensures
            error@ == ProviderFailure::backend(operation, detail@),
    {
        Self {
            kind: ProviderErrorKind::Backend,
            operation,
            limit: None,
            detail: detail.to_owned(),
        }
    }

    /// A size exceeds its limit.
    pub fn transaction_too_large(affected_bytes: usize, max_bytes: usize) -> (error: Self)
        ensures
            error@ == ProviderFailure::transaction_too_large(affected_bytes, max_bytes),
    {
        Self {
            kind: ProviderErrorKind::TransactionTooLarge,
            operation: ProviderOperationV1::Commit,
            limit: Some(ProviderTransactionLimit { affected_bytes, max_bytes }),
            detail: "".to_owned(),
        }
    }

    /// The commit may have happened, and is no longer in flight.
    pub fn unknown_commit_settled() -> (error: Self)
        ensures
            error@ == ProviderFailure::unknown_commit_settled(),
    {
        Self::plain(ProviderErrorKind::UnknownCommitSettled, ProviderOperationV1::Commit)
    }

    /// The commit may have happened, or may still happen.
    pub fn unknown_commit_unsettled() -> (error: Self)
        ensures
            error@ == ProviderFailure::unknown_commit_unsettled(),
    {
        Self::plain(ProviderErrorKind::UnknownCommitUnsettled, ProviderOperationV1::Commit)
    }

    /// Class of this failure.
    pub fn kind(&self) -> (kind: ProviderErrorKind)
        ensures
            kind == self@.kind,
    {
        self.kind
    }

    /// What the provider was doing.
    pub fn operation(&self) -> (operation: ProviderOperationV1)
        ensures
            operation == self@.operation,
    {
        self.operation
    }

    /// The limit that was exceeded, if one was.
    pub fn limit(&self) -> (limit: Option<ProviderTransactionLimit>)
        ensures
            limit == self@.limit,
    {
        self.limit
    }

    /// Whether it is not known if the commit happened.
    pub fn is_unknown_commit(&self) -> (unknown: bool)
        ensures
            unknown == self@.is_unknown_commit(),
    {
        match self.kind {
            ProviderErrorKind::UnknownCommitSettled => true,
            ProviderErrorKind::UnknownCommitUnsettled => true,
            _ => false,
        }
    }
}

/// A result, with the contents of its failure.
pub open spec fn outcome<T>(result: Result<T, ProviderError>) -> Result<T, ProviderFailure> {
    match result {
        Ok(value) => Ok(value),
        Err(error) => Err(error@),
    }
}

/// A result, with its contents.
pub open spec fn outcome_view<T: View>(result: Result<T, ProviderError>) -> Result<
    T::V,
    ProviderFailure,
> {
    match result {
        Ok(value) => Ok(value@),
        Err(error) => Err(error@),
    }
}

/// Passes exactly when the condition holds.
pub open spec fn require(condition: bool, failure: ProviderFailure) -> Result<(), ProviderFailure> {
    if condition {
        Ok(())
    } else {
        Err(failure)
    }
}

/// The first failure of two checks, if either fails.
pub open spec fn and_also(
    first: Result<(), ProviderFailure>,
    second: Result<(), ProviderFailure>,
) -> Result<(), ProviderFailure> {
    match first {
        Err(e) => Err(e),
        Ok(()) => second,
    }
}

/// A length is within its limit.
pub open spec fn length_check(actual: nat, maximum: usize) -> Result<(), ProviderFailure> {
    require(
        actual <= maximum,
        ProviderFailure::transaction_too_large(actual as usize, maximum),
    )
}

/// Checks a length against its limit.
pub fn validate_length(actual: usize, maximum: usize) -> (result: Result<(), ProviderError>)
    ensures
        outcome(result) == length_check(actual as nat, maximum),
{
    if actual <= maximum {
        Ok(())
    } else {
        Err(ProviderError::transaction_too_large(actual, maximum))
    }
}

/// A space is one of the ordered spaces.
pub open spec fn space_check(space: OrderedSpaceId) -> Result<(), ProviderFailure> {
    require(provider_catalog::is_space(space), ProviderFailure::invalid_plan())
}

/// Checks that a space is one of the ordered spaces.
pub fn validate_space(space: OrderedSpaceId) -> (result: Result<(), ProviderError>)
    ensures
        outcome(result) == space_check(space),
{
    if provider_catalog::is_ordered_space(space) {
        Ok(())
    } else {
        Err(ProviderError::invalid_plan())
    }
}

/// Identity of one provider instance; no two instances share one.
#[derive(Clone, Copy, Debug, PartialEq, Eq, Structural)]
pub struct ProviderInstanceToken {
    pub id: u64,
}

/// Proof that a provider instance read a record in one version.
#[derive(Debug, PartialEq, Eq)]
pub struct ReadWitness {
    pub issuer: ProviderInstanceToken,
    pub version: Vec<u8>,
}

/// Contents of a [`ReadWitness`].
pub struct ReadWitnessView {
    pub issuer: ProviderInstanceToken,
    pub version: Seq<u8>,
}

impl View for ReadWitness {
    type V = ReadWitnessView;

    open spec fn view(&self) -> ReadWitnessView {
        ReadWitnessView { issuer: self.issuer, version: self.version@ }
    }
}

impl Clone for ReadWitness {
    fn clone(&self) -> (copy: Self)
        ensures
            copy@ == self@,
    {
        Self { issuer: self.issuer, version: vstd::slice::slice_to_vec(self.version.as_slice()) }
    }
}

impl ProviderInstanceToken {
    /// A witness of this instance.
    pub fn issue_witness(self, version: Vec<u8>) -> (witness: ReadWitness)
        ensures
            witness@ == (ReadWitnessView { issuer: self, version: version@ }),
    {
        ReadWitness { issuer: self, version }
    }

    /// The version in a witness of this instance; a witness of another
    /// instance is refused.
    pub fn parse_witness<'a>(self, witness: &'a ReadWitness) -> (result: Result<
        &'a [u8],
        ProviderError,
    >)
        ensures
            match result {
                Ok(version) => witness@.issuer == self && version@ == witness@.version,
                Err(error) => witness@.issuer != self && error@
                    == ProviderFailure::authority_mismatch(ProviderOperationV1::ValidateWitness),
            },
    {
        if witness.issuer == self {
            Ok(witness.version.as_slice())
        } else {
            Err(ProviderError::authority_mismatch(ProviderOperationV1::ValidateWitness))
        }
    }
}

/// A record that was read.
#[derive(Debug, PartialEq, Eq)]
pub struct ProviderRecord {
    pub value: Vec<u8>,
    pub witness: ReadWitness,
}

/// Contents of a [`ProviderRecord`].
pub struct ProviderRecordView {
    pub value: Seq<u8>,
    pub witness: ReadWitnessView,
}

impl View for ProviderRecord {
    type V = ProviderRecordView;

    open spec fn view(&self) -> ProviderRecordView {
        ProviderRecordView { value: self.value@, witness: self.witness@ }
    }
}

/// One guard or mutation of an atomic plan.
#[derive(Debug, PartialEq, Eq)]
pub enum AtomicOp {
    AssertUnchanged { space: OrderedSpaceId, key: Vec<u8>, witness: ReadWitness },
    AssertAbsent { space: OrderedSpaceId, key: Vec<u8> },
    AssertPrefixEmpty { space: OrderedSpaceId, prefix: Vec<u8> },
    Put { space: OrderedSpaceId, key: Vec<u8>, value: Vec<u8> },
    PutIfAbsent { space: OrderedSpaceId, key: Vec<u8>, value: Vec<u8> },
    CompareAndPut { space: OrderedSpaceId, key: Vec<u8>, witness: ReadWitness, value: Vec<u8> },
    Delete { space: OrderedSpaceId, key: Vec<u8> },
}

/// Contents of an [`AtomicOp`].
pub enum AtomicOpView {
    AssertUnchanged { space: OrderedSpaceId, key: Seq<u8>, witness: ReadWitnessView },
    AssertAbsent { space: OrderedSpaceId, key: Seq<u8> },
    AssertPrefixEmpty { space: OrderedSpaceId, prefix: Seq<u8> },
    Put { space: OrderedSpaceId, key: Seq<u8>, value: Seq<u8> },
    PutIfAbsent { space: OrderedSpaceId, key: Seq<u8>, value: Seq<u8> },
    CompareAndPut {
        space: OrderedSpaceId,
        key: Seq<u8>,
        witness: ReadWitnessView,
        value: Seq<u8>,
    },
    Delete { space: OrderedSpaceId, key: Seq<u8> },
}

impl View for AtomicOp {
    type V = AtomicOpView;

    open spec fn view(&self) -> AtomicOpView {
        match self {
            Self::AssertUnchanged { space, key, witness } => AtomicOpView::AssertUnchanged {
                space: *space,
                key: key@,
                witness: witness@,
            },
            Self::AssertAbsent { space, key } => AtomicOpView::AssertAbsent {
                space: *space,
                key: key@,
            },
            Self::AssertPrefixEmpty { space, prefix } => AtomicOpView::AssertPrefixEmpty {
                space: *space,
                prefix: prefix@,
            },
            Self::Put { space, key, value } => AtomicOpView::Put {
                space: *space,
                key: key@,
                value: value@,
            },
            Self::PutIfAbsent { space, key, value } => AtomicOpView::PutIfAbsent {
                space: *space,
                key: key@,
                value: value@,
            },
            Self::CompareAndPut { space, key, witness, value } => AtomicOpView::CompareAndPut {
                space: *space,
                key: key@,
                witness: witness@,
                value: value@,
            },
            Self::Delete { space, key } => AtomicOpView::Delete { space: *space, key: key@ },
        }
    }
}

impl AtomicOpView {
    /// Space of the operation.
    pub open spec fn space(self) -> OrderedSpaceId {
        match self {
            Self::AssertUnchanged { space, .. } => space,
            Self::AssertAbsent { space, .. } => space,
            Self::AssertPrefixEmpty { space, .. } => space,
            Self::Put { space, .. } => space,
            Self::PutIfAbsent { space, .. } => space,
            Self::CompareAndPut { space, .. } => space,
            Self::Delete { space, .. } => space,
        }
    }

    /// Key, or prefix, of the operation.
    pub open spec fn key(self) -> Seq<u8> {
        match self {
            Self::AssertUnchanged { key, .. } => key,
            Self::AssertAbsent { key, .. } => key,
            Self::AssertPrefixEmpty { prefix, .. } => prefix,
            Self::Put { key, .. } => key,
            Self::PutIfAbsent { key, .. } => key,
            Self::CompareAndPut { key, .. } => key,
            Self::Delete { key, .. } => key,
        }
    }

    /// Value that the operation writes, if it writes one.
    pub open spec fn value(self) -> Option<Seq<u8>> {
        match self {
            Self::Put { value, .. } => Some(value),
            Self::PutIfAbsent { value, .. } => Some(value),
            Self::CompareAndPut { value, .. } => Some(value),
            _ => None,
        }
    }

    /// Witness that the operation compares with, if it compares with one.
    pub open spec fn witness(self) -> Option<ReadWitnessView> {
        match self {
            Self::AssertUnchanged { witness, .. } => Some(witness),
            Self::CompareAndPut { witness, .. } => Some(witness),
            _ => None,
        }
    }

    /// Bytes of key and value.
    pub open spec fn footprint(self) -> nat {
        self.key().len() + (match self.value() {
            Some(value) => value.len(),
            None => 0,
        })
    }
}

impl AtomicOp {
    /// Space of the operation.
    pub fn space(&self) -> (space: OrderedSpaceId)
        ensures
            space == self@.space(),
    {
        match self {
            Self::AssertUnchanged { space, .. } => *space,
            Self::AssertAbsent { space, .. } => *space,
            Self::AssertPrefixEmpty { space, .. } => *space,
            Self::Put { space, .. } => *space,
            Self::PutIfAbsent { space, .. } => *space,
            Self::CompareAndPut { space, .. } => *space,
            Self::Delete { space, .. } => *space,
        }
    }

    /// Key, or prefix, of the operation.
    pub fn key(&self) -> (key: &Vec<u8>)
        ensures
            key@ == self@.key(),
    {
        match self {
            Self::AssertUnchanged { key, .. } => key,
            Self::AssertAbsent { key, .. } => key,
            Self::AssertPrefixEmpty { prefix, .. } => prefix,
            Self::Put { key, .. } => key,
            Self::PutIfAbsent { key, .. } => key,
            Self::CompareAndPut { key, .. } => key,
            Self::Delete { key, .. } => key,
        }
    }

    /// Value that the operation writes, if it writes one.
    pub fn value(&self) -> (value: Option<&Vec<u8>>)
        ensures
            match value {
                Some(v) => self@.value() == Some(v@),
                None => self@.value() is None,
            },
    {
        match self {
            Self::Put { value, .. } => Some(value),
            Self::PutIfAbsent { value, .. } => Some(value),
            Self::CompareAndPut { value, .. } => Some(value),
            _ => None,
        }
    }

    /// Witness that the operation compares with, if it compares with one.
    pub fn witness(&self) -> (witness: Option<&ReadWitness>)
        ensures
            match witness {
                Some(w) => self@.witness() == Some(w@),
                None => self@.witness() is None,
            },
    {
        match self {
            Self::AssertUnchanged { witness, .. } => Some(witness),
            Self::CompareAndPut { witness, .. } => Some(witness),
            _ => None,
        }
    }
}

/// Ordered guards and mutations that take effect together or not at all.
#[derive(Debug, PartialEq, Eq)]
pub struct AtomicPlan {
    pub operations: Vec<AtomicOp>,
}

/// Contents of a list of operations.
pub open spec fn operation_views(operations: Seq<AtomicOp>) -> Seq<AtomicOpView> {
    Seq::new(operations.len(), |i: int| operations[i]@)
}

impl View for AtomicPlan {
    type V = Seq<AtomicOpView>;

    open spec fn view(&self) -> Seq<AtomicOpView> {
        operation_views(self.operations@)
    }
}

/// A size that is not larger than a `usize` can be.
pub open spec fn saturated(size: nat) -> usize {
    if size > usize::MAX {
        usize::MAX
    } else {
        size as usize
    }
}

/// Bytes of the keys and values of a plan.
pub open spec fn footprint(operations: Seq<AtomicOpView>) -> nat
    decreases operations.len(),
{
    if operations.len() == 0 {
        0
    } else {
        footprint(operations.drop_last()) + operations.last().footprint()
    }
}

impl AtomicPlan {
    /// Bytes of the keys and values of this plan.
    pub fn logical_footprint(&self) -> (size: usize)
        ensures
            size == saturated(footprint(self@)),
    {
        let ghost views = self@;
        let mut size: usize = 0;
        let mut i: usize = 0;
        assert(views.take(0) =~= Seq::empty());
        while i < self.operations.len()
            invariant
                i <= self.operations@.len(),
                views == self@,
                size == saturated(footprint(views.take(i as int))),
            decreases self.operations@.len() - i,
        {
            let operation = &self.operations[i];
            proof {
                assert(views[i as int] == operation@);
                assert(views.take(i + 1).drop_last() =~= views.take(i as int));
                assert(views.take(i + 1).last() == operation@);
            }
            size = size.saturating_add(operation.key().len());
            match operation.value() {
                Some(value) => {
                    size = size.saturating_add(value.len());
                },
                None => {},
            }
            i = i + 1;
        }
        assert(views.take(i as int) =~= views);
        size
    }
}

/// What became of a plan whose commit was settled.
#[derive(Clone, Copy, Debug, PartialEq, Eq, Structural)]
pub enum AtomicCommitOutcome {
    Committed,
    Conflict,
}

/// A range that a read view must be able to read.
#[derive(Debug, PartialEq, Eq)]
pub struct ReadScope {
    pub space: OrderedSpaceId,
    pub prefix: Vec<u8>,
}

/// Contents of a [`ReadScope`].
pub struct ReadScopeView {
    pub space: OrderedSpaceId,
    pub prefix: Seq<u8>,
}

impl View for ReadScope {
    type V = ReadScopeView;

    open spec fn view(&self) -> ReadScopeView {
        ReadScopeView { space: self.space, prefix: self.prefix@ }
    }
}

/// A request for an ordered page of one space.
#[derive(Debug, PartialEq, Eq)]
pub struct ProviderScan {
    pub space: OrderedSpaceId,
    pub prefix: Vec<u8>,
    /// Items of the page come strictly after this.
    pub start_after: Option<Vec<u8>>,
    /// Keys that hold this byte behind the prefix are rolled up to it.
    pub delimiter: Option<u8>,
    /// Largest number of items; zero stands for no bound.
    pub limit: usize,
}

/// Contents of a [`ProviderScan`].
pub struct ProviderScanView {
    pub space: OrderedSpaceId,
    pub prefix: Seq<u8>,
    pub start_after: Option<Seq<u8>>,
    pub delimiter: Option<u8>,
    pub limit: usize,
}

impl View for ProviderScan {
    type V = ProviderScanView;

    open spec fn view(&self) -> ProviderScanView {
        ProviderScanView {
            space: self.space,
            prefix: self.prefix@,
            start_after: bytes::option_view(self.start_after),
            delimiter: self.delimiter,
            limit: self.limit,
        }
    }
}

/// One item of a page.
#[derive(Debug, PartialEq, Eq)]
pub enum ProviderScanItem {
    Key { key: Vec<u8>, value: Vec<u8> },
    CommonPrefix(Vec<u8>),
}

/// Contents of a [`ProviderScanItem`].
pub enum ProviderScanItemView {
    Key { key: Seq<u8>, value: Seq<u8> },
    CommonPrefix(Seq<u8>),
}

impl View for ProviderScanItem {
    type V = ProviderScanItemView;

    open spec fn view(&self) -> ProviderScanItemView {
        match self {
            Self::Key { key, value } => ProviderScanItemView::Key { key: key@, value: value@ },
            Self::CommonPrefix(prefix) => ProviderScanItemView::CommonPrefix(prefix@),
        }
    }
}

impl ProviderScanItemView {
    /// The key or common prefix by which items are ordered and resumed.
    pub open spec fn boundary(self) -> Seq<u8> {
        match self {
            Self::Key { key, .. } => key,
            Self::CommonPrefix(prefix) => prefix,
        }
    }
}

impl ProviderScanItem {
    /// The key or common prefix by which items are ordered and resumed.
    pub fn boundary(&self) -> (boundary: &Vec<u8>)
        ensures
            boundary@ == self@.boundary(),
    {
        match self {
            Self::Key { key, .. } => key,
            Self::CommonPrefix(prefix) => prefix,
        }
    }
}

/// Contents of a list of items.
pub open spec fn item_views(items: Seq<ProviderScanItem>) -> Seq<ProviderScanItemView> {
    Seq::new(items.len(), |i: int| items[i]@)
}

/// What a scan cost.
#[derive(Clone, Copy, Debug, PartialEq, Eq, Structural)]
pub struct ProviderScanStats {
    pub visited: u64,
    pub returned: u64,
    pub common_prefixes: u64,
    pub restarts: u64,
}

/// An ordered page of one space.
#[derive(Debug, PartialEq, Eq)]
pub struct ProviderScanPage {
    pub items: Vec<ProviderScanItem>,
    pub stats: ProviderScanStats,
}

/// Contents of a [`ProviderScanPage`].
pub struct ProviderScanPageView {
    pub items: Seq<ProviderScanItemView>,
    pub stats: ProviderScanStats,
}

impl View for ProviderScanPage {
    type V = ProviderScanPageView;

    open spec fn view(&self) -> ProviderScanPageView {
        ProviderScanPageView { items: item_views(self.items@), stats: self.stats }
    }
}

impl ProviderScanPageView {
    /// A page without items that cost nothing.
    pub open spec fn empty() -> Self {
        ProviderScanPageView {
            items: Seq::empty(),
            stats: ProviderScanStats { visited: 0, returned: 0, common_prefixes: 0, restarts: 0 },
        }
    }
}

impl Default for ProviderScanPage {
    fn default() -> (page: Self)
        ensures
            page@ == ProviderScanPageView::empty(),
    {
        let page = Self {
            items: Vec::new(),
            stats: ProviderScanStats { visited: 0, returned: 0, common_prefixes: 0, restarts: 0 },
        };
        assert(item_views(page.items@) =~= Seq::empty());
        page
    }
}

/// How a provider applies a plan.
#[derive(Clone, Copy, Debug, PartialEq, Eq, Structural)]
pub enum ProviderTransactionModel {
    CrossSpaceAtomicBatch,
}

/// How a provider tells record versions apart.
#[derive(Clone, Copy, Debug, PartialEq, Eq, Structural)]
pub enum ProviderVersionModel {
    OpaqueRecordWitness,
}

/// What a provider promises.
#[derive(Clone, Copy, Debug, PartialEq, Eq, Structural)]
pub struct ProviderCapabilities {
    pub transaction_model: ProviderTransactionModel,
    pub version_model: ProviderVersionModel,
    pub consistent_cross_space_reads: bool,
    pub all_ambiguous_commit_outcomes_settled_before_return: bool,
    pub commit_resolution_reads_causally_current: bool,
    pub max_key_bytes: usize,
    pub max_value_bytes: usize,
    pub max_transaction_bytes: usize,
    pub max_atomic_operations: usize,
    pub max_logical_plan_bytes: usize,
    pub exclusive_scan_start_after: bool,
    pub consistent_snapshot_scans: bool,
    pub max_read_view_duration_ms: Option<u64>,
    pub max_scan_items: Option<usize>,
}

/// Version of the provider interface.
pub const SPI_MAJOR: u32 = 1;

/// What a provider must be opened with.
#[derive(Debug, PartialEq, Eq)]
pub struct ProviderSchemaV1 {
    pub spi_major: u32,
    pub workspace_contract_digest: [u8; 32],
    pub ordered_spaces: Vec<OrderedSpaceId>,
}

/// The schema is the one of this workspace.
pub open spec fn schema_check(schema: ProviderSchemaV1, contract_digest: Seq<u8>) -> Result<
    (),
    ProviderFailure,
> {
    require(
        schema.spi_major == SPI_MAJOR && schema.workspace_contract_digest@ == contract_digest
            && schema.ordered_spaces@ == provider_catalog::space_ids(),
        ProviderFailure::schema(),
    )
}

/// Checks that the schema is the one of this workspace, whose contract has the
/// given digest.
pub fn validate_schema(schema: &ProviderSchemaV1, contract_digest: &[u8; 32]) -> (result: Result<
    (),
    ProviderError,
>)
    ensures
        outcome(result) == schema_check(*schema, contract_digest@),
{
    let spaces = provider_catalog::all_ordered_spaces();
    if schema.spi_major == SPI_MAJOR && bytes::bytes_equal(
        schema.workspace_contract_digest.as_slice(),
        contract_digest.as_slice(),
    ) && same_spaces(&schema.ordered_spaces, &spaces) {
        Ok(())
    } else {
        Err(ProviderError::schema())
    }
}

/// Whether two lists of spaces are the same.
fn same_spaces(a: &Vec<OrderedSpaceId>, b: &Vec<OrderedSpaceId>) -> (same: bool)
    ensures
        same == (a@ == b@),
{
    if a.len() != b.len() {
        return false;
    }
    let mut i: usize = 0;
    while i < a.len()
        invariant
            a@.len() == b@.len(),
            i <= a@.len(),
            forall|j: int| 0 <= j < i ==> a@[j] == b@[j],
        decreases a@.len() - i,
    {
        if a[i] != b[i] {
            return false;
        }
        i = i + 1;
    }
    assert(a@ =~= b@);
    true
}

/// Why a create is made.
#[derive(Clone, Copy, Debug, PartialEq, Eq, Structural)]
pub enum CreateRecoveryIntentV1 {
    Fresh,
    ReconcilePrepared,
}

} // verus!
