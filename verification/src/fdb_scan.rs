//! Ordered, delimited pages over FoundationDB ranges.
//!
//! A scan alternates with the store: it names a native range and a row limit,
//! takes the rows that the store returned, and ends with a page.

use vstd::prelude::*;

use crate::bytes;
use crate::fdb_keys;
use crate::provider;
use crate::provider::{
    ProviderError, ProviderFailure, ProviderScan, ProviderScanItem, ProviderScanItemView,
    ProviderScanPage, ProviderScanPageView, ProviderScanStats, ProviderScanView,
};
use crate::provider_catalog::OrderedSpaceId;
use crate::read_stats;

verus! {

/// Most rows that one native request asks for.
pub const FDB_SCAN_BATCH_ROWS: usize = 64;

/// The first index from `i` on that holds this byte, or the length.
pub open spec fn first_index(b: Seq<u8>, byte: u8, i: int) -> int
    decreases b.len() - i,
{
    if i >= b.len() || b[i] == byte {
        i
    } else {
        first_index(b, byte, i + 1)
    }
}

/// The common prefix that a key is rolled up to: all of it up to the first
/// delimiter behind the requested prefix.
pub open spec fn rollup(request: ProviderScanView, logical_key: Seq<u8>) -> Option<Seq<u8>> {
    match request.delimiter {
        None => None,
        Some(delimiter) => if !bytes::has_prefix(logical_key, request.prefix) {
            None
        } else {
            let index = first_index(logical_key, delimiter, request.prefix.len() as int);
            if index < logical_key.len() {
                Some(logical_key.take(index + 1))
            } else {
                None
            }
        },
    }
}

/// The common prefix that a key is rolled up to.
pub fn delimiter_common_prefix(request: &ProviderScan, logical_key: &[u8]) -> (common: Option<
    Vec<u8>,
>)
    ensures
        bytes::option_view(common) == rollup(request@, logical_key@),
{
    let delimiter: u8 = match request.delimiter {
        None => {
            return None;
        },
        Some(delimiter) => delimiter,
    };
    if !bytes::starts_with(logical_key, request.prefix.as_slice()) {
        return None;
    }
    let mut index: usize = request.prefix.len();
    while index < logical_key.len()
        invariant
            request.prefix@.len() <= index <= logical_key@.len(),
            request@.delimiter == Some(delimiter),
            bytes::has_prefix(logical_key@, request.prefix@),
            first_index(logical_key@, delimiter, request.prefix@.len() as int) == first_index(
                logical_key@,
                delimiter,
                index as int,
            ),
        decreases logical_key@.len() - index,
    {
        if logical_key[index] == delimiter {
            let common = vstd::slice::slice_subrange(logical_key, 0, index + 1);
            return Some(vstd::slice::slice_to_vec(common));
        }
        index = index + 1;
    }
    None
}

/// Most native rows that a page of this limit visits, whatever the store
/// holds; a page without a limit has none.
pub open spec fn row_ceiling(logical_limit: usize) -> Option<u64> {
    if logical_limit == 0 {
        None
    } else {
        let batch: int = if logical_limit < FDB_SCAN_BATCH_ROWS {
            logical_limit as int
        } else {
            FDB_SCAN_BATCH_ROWS as int
        };
        Some(read_stats::counted(logical_limit * batch, 0))
    }
}

/// Most native rows that a page of this limit visits.
pub fn bounded_scan_native_row_ceiling(logical_limit: usize) -> (ceiling: Option<u64>)
    ensures
        ceiling == row_ceiling(logical_limit),
{
    if logical_limit == 0 {
        return None;
    }
    let batch_rows: u64 = if logical_limit < FDB_SCAN_BATCH_ROWS {
        logical_limit as u64
    } else {
        FDB_SCAN_BATCH_ROWS as u64
    };
    match (logical_limit as u64).checked_mul(batch_rows) {
        Some(ceiling) => Some(ceiling),
        None => Some(u64::MAX),
    }
}

/// Where a scan goes on.
#[derive(Debug, PartialEq, Eq)]
pub enum ScanAdvance {
    AfterKey(Vec<u8>),
    AfterCommonPrefix(Vec<u8>),
}

/// Contents of a [`ScanAdvance`].
pub enum ScanAdvanceView {
    AfterKey(Seq<u8>),
    AfterCommonPrefix(Seq<u8>),
}

impl View for ScanAdvance {
    type V = ScanAdvanceView;

    open spec fn view(&self) -> ScanAdvanceView {
        match self {
            Self::AfterKey(key) => ScanAdvanceView::AfterKey(key@),
            Self::AfterCommonPrefix(prefix) => ScanAdvanceView::AfterCommonPrefix(prefix@),
        }
    }
}

/// Where a scan starts.
#[derive(Debug, PartialEq, Eq)]
pub enum LogicalScanStart {
    Prefix,
    AfterKey(Vec<u8>),
    AfterCommonPrefix(Vec<u8>),
    Empty,
}

/// Contents of a [`LogicalScanStart`].
pub enum LogicalScanStartView {
    Prefix,
    AfterKey(Seq<u8>),
    AfterCommonPrefix(Seq<u8>),
    Empty,
}

impl View for LogicalScanStart {
    type V = LogicalScanStartView;

    open spec fn view(&self) -> LogicalScanStartView {
        match self {
            Self::Prefix => LogicalScanStartView::Prefix,
            Self::AfterKey(key) => LogicalScanStartView::AfterKey(key@),
            Self::AfterCommonPrefix(prefix) => LogicalScanStartView::AfterCommonPrefix(prefix@),
            Self::Empty => LogicalScanStartView::Empty,
        }
    }
}

/// Where a scan starts: behind its cursor, and behind the whole common prefix
/// that the cursor is rolled up to. A cursor in front of the prefix changes
/// nothing, and one behind it leaves nothing.
pub open spec fn scan_start(request: ProviderScanView) -> LogicalScanStartView {
    match request.start_after {
        None => LogicalScanStartView::Prefix,
        Some(cursor) => if bytes::has_prefix(cursor, request.prefix) {
            match rollup(request, cursor) {
                None => LogicalScanStartView::AfterKey(cursor),
                Some(common) => LogicalScanStartView::AfterCommonPrefix(common),
            }
        } else if bytes::lex_less(cursor, request.prefix) {
            LogicalScanStartView::Prefix
        } else {
            LogicalScanStartView::Empty
        },
    }
}

/// Where a scan starts.
pub fn logical_scan_start(request: &ProviderScan) -> (start: LogicalScanStart)
    ensures
        start@ == scan_start(request@),
{
    match &request.start_after {
        None => LogicalScanStart::Prefix,
        Some(cursor) => {
            if bytes::starts_with(cursor.as_slice(), request.prefix.as_slice()) {
                match delimiter_common_prefix(request, cursor.as_slice()) {
                    None => LogicalScanStart::AfterKey(
                        vstd::slice::slice_to_vec(cursor.as_slice()),
                    ),
                    Some(common) => LogicalScanStart::AfterCommonPrefix(common),
                }
            } else if bytes::bytes_less(cursor.as_slice(), request.prefix.as_slice()) {
                LogicalScanStart::Prefix
            } else {
                LogicalScanStart::Empty
            }
        },
    }
}

/// What one native row adds to a page, and where the scan goes on behind it.
#[derive(Debug, PartialEq, Eq)]
pub struct ProjectedScanRow {
    pub item: Option<ProviderScanItem>,
    pub advance: ScanAdvance,
}

/// Contents of a [`ProjectedScanRow`], with the common prefix that was added
/// last.
pub struct ProjectedScanRowView {
    pub item: Option<ProviderScanItemView>,
    pub advance: ScanAdvanceView,
    pub last_common_prefix: Option<Seq<u8>>,
}

/// A boundary is not behind the cursor.
pub open spec fn excluded(request: ProviderScanView, boundary: Seq<u8>) -> bool {
    request.start_after matches Some(cursor) && !bytes::lex_less(cursor, boundary)
}

/// What one native row adds to a page: the common prefix that its key is
/// rolled up to, unless that was added last, or the key with its logical
/// value. What is not behind the cursor is left out.
pub open spec fn projected(
    request: ProviderScanView,
    logical_key: Seq<u8>,
    stored_value: Seq<u8>,
    last_common_prefix: Option<Seq<u8>>,
) -> Result<ProjectedScanRowView, ProviderFailure> {
    if !bytes::has_prefix(logical_key, request.prefix) {
        Err(ProviderFailure::schema())
    } else {
        match rollup(request, logical_key) {
            Some(common) => if excluded(request, common) || last_common_prefix == Some(common) {
                Ok(
                    ProjectedScanRowView {
                        item: None,
                        advance: ScanAdvanceView::AfterCommonPrefix(common),
                        last_common_prefix,
                    },
                )
            } else {
                Ok(
                    ProjectedScanRowView {
                        item: Some(ProviderScanItemView::CommonPrefix(common)),
                        advance: ScanAdvanceView::AfterCommonPrefix(common),
                        last_common_prefix: Some(common),
                    },
                )
            },
            None => if excluded(request, logical_key) {
                Ok(
                    ProjectedScanRowView {
                        item: None,
                        advance: ScanAdvanceView::AfterKey(logical_key),
                        last_common_prefix,
                    },
                )
            } else {
                match fdb_keys::logical_value(stored_value) {
                    Err(e) => Err(e),
                    Ok(value) => Ok(
                        ProjectedScanRowView {
                            item: Some(ProviderScanItemView::Key { key: logical_key, value }),
                            advance: ScanAdvanceView::AfterKey(logical_key),
                            last_common_prefix,
                        },
                    ),
                }
            },
        }
    }
}

/// Whether a boundary is not behind the cursor.
fn is_excluded(request: &ProviderScan, boundary: &[u8]) -> (out: bool)
    ensures
        out == excluded(request@, boundary@),
{
    match &request.start_after {
        None => false,
        Some(cursor) => !bytes::bytes_less(cursor.as_slice(), boundary),
    }
}

/// Contents of an optional item.
pub open spec fn optional_item(item: Option<ProviderScanItem>) -> Option<ProviderScanItemView> {
    match item {
        None => None,
        Some(item) => Some(item@),
    }
}

/// Projects one native row, and remembers the common prefix that was added
/// last.
pub fn project_scan_row(
    request: &ProviderScan,
    logical_key: &[u8],
    stored_value: &[u8],
    last_common_prefix: &mut Option<Vec<u8>>,
) -> (result: Result<ProjectedScanRow, ProviderError>)
    ensures
        match projected(
            request@,
            logical_key@,
            stored_value@,
            bytes::option_view(*old(last_common_prefix)),
        ) {
            Ok(row) => result matches Ok(r) && optional_item(r.item) == row.item && r.advance@
                == row.advance && bytes::option_view(*final(last_common_prefix))
                == row.last_common_prefix,
            Err(failure) => result matches Err(e) && e@ == failure && *final(last_common_prefix)
                == *old(last_common_prefix),
        },
{
    if !bytes::starts_with(logical_key, request.prefix.as_slice()) {
        return Err(ProviderError::schema());
    }
    match delimiter_common_prefix(request, logical_key) {
        Some(common) => {
            let duplicate = match &*last_common_prefix {
                Some(last) => bytes::bytes_equal(last.as_slice(), common.as_slice()),
                None => false,
            };
            let item = if is_excluded(request, common.as_slice()) || duplicate {
                None
            } else {
                *last_common_prefix = Some(vstd::slice::slice_to_vec(common.as_slice()));
                Some(
                    ProviderScanItem::CommonPrefix(vstd::slice::slice_to_vec(common.as_slice())),
                )
            };
            Ok(ProjectedScanRow { item, advance: ScanAdvance::AfterCommonPrefix(common) })
        },
        None => {
            let item = if is_excluded(request, logical_key) {
                None
            } else {
                let value = fdb_keys::decode_stored_value(stored_value)?;
                Some(
                    ProviderScanItem::Key {
                        key: vstd::slice::slice_to_vec(logical_key),
                        value: vstd::slice::slice_to_vec(value),
                    },
                )
            };
            Ok(
                ProjectedScanRow {
                    item,
                    advance: ScanAdvance::AfterKey(vstd::slice::slice_to_vec(logical_key)),
                },
            )
        },
    }
}

/// Lower end of a native range.
#[derive(Debug, PartialEq, Eq)]
pub struct RangeStart {
    pub key: Vec<u8>,
    /// Whether the key itself lies in the range.
    pub inclusive: bool,
}

/// Contents of a [`RangeStart`].
pub struct RangeStartView {
    pub key: Seq<u8>,
    pub inclusive: bool,
}

impl View for RangeStart {
    type V = RangeStartView;

    open spec fn view(&self) -> RangeStartView {
        RangeStartView { key: self.key@, inclusive: self.inclusive }
    }
}

impl RangeStartView {
    /// A key lies behind this lower end.
    pub open spec fn admits(self, key: Seq<u8>) -> bool {
        if self.inclusive {
            !bytes::lex_less(key, self.key)
        } else {
            bytes::lex_less(self.key, key)
        }
    }
}

/// A native row: physical key and stored value.
#[derive(Debug, PartialEq, Eq)]
pub struct NativeRow {
    pub key: Vec<u8>,
    pub value: Vec<u8>,
}

/// Contents of a [`NativeRow`].
pub struct NativeRowView {
    pub key: Seq<u8>,
    pub value: Seq<u8>,
}

impl View for NativeRow {
    type V = NativeRowView;

    open spec fn view(&self) -> NativeRowView {
        NativeRowView { key: self.key@, value: self.value@ }
    }
}

/// Contents of a list of native rows.
pub open spec fn row_views(rows: Seq<NativeRow>) -> Seq<NativeRowView> {
    Seq::new(rows.len(), |i: int| rows[i]@)
}

/// A scan in progress.
#[derive(Debug, PartialEq, Eq)]
pub struct ScanRun {
    namespace: Vec<u8>,
    request: ProviderScan,
    begin: RangeStart,
    end: Vec<u8>,
    items: Vec<ProviderScanItem>,
    last_common_prefix: Option<Vec<u8>>,
    visited: u64,
    returned: u64,
    common_prefixes: u64,
    native_requests: u64,
    finished: bool,
}

/// Contents of a [`ScanRun`].
pub struct ScanRunView {
    pub namespace: Seq<u8>,
    pub request: ProviderScanView,
    pub begin: RangeStartView,
    pub end: Seq<u8>,
    pub items: Seq<ProviderScanItemView>,
    pub last_common_prefix: Option<Seq<u8>>,
    pub visited: u64,
    pub returned: u64,
    pub common_prefixes: u64,
    pub native_requests: u64,
    pub finished: bool,
}

impl View for ScanRun {
    type V = ScanRunView;

    closed spec fn view(&self) -> ScanRunView {
        ScanRunView {
            namespace: self.namespace@,
            request: self.request@,
            begin: self.begin@,
            end: self.end@,
            items: provider::item_views(self.items@),
            last_common_prefix: bytes::option_view(self.last_common_prefix),
            visited: self.visited,
            returned: self.returned,
            common_prefixes: self.common_prefixes,
            native_requests: self.native_requests,
            finished: self.finished,
        }
    }
}

/// Lower end behind a projected row.
pub open spec fn begin_after(
    namespace: Seq<u8>,
    space: OrderedSpaceId,
    advance: ScanAdvanceView,
) -> Result<RangeStartView, ProviderFailure> {
    match advance {
        ScanAdvanceView::AfterKey(key) => Ok(
            RangeStartView { key: fdb_keys::physical(namespace, space, key), inclusive: false },
        ),
        ScanAdvanceView::AfterCommonPrefix(prefix) => match fdb_keys::successor(
            fdb_keys::physical(namespace, space, prefix),
        ) {
            None => Err(ProviderFailure::invalid_plan()),
            Some(successor) => Ok(RangeStartView { key: successor, inclusive: true }),
        },
    }
}

/// Lower end behind a projected row.
fn begin_behind(namespace: &[u8], space: OrderedSpaceId, advance: &ScanAdvance) -> (result: Result<
    RangeStart,
    ProviderError,
>)
    ensures
        provider::outcome_view(result) == begin_after(namespace@, space, advance@),
{
    match advance {
        ScanAdvance::AfterKey(key) => Ok(
            RangeStart {
                key: fdb_keys::physical_key(namespace, space, key.as_slice()),
                inclusive: false,
            },
        ),
        ScanAdvance::AfterCommonPrefix(prefix) => {
            let physical = fdb_keys::physical_key(namespace, space, prefix.as_slice());
            match fdb_keys::prefix_end(physical.as_slice()) {
                None => Err(ProviderError::invalid_plan()),
                Some(successor) => Ok(RangeStart { key: successor, inclusive: true }),
            }
        },
    }
}

/// Native range of a scan: the lower end, and the first key behind it. There
/// is none when nothing can lie behind the cursor.
pub open spec fn scan_range_of(namespace: Seq<u8>, request: ProviderScanView) -> Result<
    Option<(RangeStartView, Seq<u8>)>,
    ProviderFailure,
> {
    let physical_prefix = fdb_keys::physical(namespace, request.space, request.prefix);
    match fdb_keys::successor(physical_prefix) {
        None => Err(ProviderFailure::invalid_plan()),
        Some(end) => match scan_start(request) {
            LogicalScanStartView::Prefix => Ok(
                Some((RangeStartView { key: physical_prefix, inclusive: true }, end)),
            ),
            LogicalScanStartView::AfterKey(cursor) => match begin_after(
                namespace,
                request.space,
                ScanAdvanceView::AfterKey(cursor),
            ) {
                Err(e) => Err(e),
                Ok(begin) => Ok(Some((begin, end))),
            },
            LogicalScanStartView::AfterCommonPrefix(common) => match begin_after(
                namespace,
                request.space,
                ScanAdvanceView::AfterCommonPrefix(common),
            ) {
                Err(e) => Err(e),
                Ok(begin) => Ok(Some((begin, end))),
            },
            LogicalScanStartView::Empty => Ok(None),
        },
    }
}

/// Native range of a scan.
pub fn scan_range(namespace: &[u8], request: &ProviderScan) -> (result: Result<
    Option<(RangeStart, Vec<u8>)>,
    ProviderError,
>)
    ensures
        match scan_range_of(namespace@, request@) {
            Ok(Some((begin, end))) => result matches Ok(Some((b, e))) && b@ == begin && e@ == end,
            Ok(None) => result matches Ok(None),
            Err(failure) => result matches Err(e) && e@ == failure,
        },
{
    let physical_prefix = fdb_keys::physical_key(
        namespace,
        request.space,
        request.prefix.as_slice(),
    );
    let end = match fdb_keys::prefix_end(physical_prefix.as_slice()) {
        None => {
            return Err(ProviderError::invalid_plan());
        },
        Some(end) => end,
    };
    let begin = match logical_scan_start(request) {
        LogicalScanStart::Prefix => RangeStart { key: physical_prefix, inclusive: true },
        LogicalScanStart::AfterKey(cursor) => begin_behind(
            namespace,
            request.space,
            &ScanAdvance::AfterKey(cursor),
        )?,
        LogicalScanStart::AfterCommonPrefix(common) => begin_behind(
            namespace,
            request.space,
            &ScanAdvance::AfterCommonPrefix(common),
        )?,
        LogicalScanStart::Empty => {
            return Ok(None);
        },
    };
    Ok(Some((begin, end)))
}

/// The space is known and no key of the request is too long.
pub open spec fn request_check(request: ProviderScanView, max_key_bytes: usize) -> Result<
    (),
    ProviderFailure,
> {
    provider::and_also(
        provider::space_check(request.space),
        provider::and_also(
            provider::length_check(request.prefix.len(), max_key_bytes),
            match request.start_after {
                None => Ok(()),
                Some(cursor) => provider::length_check(cursor.len(), max_key_bytes),
            },
        ),
    )
}

impl ScanRunView {
    /// A scan that has read nothing.
    pub open spec fn fresh(
        namespace: Seq<u8>,
        request: ProviderScanView,
        begin: RangeStartView,
        end: Seq<u8>,
    ) -> Self {
        ScanRunView {
            namespace,
            request,
            begin,
            end,
            items: Seq::empty(),
            last_common_prefix: None,
            visited: 0,
            returned: 0,
            common_prefixes: 0,
            native_requests: 0,
            finished: false,
        }
    }

    /// The scan that a request starts; none when its page is empty.
    pub open spec fn started(
        namespace: Seq<u8>,
        request: ProviderScanView,
        max_key_bytes: usize,
    ) -> Result<Option<Self>, ProviderFailure> {
        match request_check(request, max_key_bytes) {
            Err(e) => Err(e),
            Ok(()) => match scan_range_of(namespace, request) {
                Err(e) => Err(e),
                Ok(None) => Ok(None),
                Ok(Some((begin, end))) => Ok(Some(Self::fresh(namespace, request, begin, end))),
            },
        }
    }

    /// Prefix of every physical key of the scanned space.
    pub open spec fn front(self) -> Seq<u8> {
        self.namespace + bytes::be16(self.request.space)
    }

    /// The page holds as many items as were asked for.
    pub open spec fn full(self) -> bool {
        self.request.limit != 0 && self.items.len() >= self.request.limit
    }

    /// Rows that the next native request asks for; none when the scan is done.
    pub open spec fn next_limit(self) -> Option<usize> {
        if self.finished || self.full() {
            None
        } else if self.request.limit == 0 {
            Some(FDB_SCAN_BATCH_ROWS)
        } else {
            let remaining = self.request.limit - self.items.len();
            if remaining < FDB_SCAN_BATCH_ROWS {
                Some(remaining as usize)
            } else {
                Some(FDB_SCAN_BATCH_ROWS)
            }
        }
    }

    /// The scan with one more item, if there is one.
    pub open spec fn with_row(self, row: ProjectedScanRowView) -> Self {
        match row.item {
            None => ScanRunView { last_common_prefix: row.last_common_prefix, ..self },
            Some(item) => ScanRunView {
                items: self.items.push(item),
                last_common_prefix: row.last_common_prefix,
                returned: if item is Key {
                    read_stats::counted(self.returned as int, 1)
                } else {
                    self.returned
                },
                common_prefixes: if item is CommonPrefix {
                    read_stats::counted(self.common_prefixes as int, 1)
                } else {
                    self.common_prefixes
                },
                ..self
            },
        }
    }

    /// The scan after one native row: its logical key is projected.
    pub open spec fn absorbed_row(self, row: NativeRowView) -> Result<
        (Self, ScanAdvanceView),
        ProviderFailure,
    > {
        match fdb_keys::logical_of(self.front(), row.key) {
            None => Err(ProviderFailure::schema()),
            Some(logical_key) => match projected(
                self.request,
                logical_key,
                row.value,
                self.last_common_prefix,
            ) {
                Err(e) => Err(e),
                Ok(projected_row) => Ok((self.with_row(projected_row), projected_row.advance)),
            },
        }
    }

    /// The scan after native rows from index `i` on, as many as the page
    /// takes, with where the last of them leads.
    pub open spec fn absorbed(
        self,
        rows: Seq<NativeRowView>,
        i: int,
        advance: Option<ScanAdvanceView>,
    ) -> Result<(Self, Option<ScanAdvanceView>), ProviderFailure>
        decreases rows.len() - i,
    {
        if i >= rows.len() || self.full() {
            Ok((self, advance))
        } else {
            match self.absorbed_row(rows[i]) {
                Err(e) => Err(e),
                Ok((run, next)) => run.absorbed(rows, i + 1, Some(next)),
            }
        }
    }

    /// The scan after one native request was answered.
    pub open spec fn accepted(self, rows: Seq<NativeRowView>, more: bool) -> Result<
        Self,
        ProviderFailure,
    > {
        let counted = ScanRunView {
            native_requests: read_stats::counted(self.native_requests as int, 1),
            visited: read_stats::counted(self.visited as int, rows.len() as int),
            ..self
        };
        if rows.len() == 0 {
            Ok(ScanRunView { finished: true, ..counted })
        } else {
            match counted.absorbed(rows, 0, None) {
                Err(e) => Err(e),
                Ok((run, advance)) => if run.full() || !more {
                    Ok(ScanRunView { finished: true, ..run })
                } else {
                    match advance {
                        None => Err(ProviderFailure::schema()),
                        Some(advance) => match begin_after(
                            run.namespace,
                            run.request.space,
                            advance,
                        ) {
                            Err(e) => Err(e),
                            Ok(begin) => Ok(ScanRunView { begin, ..run }),
                        },
                    }
                },
            }
        }
    }

    /// The page of the scan.
    pub open spec fn page(self) -> ProviderScanPageView {
        ProviderScanPageView {
            items: self.items,
            stats: ProviderScanStats {
                visited: self.visited,
                returned: self.returned,
                common_prefixes: self.common_prefixes,
                restarts: if self.native_requests == 0 {
                    0
                } else {
                    (self.native_requests - 1) as u64
                },
            },
        }
    }
}

impl ScanRun {
    /// Starts the scan of a valid request; there is none when its page is
    /// empty.
    pub fn start(namespace: &[u8], request: ProviderScan, max_key_bytes: usize) -> (result: Result<
        Option<Self>,
        ProviderError,
    >)
        ensures
            match ScanRunView::started(namespace@, request@, max_key_bytes) {
                Ok(Some(run)) => result matches Ok(Some(r)) && r@ == run,
                Ok(None) => result matches Ok(None),
                Err(failure) => result matches Err(e) && e@ == failure,
            },
    {
        provider::validate_space(request.space)?;
        provider::validate_length(request.prefix.len(), max_key_bytes)?;
        match &request.start_after {
            None => {},
            Some(cursor) => provider::validate_length(cursor.len(), max_key_bytes)?,
        }
        match scan_range(namespace, &request)? {
            None => Ok(None),
            Some((begin, end)) => {
                let run = Self {
                    namespace: vstd::slice::slice_to_vec(namespace),
                    request,
                    begin,
                    end,
                    items: Vec::new(),
                    last_common_prefix: None,
                    visited: 0,
                    returned: 0,
                    common_prefixes: 0,
                    native_requests: 0,
                    finished: false,
                };
                assert(run@.items =~= Seq::empty());
                Ok(Some(run))
            },
        }
    }

    /// Lower end of the next native request.
    pub fn begin(&self) -> (begin: &RangeStart)
        ensures
            begin@ == self@.begin,
    {
        &self.begin
    }

    /// First key behind every native request.
    pub fn end(&self) -> (end: &Vec<u8>)
        ensures
            end@ == self@.end,
    {
        &self.end
    }

    /// Rows that the next native request asks for; none when the scan is done.
    pub fn next_limit(&self) -> (limit: Option<usize>)
        ensures
            limit == self@.next_limit(),
    {
        if self.finished {
            return None;
        }
        if self.request.limit == 0 {
            return Some(FDB_SCAN_BATCH_ROWS);
        }
        let remaining: usize = self.request.limit.saturating_sub(self.items.len());
        if remaining == 0 {
            None
        } else if remaining < FDB_SCAN_BATCH_ROWS {
            Some(remaining)
        } else {
            Some(FDB_SCAN_BATCH_ROWS)
        }
    }

    /// Whether the page holds as many items as were asked for.
    fn is_full(&self) -> (full: bool)
        ensures
            full == self@.full(),
    {
        self.request.limit != 0 && self.items.len() >= self.request.limit
    }

    /// Takes one native row.
    fn absorb_row(&mut self, row: &NativeRow) -> (result: Result<ScanAdvance, ProviderError>)
        ensures
            match old(self)@.absorbed_row(row@) {
                Ok((run, advance)) => result matches Ok(a) && a@ == advance && final(self)@ == run,
                Err(failure) => result matches Err(e) && e@ == failure,
            },
    {
        let front = fdb_keys::physical_space_prefix(self.namespace.as_slice(), self.request.space);
        match fdb_keys::logical_key(front.as_slice(), row.key.as_slice()) {
            None => Err(ProviderError::schema()),
            Some(logical_key) => {
                let projected_row = project_scan_row(
                    &self.request,
                    logical_key,
                    row.value.as_slice(),
                    &mut self.last_common_prefix,
                )?;
                match projected_row.item {
                    None => {},
                    Some(item) => {
                        match &item {
                            ProviderScanItem::Key { .. } => {
                                self.returned = self.returned.saturating_add(1);
                            },
                            ProviderScanItem::CommonPrefix(_) => {
                                self.common_prefixes = self.common_prefixes.saturating_add(1);
                            },
                        }
                        let ghost before = provider::item_views(self.items@);
                        let ghost view = item@;
                        self.items.push(item);
                        assert(provider::item_views(self.items@) =~= before.push(view));
                    },
                }
                Ok(projected_row.advance)
            },
        }
    }

    /// Takes the answer to one native request.
    pub fn accept(&mut self, rows: &Vec<NativeRow>, more: bool) -> (result: Result<
        (),
        ProviderError,
    >)
        ensures
            match old(self)@.accepted(row_views(rows@), more) {
                Ok(run) => result is Ok && final(self)@ == run,
                Err(failure) => result matches Err(e) && e@ == failure,
            },
    {
        let ghost views = row_views(rows@);
        let count: usize = rows.len();
        self.native_requests = self.native_requests.saturating_add(1);
        self.visited = self.visited.saturating_add(count as u64);
        if count == 0 {
            self.finished = true;
            return Ok(());
        }
        let ghost counted = self@;
        let mut last_advance: Option<ScanAdvance> = None;
        let mut i: usize = 0;
        let mut full = self.is_full();
        while i < rows.len() && !full
            invariant
                i <= rows@.len(),
                views == row_views(rows@),
                full == self@.full(),
                counted.absorbed(views, 0, None) == self@.absorbed(
                    views,
                    i as int,
                    bytes::option_view(last_advance),
                ),
                old(self)@.accepted(views, more) == (match counted.absorbed(views, 0, None) {
                    Err(e) => Err(e),
                    Ok((run, advance)) => if run.full() || !more {
                        Ok(ScanRunView { finished: true, ..run })
                    } else {
                        match advance {
                            None => Err(ProviderFailure::schema()),
                            Some(advance) => match begin_after(
                                run.namespace,
                                run.request.space,
                                advance,
                            ) {
                                Err(e) => Err(e),
                                Ok(begin) => Ok(ScanRunView { begin, ..run }),
                            },
                        }
                    },
                }),
            decreases rows@.len() - i,
        {
            assert(views[i as int] == rows@[i as int]@);
            let advance = self.absorb_row(&rows[i])?;
            last_advance = Some(advance);
            full = self.is_full();
            i = i + 1;
        }
        if full || !more {
            self.finished = true;
            return Ok(());
        }
        match &last_advance {
            None => Err(ProviderError::schema()),
            Some(advance) => {
                self.begin = begin_behind(self.namespace.as_slice(), self.request.space, advance)?;
                Ok(())
            },
        }
    }

    /// The page of the scan.
    pub fn finish(self) -> (page: ProviderScanPage)
        ensures
            page@ == self@.page(),
    {
        ProviderScanPage {
            stats: ProviderScanStats {
                visited: self.visited,
                returned: self.returned,
                common_prefixes: self.common_prefixes,
                restarts: self.native_requests.saturating_sub(1),
            },
            items: self.items,
        }
    }
}

} // verus!
