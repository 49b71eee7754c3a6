//! Accumulators of aggregate queries.
//!
//! An accumulator is a function of the operands that its group saw: the values
//! of its field that are present and not null, in row order. What takes
//! floating-point arithmetic is kept as the list of operands.

use vstd::prelude::*;

use crate::bytes;
use crate::names::QueryFieldId;
use crate::query_rows::{MaterializedRow, RowView};
use crate::query_types::{
    AggregateFunction, AggregateSpec, AggregateSpecView, QueryError, QueryFailure,
};
use crate::scalars;
use crate::scalars::{FiniteFloat, QueryScalar, QueryScalarView};
use crate::sorted_maps;

verus! {

/// Sum of the operands of one group.
#[derive(Debug, PartialEq, Eq)]
pub enum SumState {
    Empty,
    Signed(i64),
    Unsigned(u64),
    /// Operands of a floating-point sum, in row order.
    Floats(Vec<FiniteFloat>),
}

/// Contents of a [`SumState`].
pub enum SumView {
    Empty,
    Signed(i64),
    Unsigned(u64),
    Floats(Seq<u64>),
}

/// Bits of a list of floats.
pub open spec fn float_bits(list: Seq<FiniteFloat>) -> Seq<u64> {
    Seq::new(list.len(), |i: int| list[i]@)
}

impl View for SumState {
    type V = SumView;

    open spec fn view(&self) -> SumView {
        match self {
            Self::Empty => SumView::Empty,
            Self::Signed(value) => SumView::Signed(*value),
            Self::Unsigned(value) => SumView::Unsigned(*value),
            Self::Floats(list) => SumView::Floats(float_bits(list@)),
        }
    }
}

/// Running result of one aggregate over one group.
#[derive(Debug, PartialEq, Eq)]
pub enum AggregateAccumulator {
    Count(u64),
    Sum(SumState),
    /// Numeric operands of an average, in row order.
    Average(Vec<QueryScalar>),
    Minimum(Option<QueryScalar>),
    Maximum(Option<QueryScalar>),
}

/// Contents of an [`AggregateAccumulator`].
pub enum Tally {
    Count(u64),
    Sum(SumView),
    Average(Seq<QueryScalarView>),
    Minimum(Option<QueryScalarView>),
    Maximum(Option<QueryScalarView>),
}

impl View for AggregateAccumulator {
    type V = Tally;

    open spec fn view(&self) -> Tally {
        match self {
            Self::Count(count) => Tally::Count(*count),
            Self::Sum(sum) => Tally::Sum(sum@),
            Self::Average(operands) => Tally::Average(sorted_maps::scalar_views(operands@)),
            Self::Minimum(value) => Tally::Minimum(bytes::option_view(*value)),
            Self::Maximum(value) => Tally::Maximum(bytes::option_view(*value)),
        }
    }
}

/// Value of the field of an aggregate in one row, where it is present and not
/// null.
pub open spec fn operand(spec: AggregateSpecView, row: RowView) -> Option<QueryScalarView> {
    match spec.field_id {
        None => None,
        Some(field) => match row.value(field) {
            None => None,
            Some(value) => if value == QueryScalarView::Null {
                None
            } else {
                Some(value)
            },
        },
    }
}

/// Operands of an aggregate in the rows of one group.
pub open spec fn operands(spec: AggregateSpecView, rows: Seq<RowView>) -> Seq<QueryScalarView>
    decreases rows.len(),
{
    if rows.len() == 0 {
        Seq::empty()
    } else {
        match operand(spec, rows.last()) {
            None => operands(spec, rows.drop_last()),
            Some(value) => operands(spec, rows.drop_last()).push(value),
        }
    }
}

/// One operand more added to a sum.
pub open spec fn sum_with(result_id: Seq<u8>, sum: SumView, value: QueryScalarView) -> Result<
    SumView,
    QueryFailure,
> {
    match (sum, value) {
        (SumView::Empty, QueryScalarView::Signed(right)) => Ok(SumView::Signed(right)),
        (SumView::Empty, QueryScalarView::Unsigned(right)) => Ok(SumView::Unsigned(right)),
        (SumView::Empty, QueryScalarView::Float(right)) => Ok(SumView::Floats(seq![right])),
        (SumView::Signed(left), QueryScalarView::Signed(right)) => if i64::MIN <= left + right
            <= i64::MAX {
            Ok(SumView::Signed((left + right) as i64))
        } else {
            Err(QueryError::AggregateOverflow { result_id })
        },
        (SumView::Unsigned(left), QueryScalarView::Unsigned(right)) => if left + right <= u64::MAX {
            Ok(SumView::Unsigned((left + right) as u64))
        } else {
            Err(QueryError::AggregateOverflow { result_id })
        },
        (SumView::Floats(list), QueryScalarView::Float(right)) => Ok(
            SumView::Floats(list.push(right)),
        ),
        _ => Err(
            QueryError::InvalidAggregate {
                result_id,
                reason: "sum requires one stable numeric scalar type",
            },
        ),
    }
}

/// Sum of the operands.
pub open spec fn sum_of(result_id: Seq<u8>, list: Seq<QueryScalarView>) -> Result<
    SumView,
    QueryFailure,
>
    decreases list.len(),
{
    if list.len() == 0 {
        Ok(SumView::Empty)
    } else {
        match sum_of(result_id, list.drop_last()) {
            Err(e) => Err(e),
            Ok(sum) => sum_with(result_id, sum, list.last()),
        }
    }
}

/// A value that an average takes.
pub open spec fn averages(value: QueryScalarView) -> bool {
    match value {
        QueryScalarView::Signed(_) => true,
        QueryScalarView::Unsigned(_) => true,
        QueryScalarView::Float(_) => true,
        _ => false,
    }
}

/// The least of the operands.
pub open spec fn least(list: Seq<QueryScalarView>) -> Option<QueryScalarView>
    decreases list.len(),
{
    if list.len() == 0 {
        None
    } else {
        match least(list.drop_last()) {
            None => Some(list.last()),
            Some(current) => if list.last().less(current) {
                Some(list.last())
            } else {
                Some(current)
            },
        }
    }
}

/// The greatest of the operands.
pub open spec fn greatest(list: Seq<QueryScalarView>) -> Option<QueryScalarView>
    decreases list.len(),
{
    if list.len() == 0 {
        None
    } else {
        match greatest(list.drop_last()) {
            None => Some(list.last()),
            Some(current) => if current.less(list.last()) {
                Some(list.last())
            } else {
                Some(current)
            },
        }
    }
}

/// The accumulator of an aggregate over the rows of one group, or its failure.
pub open spec fn tally_of(spec: AggregateSpecView, rows: Seq<RowView>) -> Result<
    Tally,
    QueryFailure,
> {
    let list = operands(spec, rows);
    match spec.function {
        AggregateFunction::Count => Ok(
            Tally::Count(
                if spec.field_id is None {
                    rows.len() as u64
                } else {
                    list.len() as u64
                },
            ),
        ),
        AggregateFunction::Sum => match sum_of(spec.result_id, list) {
            Ok(sum) => Ok(Tally::Sum(sum)),
            Err(e) => Err(e),
        },
        AggregateFunction::Average => if all_average(list) {
            Ok(Tally::Average(list))
        } else {
            Err(
                QueryError::InvalidAggregate {
                    result_id: spec.result_id,
                    reason: "average requires numeric values",
                },
            )
        },
        AggregateFunction::Minimum => Ok(Tally::Minimum(least(list))),
        AggregateFunction::Maximum => Ok(Tally::Maximum(greatest(list))),
    }
}

/// Every value is one that an average takes.
pub open spec fn all_average(list: Seq<QueryScalarView>) -> bool {
    forall|i: int| 0 <= i < list.len() ==> averages(#[trigger] list[i])
}

/// There are at most as many operands as rows.
pub proof fn operands_are_bounded(spec: AggregateSpecView, rows: Seq<RowView>)
    ensures
        operands(spec, rows).len() <= rows.len(),
    decreases rows.len(),
{
    if rows.len() > 0 {
        operands_are_bounded(spec, rows.drop_last());
    }
}

/// The accumulator of an aggregate before any row.
pub fn new_accumulator(spec: &AggregateSpec) -> (accumulator: AggregateAccumulator)
    ensures
        tally_of(spec@, Seq::empty()) == Ok::<Tally, QueryFailure>(accumulator@),
{
    match spec.function {
        AggregateFunction::Count => AggregateAccumulator::Count(0),
        AggregateFunction::Sum => AggregateAccumulator::Sum(SumState::Empty),
        AggregateFunction::Average => {
            let none: Vec<QueryScalar> = Vec::new();
            assert(sorted_maps::scalar_views(none@) =~= Seq::<QueryScalarView>::empty());
            AggregateAccumulator::Average(none)
        },
        AggregateFunction::Minimum => AggregateAccumulator::Minimum(None),
        AggregateFunction::Maximum => AggregateAccumulator::Maximum(None),
    }
}

/// Value of the field of an aggregate in one row, where it is present and not
/// null.
fn read_operand(spec: &AggregateSpec, row: &MaterializedRow) -> (value: Option<QueryScalar>)
    ensures
        bytes::option_view(value) == operand(spec@, row@),
{
    match &spec.field_id {
        None => None,
        Some(field) => match row.value(field) {
            None => None,
            Some(value) => {
                if value.is_null() {
                    None
                } else {
                    Some(value)
                }
            },
        },
    }
}

/// Adds one operand to a sum; a failure leaves the sum as it was.
fn add_scalar(sum: &mut SumState, value: &QueryScalar, result_id: &QueryFieldId) -> (result: Result<
    (),
    QueryError,
>)
    ensures
        match result {
            Ok(()) => sum_with(result_id@, old(sum)@, value@) == Ok::<SumView, QueryFailure>(
                final(sum)@,
            ),
            Err(e) => sum_with(result_id@, old(sum)@, value@) == Err::<SumView, QueryFailure>(
                e.model(),
            ) && final(sum)@ == old(sum)@,
        },
{
    let mut failed: bool = false;
    let mut overflowed: bool = false;
    match (&*sum, value) {
        (SumState::Empty, QueryScalar::Signed(right)) => {
            *sum = SumState::Signed(*right);
        },
        (SumState::Empty, QueryScalar::Unsigned(right)) => {
            *sum = SumState::Unsigned(*right);
        },
        (SumState::Empty, QueryScalar::Float(right)) => {
            let mut list: Vec<FiniteFloat> = Vec::new();
            list.push(*right);
            assert(float_bits(list@) =~= seq![right@]);
            *sum = SumState::Floats(list);
        },
        (SumState::Signed(left), QueryScalar::Signed(right)) => {
            match left.checked_add(*right) {
                Some(total) => {
                    *sum = SumState::Signed(total);
                },
                None => {
                    overflowed = true;
                },
            }
        },
        (SumState::Unsigned(left), QueryScalar::Unsigned(right)) => {
            match left.checked_add(*right) {
                Some(total) => {
                    *sum = SumState::Unsigned(total);
                },
                None => {
                    overflowed = true;
                },
            }
        },
        (SumState::Floats(_), QueryScalar::Float(right)) => {
            let mut taken = SumState::Empty;
            std::mem::swap(&mut taken, sum);
            if let SumState::Floats(list) = taken {
                let mut list = list;
                let ghost before = float_bits(list@);
                list.push(*right);
                assert(float_bits(list@) =~= before.push(right@));
                *sum = SumState::Floats(list);
            }
        },
        _ => {
            failed = true;
        },
    }
    if overflowed {
        return Err(QueryError::AggregateOverflow { result_id: result_id.clone() });
    }
    if failed {
        return Err(
            QueryError::InvalidAggregate {
                result_id: result_id.clone(),
                reason: "sum requires one stable numeric scalar type",
            },
        );
    }
    Ok(())
}

/// Whether an average takes the value.
fn is_averaged(value: &QueryScalar) -> (numeric: bool)
    ensures
        numeric == averages(value@),
{
    match value {
        QueryScalar::Signed(_) => true,
        QueryScalar::Unsigned(_) => true,
        QueryScalar::Float(_) => true,
        _ => false,
    }
}

/// Lets an accumulator see one more row of its group; a failure leaves it as it
/// was.
pub(crate) fn observe(
    accumulator: AggregateAccumulator,
    spec: &AggregateSpec,
    row: &MaterializedRow,
    Ghost(rows): Ghost<Seq<RowView>>,
) -> (result: (AggregateAccumulator, Option<QueryError>))
    requires
        tally_of(spec@, rows) == Ok::<Tally, QueryFailure>(accumulator@),
        rows.len() < u64::MAX,
    ensures
        match result.1 {
            None => tally_of(spec@, rows.push(row@)) == Ok::<Tally, QueryFailure>(result.0@),
            Some(e) => tally_of(spec@, rows.push(row@)) == Err::<Tally, QueryFailure>(e.model())
                && result.0@ == accumulator@,
        },
{
    let ghost before = operands(spec@, rows);
    let ghost after = operands(spec@, rows.push(row@));
    proof {
        assert(rows.push(row@).drop_last() =~= rows);
        operands_are_bounded(spec@, rows);
    }
    let value = read_operand(spec, row);
    match accumulator {
        AggregateAccumulator::Count(count) => {
            if spec.field_id.is_none() || value.is_some() {
                (AggregateAccumulator::Count(count + 1), None)
            } else {
                (AggregateAccumulator::Count(count), None)
            }
        },
        AggregateAccumulator::Sum(sum) => {
            match &value {
                None => (AggregateAccumulator::Sum(sum), None),
                Some(value) => {
                    proof {
                        assert(after.drop_last() =~= before);
                    }
                    let mut sum = sum;
                    match add_scalar(&mut sum, value, &spec.result_id) {
                        Ok(()) => (AggregateAccumulator::Sum(sum), None),
                        Err(e) => (AggregateAccumulator::Sum(sum), Some(e)),
                    }
                },
            }
        },
        AggregateAccumulator::Average(list) => {
            match value {
                None => (AggregateAccumulator::Average(list), None),
                Some(value) => {
                    if !is_averaged(&value) {
                        proof {
                            assert(after[before.len() as int] == value@);
                            assert(!all_average(after));
                        }
                        return (
                            AggregateAccumulator::Average(list),
                            Some(
                                QueryError::InvalidAggregate {
                                    result_id: spec.result_id.clone(),
                                    reason: "average requires numeric values",
                                },
                            ),
                        );
                    }
                    let mut list = list;
                    list.push(value);
                    proof {
                        assert(sorted_maps::scalar_views(list@) =~= after);
                        assert forall|i: int| 0 <= i < after.len() implies averages(
                            #[trigger] after[i],
                        ) by {
                            if i < before.len() {
                                assert(after[i] == before[i]);
                            }
                        }
                    }
                    (AggregateAccumulator::Average(list), None)
                },
            }
        },
        AggregateAccumulator::Minimum(current) => {
            match value {
                None => (AggregateAccumulator::Minimum(current), None),
                Some(value) => {
                    proof {
                        assert(after.drop_last() =~= before);
                    }
                    let replace: bool = match &current {
                        None => true,
                        Some(current) => value.before(current),
                    };
                    if replace {
                        (AggregateAccumulator::Minimum(Some(value)), None)
                    } else {
                        (AggregateAccumulator::Minimum(current), None)
                    }
                },
            }
        },
        AggregateAccumulator::Maximum(current) => {
            match value {
                None => (AggregateAccumulator::Maximum(current), None),
                Some(value) => {
                    proof {
                        assert(after.drop_last() =~= before);
                    }
                    let replace: bool = match &current {
                        None => true,
                        Some(current) => current.before(&value),
                    };
                    if replace {
                        (AggregateAccumulator::Maximum(Some(value)), None)
                    } else {
                        (AggregateAccumulator::Maximum(current), None)
                    }
                },
            }
        },
    }
}

/// The accumulator waits for the result of a floating-point fold.
pub open spec fn needs_fold(tally: Tally) -> bool {
    match tally {
        Tally::Sum(SumView::Floats(_)) => true,
        Tally::Average(list) => list.len() > 0,
        _ => false,
    }
}

/// Why a result that is not finite is refused.
pub open spec fn non_finite() -> QueryFailure {
    QueryError::Projection { source: bytes::utf8("query float must be finite"@) }
}

/// Result of an accumulator; `bits` is the result of its floating-point fold,
/// where it needs one.
pub open spec fn finished(tally: Tally, bits: u64) -> QueryScalarView {
    match tally {
        Tally::Count(count) => QueryScalarView::Unsigned(count),
        Tally::Sum(SumView::Empty) => QueryScalarView::Null,
        Tally::Sum(SumView::Signed(value)) => QueryScalarView::Signed(value),
        Tally::Sum(SumView::Unsigned(value)) => QueryScalarView::Unsigned(value),
        Tally::Sum(SumView::Floats(_)) => QueryScalarView::Float(scalars::canonical_bits(bits)),
        Tally::Average(list) => if list.len() == 0 {
            QueryScalarView::Null
        } else {
            QueryScalarView::Float(scalars::canonical_bits(bits))
        },
        Tally::Minimum(value) => optional_scalar(value),
        Tally::Maximum(value) => optional_scalar(value),
    }
}

/// An optional scalar: null where there is none.
pub open spec fn optional_scalar(value: Option<QueryScalarView>) -> QueryScalarView {
    match value {
        None => QueryScalarView::Null,
        Some(value) => value,
    }
}

/// A copy of an optional scalar: null where there is none.
fn scalar_or_null(value: &Option<QueryScalar>) -> (scalar: QueryScalar)
    ensures
        scalar@ == optional_scalar(bytes::option_view(*value)),
{
    match value {
        None => QueryScalar::Null,
        Some(value) => value.clone(),
    }
}

/// The result of an accumulator, unless its fold is not finite.
pub fn finish(accumulator: &AggregateAccumulator, bits: u64) -> (result: Option<QueryScalar>)
    ensures
        match result {
            Some(value) => value@ == finished(accumulator@, bits) && (needs_fold(accumulator@)
                ==> scalars::finite_bits(bits)),
            None => needs_fold(accumulator@) && !scalars::finite_bits(bits),
        },
{
    match accumulator {
        AggregateAccumulator::Count(count) => Some(QueryScalar::Unsigned(*count)),
        AggregateAccumulator::Sum(SumState::Empty) => Some(QueryScalar::Null),
        AggregateAccumulator::Sum(SumState::Signed(value)) => Some(QueryScalar::Signed(*value)),
        AggregateAccumulator::Sum(SumState::Unsigned(value)) => Some(
            QueryScalar::Unsigned(*value),
        ),
        AggregateAccumulator::Sum(SumState::Floats(_)) => match FiniteFloat::from_bits(bits) {
            Ok(value) => Some(QueryScalar::Float(value)),
            Err(_) => None,
        },
        AggregateAccumulator::Average(list) => {
            if list.len() == 0 {
                Some(QueryScalar::Null)
            } else {
                match FiniteFloat::from_bits(bits) {
                    Ok(value) => Some(QueryScalar::Float(value)),
                    Err(_) => None,
                }
            }
        },
        AggregateAccumulator::Minimum(value) => Some(scalar_or_null(value)),
        AggregateAccumulator::Maximum(value) => Some(scalar_or_null(value)),
    }
}

/// The sum of integers as a mathematical number.
pub open spec fn total(list: Seq<QueryScalarView>) -> int
    decreases list.len(),
{
    if list.len() == 0 {
        0
    } else {
        total(list.drop_last()) + match list.last() {
            QueryScalarView::Signed(value) => value as int,
            QueryScalarView::Unsigned(value) => value as int,
            _ => 0int,
        }
    }
}

/// A sum of integers that does not fail is exact.
pub proof fn integer_sums_are_exact(result_id: Seq<u8>, list: Seq<QueryScalarView>)
    ensures
        match sum_of(result_id, list) {
            Ok(SumView::Signed(value)) => value == total(list),
            Ok(SumView::Unsigned(value)) => value == total(list),
            Ok(SumView::Empty) => list.len() == 0,
            _ => true,
        },
    decreases list.len(),
{
    reveal_with_fuel(total, 2);
    if list.len() > 0 {
        integer_sums_are_exact(result_id, list.drop_last());
    }
}

/// The minimum is one of the operands, and no operand comes before it.
pub proof fn minimum_is_least(list: Seq<QueryScalarView>)
    ensures
        match least(list) {
            None => list.len() == 0,
            Some(value) => list.contains(value) && forall|i: int|
                0 <= i < list.len() ==> !(#[trigger] list[i]).less(value),
        },
    decreases list.len(),
{
    if list.len() > 0 {
        let shorter = list.drop_last();
        let n = list.len() - 1;
        minimum_is_least(shorter);
        list[n].less_irreflexive();
        match least(shorter) {
            None => {
                assert(list[n] == list.last());
            },
            Some(current) => {
                let k = choose|k: int| 0 <= k < shorter.len() && shorter[k] == current;
                assert(list[k] == current);
                assert(list[n] == list.last());
                assert forall|i: int| 0 <= i < list.len() implies !(#[trigger] list[i]).less(
                    least(list)->0,
                ) by {
                    if i < n {
                        assert(shorter[i] == list[i]);
                        if list.last().less(current) && list[i].less(list.last()) {
                            list[i].less_transitive(list.last(), current);
                        }
                    }
                }
            },
        }
    }
}

/// The maximum is one of the operands, and no operand comes behind it.
pub proof fn maximum_is_greatest(list: Seq<QueryScalarView>)
    ensures
        match greatest(list) {
            None => list.len() == 0,
            Some(value) => list.contains(value) && forall|i: int|
                0 <= i < list.len() ==> !value.less(#[trigger] list[i]),
        },
    decreases list.len(),
{
    if list.len() > 0 {
        let shorter = list.drop_last();
        let n = list.len() - 1;
        maximum_is_greatest(shorter);
        list[n].less_irreflexive();
        match greatest(shorter) {
            None => {
                assert(list[n] == list.last());
            },
            Some(current) => {
                let k = choose|k: int| 0 <= k < shorter.len() && shorter[k] == current;
                assert(list[k] == current);
                assert(list[n] == list.last());
                assert forall|i: int| 0 <= i < list.len() implies !greatest(list)->0.less(
                    #[trigger] list[i],
                ) by {
                    if i < n {
                        assert(shorter[i] == list[i]);
                        if current.less(list.last()) && list.last().less(list[i]) {
                            current.less_transitive(list.last(), list[i]);
                        }
                    }
                }
            },
        }
    }
}

} // verus!
