//! Sorted lists: what a strict order determines, and a stable merge sort.

use vstd::prelude::*;

verus! {

/// Every element comes before the elements that follow it.
pub open spec fn strictly_sorted<A>(list: Seq<A>, before: spec_fn(A, A) -> bool) -> bool {
    forall|i: int, j: int|
        #![trigger list[i], list[j]]
        0 <= i < j < list.len() ==> before(list[i], list[j])
}

/// No two elements come before each other.
pub open spec fn asymmetric<A>(list: Seq<A>, before: spec_fn(A, A) -> bool) -> bool {
    forall|i: int, j: int|
        #![trigger list[i], list[j]]
        0 <= i < list.len() && 0 <= j < list.len() ==> !(before(list[i], list[j]) && before(
            list[j],
            list[i],
        ))
}

/// A sorted list has room for one more element.
pub proof fn sorted_list_takes<A>(list: Seq<A>, x: A, before: spec_fn(A, A) -> bool) -> (now: Seq<A>)
    requires
        strictly_sorted(list, before),
        !list.contains(x),
        forall|a: A, b: A| #![trigger before(a, b)] a == b || before(a, b) || before(b, a),
        forall|a: A, b: A, c: A|
            #![trigger before(a, b), before(b, c)]
            before(a, b) && before(b, c) ==> before(a, c),
    ensures
        strictly_sorted(now, before),
        forall|y: A| now.contains(y) <==> list.contains(y) || y == x,
    decreases list.len(),
{
    if list.len() == 0 {
        let now = seq![x];
        assert(now[0] == x);
        now
    } else {
        let n = list.len() - 1;
        let last = list[n];
        let shorter = list.drop_last();
        assert(list.contains(last));
        assert forall|y: A| list.contains(y) <==> shorter.contains(y) || y == last by {
            if list.contains(y) {
                let k = choose|k: int| 0 <= k < list.len() && list[k] == y;
                if k < n {
                    assert(shorter[k] == y);
                }
            }
            if shorter.contains(y) {
                let k = choose|k: int| 0 <= k < shorter.len() && shorter[k] == y;
                assert(list[k] == y);
            }
        }
        let (front, end) = if before(last, x) {
            (list, x)
        } else {
            assert forall|i: int, j: int|
                #![trigger shorter[i], shorter[j]]
                0 <= i < j < shorter.len() implies before(shorter[i], shorter[j]) by {
                assert(shorter[i] == list[i] && shorter[j] == list[j]);
            }
            (sorted_list_takes(shorter, x, before), last)
        };
        let now = front.push(end);
        assert forall|i: int| 0 <= i < front.len() implies before(#[trigger] front[i], end) by {
            if before(last, x) {
                if i < n {
                    assert(before(list[i], list[n]));
                }
            } else {
                assert(front.contains(front[i]));
                if front[i] != x {
                    let k = choose|k: int| 0 <= k < shorter.len() && shorter[k] == front[i];
                    assert(before(list[k], list[n]));
                } else {
                    assert(before(x, last) || before(last, x));
                }
            }
        }
        assert forall|i: int, j: int|
            #![trigger now[i], now[j]]
            0 <= i < j < now.len() implies before(now[i], now[j]) by {
            assert(now[i] == front[i]);
            if j < front.len() {
                assert(now[j] == front[j]);
            }
        }
        assert forall|y: A| now.contains(y) <==> list.contains(y) || y == x by {
            if now.contains(y) {
                let k = choose|k: int| 0 <= k < now.len() && now[k] == y;
                if k < front.len() {
                    assert(front.contains(front[k]));
                }
            }
            if front.contains(y) {
                let k = choose|k: int| 0 <= k < front.len() && front[k] == y;
                assert(now[k] == y);
            }
            assert(now[front.len() as int] == end);
        }
        now
    }
}

/// A strictly sorted list is determined by its elements.
pub proof fn sorted_lists_are_equal<A>(a: Seq<A>, b: Seq<A>, before: spec_fn(A, A) -> bool)
    requires
        strictly_sorted(a, before),
        strictly_sorted(b, before),
        asymmetric(a, before),
        forall|x: A| a.contains(x) <==> b.contains(x),
    ensures
        a == b,
    decreases a.len(),
{
    if a.len() == 0 {
        if b.len() > 0 {
            assert(b.contains(b[0]));
        }
        assert(a =~= b);
    } else {
        assert(a.contains(a[0]));
        let at = choose|k: int| 0 <= k < b.len() && b[k] == a[0];
        assert(b.contains(b[0]));
        assert(a.contains(b[0]));
        let back = choose|k: int| 0 <= k < a.len() && a[k] == b[0];
        if at != 0 && back != 0 {
            assert(before(b[0], b[at]));
            assert(before(a[0], a[back]));
        }
        assert(a[0] == b[0]);
        let x = a.drop_first();
        let y = b.drop_first();
        assert forall|i: int, j: int|
            #![trigger x[i], x[j]]
            0 <= i < j < x.len() implies before(x[i], x[j]) by {
            assert(x[i] == a[i + 1] && x[j] == a[j + 1]);
        }
        assert forall|i: int, j: int|
            #![trigger y[i], y[j]]
            0 <= i < j < y.len() implies before(y[i], y[j]) by {
            assert(y[i] == b[i + 1] && y[j] == b[j + 1]);
        }
        assert forall|i: int, j: int|
            #![trigger x[i], x[j]]
            0 <= i < x.len() && 0 <= j < x.len() implies !(before(x[i], x[j]) && before(
            x[j],
            x[i],
        )) by {
            assert(x[i] == a[i + 1] && x[j] == a[j + 1]);
        }
        assert forall|v: A| x.contains(v) <==> y.contains(v) by {
            if x.contains(v) {
                let k = choose|k: int| 0 <= k < x.len() && x[k] == v;
                assert(a[k + 1] == v);
                assert(before(a[0], a[k + 1]));
                assert(a.contains(v));
                let m = choose|m: int| 0 <= m < b.len() && b[m] == v;
                if m == 0 {
                    assert(before(a[0], a[0]));
                    assert(!(before(a[0], a[0]) && before(a[0], a[0])));
                }
                assert(y[m - 1] == v);
            }
            if y.contains(v) {
                let k = choose|k: int| 0 <= k < y.len() && y[k] == v;
                assert(b[k + 1] == v);
                assert(before(b[0], b[k + 1]));
                assert(b.contains(v));
                let m = choose|m: int| 0 <= m < a.len() && a[m] == v;
                if m == 0 {
                    assert(before(a[0], a[0]));
                    assert(!(before(a[0], a[0]) && before(a[0], a[0])));
                }
                assert(x[m - 1] == v);
            }
        }
        sorted_lists_are_equal(x, y, before);
        assert(a =~= seq![a[0]] + x);
        assert(b =~= seq![b[0]] + y);
    }
}

/// Items numbered from zero, with a strict weak order between them.
pub trait Comparison {
    /// Number of items.
    spec fn count(&self) -> nat;

    /// Item `i` comes strictly before item `j`.
    spec fn less(&self, i: int, j: int) -> bool;

    /// The items are ones that can be compared.
    spec fn comparable(&self) -> bool;

    /// No two items come before each other.
    proof fn less_asymmetric(&self, i: int, j: int)
        requires
            self.comparable(),
            0 <= i < self.count(),
            0 <= j < self.count(),
            self.less(i, j),
        ensures
            !self.less(j, i),
    ;

    /// An item that comes before another comes before or after every third.
    proof fn less_splits(&self, i: int, j: int, k: int)
        requires
            self.comparable(),
            0 <= i < self.count(),
            0 <= j < self.count(),
            0 <= k < self.count(),
            self.less(i, k),
        ensures
            self.less(i, j) || self.less(j, k),
    ;

    /// Whether item `i` comes strictly before item `j`.
    fn before(&self, i: usize, j: usize) -> (before: bool)
        requires
            self.comparable(),
            i < self.count(),
            j < self.count(),
        ensures
            before == self.less(i as int, j as int),
    ;
}

/// Item `i` stands before item `j` in a stable order: it is less, or neither is
/// less and it came first.
pub open spec fn ahead(less: spec_fn(int, int) -> bool, i: int, j: int) -> bool {
    less(i, j) || (!less(j, i) && i < j)
}

/// The order between the items.
pub open spec fn order_of<C: Comparison>(items: &C) -> spec_fn(int, int) -> bool {
    |i: int, j: int| items.less(i, j)
}

/// `order` lists the numbers from `low` up to `high` once each, in stable order.
pub open spec fn is_stable_range(
    less: spec_fn(int, int) -> bool,
    low: int,
    high: int,
    order: Seq<int>,
) -> bool {
    &&& order.len() == high - low
    &&& forall|k: int| 0 <= k < order.len() ==> low <= #[trigger] order[k] < high
    &&& forall|x: int| low <= x < high ==> #[trigger] order.contains(x)
    &&& strictly_sorted(order, |i: int, j: int| ahead(less, i, j))
}

/// The item numbers in stable order.
pub open spec fn stable_order(count: nat, less: spec_fn(int, int) -> bool) -> Seq<int> {
    choose|order: Seq<int>| is_stable_range(less, 0, count as int, order)
}

/// The numbers of a list as integers.
pub open spec fn numbers(list: Seq<usize>) -> Seq<int> {
    Seq::new(list.len(), |k: int| list[k] as int)
}

/// No two items stand ahead of each other.
pub proof fn ahead_asymmetric<C: Comparison>(items: &C, i: int, j: int)
    requires
        items.comparable(),
        0 <= i < items.count(),
        0 <= j < items.count(),
        ahead(order_of(items), i, j),
    ensures
        !ahead(order_of(items), j, i),
{
    if items.less(i, j) {
        items.less_asymmetric(i, j);
    }
    if items.less(j, i) {
        items.less_asymmetric(j, i);
    }
}

/// What stands ahead of a second item stands ahead of all that the second does.
pub proof fn ahead_transitive<C: Comparison>(items: &C, i: int, j: int, k: int)
    requires
        items.comparable(),
        0 <= i < items.count(),
        0 <= j < items.count(),
        0 <= k < items.count(),
        ahead(order_of(items), i, j),
        ahead(order_of(items), j, k),
    ensures
        ahead(order_of(items), i, k),
{
    if items.less(k, i) {
        items.less_splits(k, j, i);
        if items.less(k, j) {
            items.less_asymmetric(k, j);
        }
        if items.less(j, i) {
            items.less_asymmetric(j, i);
        }
    } else if !items.less(i, k) {
        if items.less(i, j) {
            items.less_splits(i, k, j);
            items.less_asymmetric(k, j);
        }
        if items.less(j, k) {
            items.less_splits(j, i, k);
            items.less_asymmetric(j, i);
        }
    }
}

/// Comparable items have exactly one stable order.
pub proof fn stable_order_is_unique<C: Comparison>(items: &C, order: Seq<int>)
    requires
        items.comparable(),
        is_stable_range(order_of(items), 0, items.count() as int, order),
    ensures
        order == stable_order(items.count(), order_of(items)),
{
    let chosen = stable_order(items.count(), order_of(items));
    let before = |i: int, j: int| ahead(order_of(items), i, j);
    assert(is_stable_range(order_of(items), 0, items.count() as int, chosen));
    assert forall|i: int, j: int|
        #![trigger order[i], order[j]]
        0 <= i < order.len() && 0 <= j < order.len() implies !(before(order[i], order[j])
        && before(order[j], order[i])) by {
        if before(order[i], order[j]) {
            ahead_asymmetric(items, order[i], order[j]);
        }
    }
    assert forall|x: int| order.contains(x) <==> chosen.contains(x) by {
        if order.contains(x) {
            let k = choose|k: int| 0 <= k < order.len() && order[k] == x;
            assert(0 <= order[k] < items.count());
        }
        if chosen.contains(x) {
            let k = choose|k: int| 0 <= k < chosen.len() && chosen[k] == x;
            assert(0 <= chosen[k] < items.count());
        }
    }
    sorted_lists_are_equal(order, chosen, before);
}

/// The order between the first `count` items is a strict weak one.
pub open spec fn strict_weak(count: nat, less: spec_fn(int, int) -> bool) -> bool {
    &&& forall|i: int, j: int|
        #![trigger less(i, j)]
        0 <= i < count && 0 <= j < count && less(i, j) ==> !less(j, i)
    &&& forall|i: int, j: int, k: int|
        #![trigger less(i, k), less(j, k)]
        0 <= i < count && 0 <= j < count && 0 <= k < count && less(i, k) ==> less(i, j) || less(
            j,
            k,
        )
}

/// First place at or after `from` whose item the given one comes before.
spec fn insertion_place(
    order: Seq<int>,
    less: spec_fn(int, int) -> bool,
    item: int,
    from: int,
) -> int
    decreases order.len() - from,
{
    if from >= order.len() || less(item, order[from]) {
        from
    } else {
        insertion_place(order, less, item, from + 1)
    }
}

/// The items before the insertion place do not come behind the given one.
proof fn insertion_place_is_first(
    order: Seq<int>,
    less: spec_fn(int, int) -> bool,
    item: int,
    from: int,
)
    requires
        0 <= from <= order.len(),
    ensures
        from <= insertion_place(order, less, item, from) <= order.len(),
        forall|k: int|
            from <= k < insertion_place(order, less, item, from) ==> !less(item, #[trigger] order[k]),
        insertion_place(order, less, item, from) < order.len() ==> less(
            item,
            order[insertion_place(order, less, item, from)],
        ),
    decreases order.len() - from,
{
    if from < order.len() && !less(item, order[from]) {
        insertion_place_is_first(order, less, item, from + 1);
    }
}

/// The first `n` items have a stable order.
proof fn order_of_first(count: nat, less: spec_fn(int, int) -> bool, n: int) -> (order: Seq<int>)
    requires
        strict_weak(count, less),
        0 <= n <= count,
    ensures
        is_stable_range(less, 0, n, order),
    decreases n,
{
    if n == 0 {
        Seq::empty()
    } else {
        let item = n - 1;
        let before = order_of_first(count, less, item);
        let place = insertion_place(before, less, item, 0);
        insertion_place_is_first(before, less, item, 0);
        let order = before.insert(place, item);
        assert forall|k: int| 0 <= k < order.len() implies 0 <= #[trigger] order[k] < n by {
            if k < place {
                assert(order[k] == before[k]);
            } else if k > place {
                assert(order[k] == before[k - 1]);
            }
        }
        assert forall|x: int| 0 <= x < n implies #[trigger] order.contains(x) by {
            if x == item {
                assert(order[place] == x);
            } else {
                assert(before.contains(x));
                let k = choose|k: int| 0 <= k < before.len() && before[k] == x;
                if k < place {
                    assert(order[k] == x);
                } else {
                    assert(order[k + 1] == x);
                }
            }
        }
        assert forall|i: int, j: int|
            #![trigger order[i], order[j]]
            0 <= i < j < order.len() implies ahead(less, order[i], order[j]) by {
            let a = if i < place {
                i
            } else {
                i - 1
            };
            let b = if j < place {
                j
            } else {
                j - 1
            };
            if i != place && j != place {
                assert(order[i] == before[a] && order[j] == before[b]);
                assert(ahead(less, before[a], before[b]));
            } else if j == place {
                assert(order[i] == before[a]);
                assert(0 <= before[a] < item);
            } else {
                assert(order[j] == before[b]);
                assert(0 <= before[b] < item && 0 <= before[place] < item);
                if b > place {
                    assert(ahead(less, before[place], before[b]));
                    assert(less(item, before[place]));
                    assert(less(item, before[b]) || less(before[b], before[place]));
                }
            }
        }
        order
    }
}

/// Items under a strict weak order have a stable order.
pub proof fn stable_order_exists(count: nat, less: spec_fn(int, int) -> bool)
    requires
        strict_weak(count, less),
    ensures
        is_stable_range(less, 0, count as int, stable_order(count, less)),
{
    let order = order_of_first(count, less, count as int);
    assert(is_stable_range(less, 0, count as int, order));
}

/// No number is listed twice in a stable order.
pub proof fn stable_order_is_distinct(count: nat, less: spec_fn(int, int) -> bool, i: int, j: int)
    requires
        strict_weak(count, less),
        0 <= i < j < count,
    ensures
        stable_order(count, less)[i] != stable_order(count, less)[j],
{
    stable_order_exists(count, less);
    let order = stable_order(count, less);
    assert(ahead(less, order[i], order[j]));
    assert(0 <= order[i] < count && 0 <= order[j] < count);
}

/// Merges two stable orders of adjacent ranges.
fn merge<C: Comparison>(items: &C, low: usize, middle: usize, high: usize, left: &Vec<usize>, right:
    &Vec<usize>) -> (order: Vec<usize>)
    requires
        items.comparable(),
        low <= middle <= high <= items.count(),
        is_stable_range(order_of(items), low as int, middle as int, numbers(left@)),
        is_stable_range(order_of(items), middle as int, high as int, numbers(right@)),
    ensures
        is_stable_range(order_of(items), low as int, high as int, numbers(order@)),
{
    let mut order: Vec<usize> = Vec::new();
    let mut i: usize = 0;
    let mut j: usize = 0;
    let ghost l = numbers(left@);
    let ghost r = numbers(right@);
    while i < left.len() || j < right.len()
        invariant
            items.comparable(),
            low <= middle <= high <= items.count(),
            l == numbers(left@),
            r == numbers(right@),
            is_stable_range(order_of(items), low as int, middle as int, l),
            is_stable_range(order_of(items), middle as int, high as int, r),
            i <= left@.len(),
            j <= right@.len(),
            order@.len() == i + j,
            forall|k: int| 0 <= k < order@.len() ==> low <= #[trigger] order@[k] < high,
            forall|k: int| 0 <= k < i ==> numbers(order@).contains(#[trigger] l[k]),
            forall|k: int| 0 <= k < j ==> numbers(order@).contains(#[trigger] r[k]),
            strictly_sorted(numbers(order@), |a: int, b: int| ahead(order_of(items), a, b)),
            forall|k: int, m: int|
                #![trigger order@[k], l[m]]
                0 <= k < order@.len() && i <= m < l.len() ==> ahead(order_of(items), order@[k] as int, l[m]),
            forall|k: int, m: int|
                #![trigger order@[k], r[m]]
                0 <= k < order@.len() && j <= m < r.len() ==> ahead(order_of(items), order@[k] as int, r[m]),
        decreases left@.len() - i + right@.len() - j,
    {
        proof {
            if i < l.len() {
                assert(low <= l[i as int] < middle);
            }
            if j < r.len() {
                assert(middle <= r[j as int] < high);
            }
        }
        let take_left: bool = if i < left.len() {
            if j < right.len() {
                !items.before(right[j], left[i])
            } else {
                true
            }
        } else {
            false
        };
        let next: usize = if take_left {
            left[i]
        } else {
            right[j]
        };
        let ghost before = order@;
        let ghost was_i = i;
        let ghost was_j = j;
        order.push(next);
        if take_left {
            i = i + 1;
        } else {
            j = j + 1;
        }
        proof {
            let now = numbers(order@);
            assert forall|k: int| 0 <= k < numbers(before).len() implies #[trigger] now[k]
                == numbers(before)[k] by {}
            assert(now[before.len() as int] == next);
            assert forall|x: int| numbers(before).contains(x) implies now.contains(x) by {
                let k = choose|k: int| 0 <= k < numbers(before).len() && numbers(before)[k] == x;
                assert(now[k] == x);
            }
            assert(now.contains(next as int));
            assert forall|a: int, b: int|
                #![trigger now[a], now[b]]
                0 <= a < b < now.len() implies ahead(order_of(items), now[a], now[b]) by {
                assert(before[a] as int == now[a]);
                if b < before.len() {
                    assert(numbers(before)[a] == now[a] && numbers(before)[b] == now[b]);
                } else if take_left {
                    assert(l[was_i as int] == next);
                } else {
                    assert(r[was_j as int] == next);
                }
            }
            assert forall|m: int| i <= m < l.len() implies ahead(order_of(items), next as int, #[trigger] l[m]) by {
                assert(low <= l[m] < middle);
                if take_left {
                    assert(ahead(order_of(items), l[was_i as int], l[m]));
                } else {
                    let x = r[was_j as int];
                    if was_i < l.len() {
                        assert(items.less(x, l[was_i as int]));
                        if m > was_i {
                            assert(ahead(order_of(items), l[was_i as int], l[m]));
                            assert(low <= l[was_i as int] < middle);
                            ahead_transitive(items, x, l[was_i as int], l[m]);
                        }
                    }
                }
            }
            assert forall|m: int| j <= m < r.len() implies ahead(order_of(items), next as int, #[trigger] r[m]) by {
                assert(middle <= r[m] < high);
                if !take_left {
                    assert(ahead(order_of(items), r[was_j as int], r[m]));
                } else {
                    let x = l[was_i as int];
                    if was_j < r.len() {
                        assert(ahead(order_of(items), x, r[was_j as int]));
                        if m > was_j {
                            assert(ahead(order_of(items), r[was_j as int], r[m]));
                            assert(middle <= r[was_j as int] < high);
                            ahead_transitive(items, x, r[was_j as int], r[m]);
                        }
                    }
                }
            }
            assert forall|k: int, m: int|
                #![trigger order@[k], l[m]]
                0 <= k < order@.len() && i <= m < l.len() implies ahead(
                order_of(items),
                order@[k] as int,
                l[m],
            ) by {
                if k < before.len() {
                    assert(order@[k] == before[k]);
                }
            }
            assert forall|k: int, m: int|
                #![trigger order@[k], r[m]]
                0 <= k < order@.len() && j <= m < r.len() implies ahead(
                order_of(items),
                order@[k] as int,
                r[m],
            ) by {
                if k < before.len() {
                    assert(order@[k] == before[k]);
                }
            }
        }
    }
    proof {
        assert forall|x: int| low <= x < high implies #[trigger] numbers(order@).contains(x) by {
            if x < middle {
                assert(l.contains(x));
                let k = choose|k: int| 0 <= k < l.len() && l[k] == x;
                assert(numbers(order@).contains(l[k]));
            } else {
                assert(r.contains(x));
                let k = choose|k: int| 0 <= k < r.len() && r[k] == x;
                assert(numbers(order@).contains(r[k]));
            }
        }
        assert forall|k: int| 0 <= k < numbers(order@).len() implies low <= #[trigger] numbers(
            order@,
        )[k] < high by {
            assert(low <= order@[k] < high);
        }
    }
    order
}

/// Sorts the numbers from `low` up to `high`.
fn sort_range<C: Comparison>(items: &C, low: usize, high: usize) -> (order: Vec<usize>)
    requires
        items.comparable(),
        low <= high <= items.count(),
    ensures
        is_stable_range(order_of(items), low as int, high as int, numbers(order@)),
    decreases high - low,
{
    if high - low <= 1 {
        let mut order: Vec<usize> = Vec::new();
        if low < high {
            order.push(low);
            proof {
                let n = numbers(order@);
                assert forall|x: int| low <= x < high implies #[trigger] n.contains(x) by {
                    assert(n[0] == x);
                }
            }
        }
        return order;
    }
    let middle: usize = low + (high - low) / 2;
    let left = sort_range(items, low, middle);
    let right = sort_range(items, middle, high);
    merge(items, low, middle, high, &left, &right)
}

/// Sorts the items without reordering equal ones; gives their numbers in order.
pub fn stable_sort<C: Comparison>(items: &C, count: usize) -> (order: Vec<usize>)
    requires
        items.comparable(),
        count == items.count(),
    ensures
        numbers(order@) == stable_order(items.count(), order_of(items)),
        is_stable_range(order_of(items), 0, count as int, stable_order(items.count(), order_of(items))),
{
    let order = sort_range(items, 0, count);
    proof {
        stable_order_is_unique(items, numbers(order@));
    }
    order
}

} // verus!
