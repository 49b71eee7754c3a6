//! Ordered collections: maps keyed by field id, and sets of scalars.

use vstd::prelude::*;

use crate::bytes;
use crate::names::QueryFieldId;
use crate::ordering;
use crate::scalars::{QueryScalar, QueryScalarView};

verus! {

/// One entry of a map: a field id and its value.
pub type Entry<V> = (Seq<u8>, V);

/// Field ids ascend, so that no two are the same.
pub open spec fn ascending<V>(entries: Seq<Entry<V>>) -> bool {
    forall|i: int, j: int|
        #![trigger entries[i], entries[j]]
        0 <= i < j < entries.len() ==> bytes::lex_less(entries[i].0, entries[j].0)
}

/// The value under a field id, if there is one.
pub open spec fn lookup<V>(entries: Seq<Entry<V>>, field: Seq<u8>) -> Option<V>
    decreases entries.len(),
{
    if entries.len() == 0 {
        None
    } else if entries.last().0 == field {
        Some(entries.last().1)
    } else {
        lookup(entries.drop_last(), field)
    }
}

/// An entry is found under its field id.
pub proof fn lookup_finds<V>(entries: Seq<Entry<V>>, i: int)
    requires
        ascending(entries),
        0 <= i < entries.len(),
    ensures
        lookup(entries, entries[i].0) == Some(entries[i].1),
    decreases entries.len(),
{
    let n = entries.len() - 1;
    if i < n {
        assert(bytes::lex_less(entries[i].0, entries[n].0));
        bytes::lex_less_irreflexive(entries[i].0);
        let shorter = entries.drop_last();
        assert(shorter[i] == entries[i]);
        assert(ascending(shorter));
        lookup_finds(shorter, i);
    }
}

/// What is found under a field id is an entry.
pub proof fn lookup_is_entry<V>(entries: Seq<Entry<V>>, field: Seq<u8>)
    ensures
        match lookup(entries, field) {
            None => forall|i: int| 0 <= i < entries.len() ==> #[trigger] entries[i].0 != field,
            Some(value) => exists|i: int|
                0 <= i < entries.len() && #[trigger] entries[i] == (field, value),
        },
    decreases entries.len(),
{
    if entries.len() > 0 {
        let n = entries.len() - 1;
        if entries[n].0 == field {
            assert(entries[n] == (field, entries[n].1));
        } else {
            let shorter = entries.drop_last();
            lookup_is_entry(shorter, field);
            match lookup(shorter, field) {
                None => {
                    assert forall|i: int| 0 <= i < entries.len() implies #[trigger] entries[i].0
                        != field by {
                        if i < n {
                            assert(shorter[i] == entries[i]);
                        }
                    }
                },
                Some(value) => {
                    let i = choose|i: int|
                        0 <= i < shorter.len() && #[trigger] shorter[i] == (field, value);
                    assert(entries[i] == (field, value));
                },
            }
        }
    }
}

/// A map is determined by what its lookups give.
pub proof fn lookups_determine_the_map<V>(a: Seq<Entry<V>>, b: Seq<Entry<V>>)
    requires
        ascending(a),
        ascending(b),
        forall|field: Seq<u8>| #[trigger] lookup(a, field) == lookup(b, field),
    ensures
        a == b,
{
    let before = |x: Entry<V>, y: Entry<V>| bytes::lex_less(x.0, y.0);
    assert forall|x: Entry<V>| a.contains(x) <==> b.contains(x) by {
        if a.contains(x) {
            let i = choose|i: int| 0 <= i < a.len() && a[i] == x;
            lookup_finds(a, i);
            lookup_is_entry(b, x.0);
            assert(lookup(a, x.0) == lookup(b, x.0));
        }
        if b.contains(x) {
            let i = choose|i: int| 0 <= i < b.len() && b[i] == x;
            lookup_finds(b, i);
            lookup_is_entry(a, x.0);
            assert(lookup(a, x.0) == lookup(b, x.0));
        }
    }
    assert forall|i: int, j: int|
        #![trigger a[i], a[j]]
        0 <= i < a.len() && 0 <= j < a.len() implies !(before(a[i], a[j]) && before(
        a[j],
        a[i],
    )) by {
        if before(a[i], a[j]) && before(a[j], a[i]) {
            bytes::lex_less_transitive(a[i].0, a[j].0, a[i].0);
            bytes::lex_less_irreflexive(a[i].0);
        }
    }
    ordering::sorted_lists_are_equal(a, b, before);
}

/// Number of entries whose field ids come before the given one.
spec fn place_of<V>(entries: Seq<Entry<V>>, field: Seq<u8>) -> int
    decreases entries.len(),
{
    if entries.len() == 0 {
        0
    } else if bytes::lex_less(entries.last().0, field) {
        entries.len() as int
    } else {
        place_of(entries.drop_last(), field)
    }
}

/// The entries before the place come before the field, and the others do not.
proof fn place_splits<V>(entries: Seq<Entry<V>>, field: Seq<u8>)
    requires
        ascending(entries),
    ensures
        0 <= place_of(entries, field) <= entries.len(),
        forall|i: int|
            0 <= i < place_of(entries, field) ==> bytes::lex_less(#[trigger] entries[i].0, field),
        forall|i: int|
            place_of(entries, field) <= i < entries.len() ==> !bytes::lex_less(
                #[trigger] entries[i].0,
                field,
            ),
    decreases entries.len(),
{
    if entries.len() > 0 {
        let n = entries.len() - 1;
        if bytes::lex_less(entries[n].0, field) {
            assert forall|i: int| 0 <= i < entries.len() implies bytes::lex_less(
                #[trigger] entries[i].0,
                field,
            ) by {
                if i < n {
                    assert(bytes::lex_less(entries[i].0, entries[n].0));
                    bytes::lex_less_transitive(entries[i].0, entries[n].0, field);
                }
            }
        } else {
            let shorter = entries.drop_last();
            place_splits(shorter, field);
            assert forall|i: int| 0 <= i < place_of(entries, field) implies bytes::lex_less(
                #[trigger] entries[i].0,
                field,
            ) by {
                assert(shorter[i] == entries[i]);
            }
            assert forall|i: int|
                place_of(entries, field) <= i < entries.len() implies !bytes::lex_less(
                #[trigger] entries[i].0,
                field,
            ) by {
                if i < n {
                    assert(shorter[i] == entries[i]);
                }
            }
        }
    }
}

/// A map can take a value under a new field id.
pub proof fn map_takes_a_field<V>(entries: Seq<Entry<V>>, field: Seq<u8>, value: V) -> (now: Seq<
    Entry<V>,
>)
    requires
        ascending(entries),
        lookup(entries, field) is None,
    ensures
        ascending(now),
        forall|other: Seq<u8>| #[trigger]
            lookup(now, other) == if other == field {
                Some(value)
            } else {
                lookup(entries, other)
            },
{
    let place = place_of(entries, field);
    place_splits(entries, field);
    lookup_is_entry(entries, field);
    let added = (field, value);
    let now = entries.insert(place, added);
    assert forall|i: int| place <= i < entries.len() implies bytes::lex_less(
        field,
        #[trigger] entries[i].0,
    ) by {
        bytes::lex_less_total(entries[i].0, field);
    }
    assert forall|i: int, j: int|
        #![trigger now[i], now[j]]
        0 <= i < j < now.len() implies bytes::lex_less(now[i].0, now[j].0) by {
        let a = if i < place {
            i
        } else {
            i - 1
        };
        let b = if j < place {
            j
        } else {
            j - 1
        };
        if i != place && j != place {
            assert(now[i] == entries[a] && now[j] == entries[b]);
        } else if i == place {
            assert(now[j] == entries[b]);
        } else {
            assert(now[i] == entries[a]);
        }
    }
    assert forall|other: Seq<u8>| #[trigger]
        lookup(now, other) == if other == field {
            Some(value)
        } else {
            lookup(entries, other)
        } by {
        if other == field {
            assert(now[place] == added);
            lookup_finds(now, place);
        } else {
            lookup_is_entry(now, other);
            lookup_is_entry(entries, other);
            if lookup(entries, other) is Some {
                let k = choose|k: int|
                    0 <= k < entries.len() && #[trigger] entries[k] == (
                        other,
                        lookup(entries, other)->0,
                    );
                let at = if k < place {
                    k
                } else {
                    k + 1
                };
                assert(now[at] == entries[k]);
                lookup_finds(now, at);
            } else if lookup(now, other) is Some {
                let k = choose|k: int|
                    0 <= k < now.len() && #[trigger] now[k] == (other, lookup(now, other)->0);
                let at = if k < place {
                    k
                } else {
                    k - 1
                };
                assert(k != place);
                assert(entries[at] == now[k]);
                assert(entries[at].0 == other);
            }
        }
    }
    now
}

/// Every list of entries has a map that finds in it what `entries` lacks, the
/// last entry under a field id taking precedence.
pub proof fn map_takes_a_list<V>(entries: Seq<Entry<V>>, list: Seq<Entry<V>>) -> (now: Seq<
    Entry<V>,
>)
    requires
        ascending(entries),
    ensures
        ascending(now),
        forall|field: Seq<u8>| #[trigger]
            lookup(now, field) == match lookup(entries, field) {
                Some(value) => Some(value),
                None => lookup(list, field),
            },
    decreases list.len(),
{
    if list.len() == 0 {
        entries
    } else {
        let (field, value) = list.last();
        let more = if lookup(entries, field) is Some {
            entries
        } else {
            map_takes_a_field(entries, field, value)
        };
        let now = map_takes_a_list(more, list.drop_last());
        assert forall|other: Seq<u8>| #[trigger]
            lookup(now, other) == match lookup(entries, other) {
                Some(value) => Some(value),
                None => lookup(list, other),
            } by {
            assert(lookup(more, other) == lookup(entries, other) || other == field);
        }
        now
    }
}

/// One field of a map.
#[derive(Debug, PartialEq, Eq)]
pub struct FieldValue<V> {
    pub field: QueryFieldId,
    pub value: V,
}

impl<V: View> View for FieldValue<V> {
    type V = Entry<V::V>;

    open spec fn view(&self) -> Entry<V::V> {
        (self.field@, self.value@)
    }
}

/// Contents of a list of fields.
pub open spec fn entry_views<V: View>(entries: Seq<FieldValue<V>>) -> Seq<Entry<V::V>> {
    Seq::new(entries.len(), |i: int| entries[i]@)
}

/// A map from field ids to values, in ascending order of the ids.
#[derive(Debug, PartialEq, Eq)]
pub struct FieldMap<V: View> {
    entries: Vec<FieldValue<V>>,
}

impl<V: View> View for FieldMap<V> {
    type V = Seq<Entry<V::V>>;

    closed spec fn view(&self) -> Seq<Entry<V::V>> {
        entry_views(self.entries@)
    }
}

impl<V: View> FieldMap<V> {
    #[verifier::type_invariant]
    closed spec fn well_formed(self) -> bool {
        ascending(entry_views(self.entries@))
    }

    /// The map without fields.
    pub fn new() -> (map: Self)
        ensures
            map@ == Seq::<Entry<V::V>>::empty(),
    {
        let map = Self { entries: Vec::new() };
        assert(map@ =~= Seq::<Entry<V::V>>::empty());
        map
    }

    /// Number of fields.
    pub fn len(&self) -> (count: usize)
        ensures
            count == self@.len(),
            ascending(self@),
    {
        proof {
            use_type_invariant(self);
        }
        self.entries.len()
    }

    /// The fields in ascending order.
    pub fn entries(&self) -> (entries: &Vec<FieldValue<V>>)
        ensures
            entry_views(entries@) == self@,
            ascending(self@),
    {
        proof {
            use_type_invariant(self);
        }
        &self.entries
    }

    /// First entry whose field id does not come before the given one.
    fn position(&self, field: &QueryFieldId) -> (index: usize)
        ensures
            index <= self@.len(),
            forall|i: int|
                0 <= i < index ==> bytes::lex_less(#[trigger] self@[i].0, field@),
            index < self@.len() ==> !bytes::lex_less(self@[index as int].0, field@),
    {
        let mut i: usize = 0;
        while i < self.entries.len() && self.entries[i].field.before(field)
            invariant
                i <= self.entries@.len(),
                forall|j: int| 0 <= j < i ==> bytes::lex_less(#[trigger] self@[j].0, field@),
            decreases self.entries@.len() - i,
        {
            i = i + 1;
        }
        i
    }

    /// Every entry from the found position on does not come before the field.
    proof fn position_splits(entries: Seq<Entry<V::V>>, index: int, field: Seq<u8>)
        requires
            ascending(entries),
            0 <= index <= entries.len(),
            index < entries.len() ==> !bytes::lex_less(entries[index].0, field),
            index < entries.len() ==> entries[index].0 != field,
        ensures
            forall|i: int|
                index <= i < entries.len() ==> bytes::lex_less(field, #[trigger] entries[i].0),
    {
        assert forall|i: int| index <= i < entries.len() implies bytes::lex_less(
            field,
            #[trigger] entries[i].0,
        ) by {
            bytes::lex_less_total(entries[index].0, field);
            if i > index {
                assert(bytes::lex_less(entries[index].0, entries[i].0));
                bytes::lex_less_transitive(field, entries[index].0, entries[i].0);
            }
        }
    }

    /// The value under a field id, if there is one.
    pub fn get(&self, field: &QueryFieldId) -> (value: Option<&V>)
        ensures
            match value {
                Some(value) => lookup(self@, field@) == Some(value@),
                None => lookup(self@, field@) is None,
            },
    {
        let i: usize = self.position(field);
        proof {
            use_type_invariant(self);
            lookup_is_entry(self@, field@);
        }
        if i < self.entries.len() && self.entries[i].field.same(field) {
            proof {
                lookup_finds(self@, i as int);
            }
            return Some(&self.entries[i].value);
        }
        proof {
            Self::position_splits(self@, i as int, field@);
            if lookup(self@, field@) is Some {
                let k = choose|k: int|
                    0 <= k < self@.len() && #[trigger] self@[k] == (
                        field@,
                        lookup(self@, field@)->0,
                    );
                bytes::lex_less_irreflexive(field@);
                assert(bytes::lex_less(self@[k].0, field@) || bytes::lex_less(field@, self@[k].0));
            }
        }
        None
    }

    /// Puts a value under a field id, in place of what was there.
    pub fn insert(&mut self, field: QueryFieldId, value: V)
        ensures
            ascending(final(self)@),
            forall|other: Seq<u8>| #[trigger]
                lookup(final(self)@, other) == if other == field@ {
                    Some(value@)
                } else {
                    lookup(old(self)@, other)
                },
    {
        let i: usize = self.position(&field);
        proof {
            use_type_invariant(&*self);
        }
        let replaces: bool = i < self.entries.len() && self.entries[i].field.same(&field);
        let mut entries: Vec<FieldValue<V>> = Vec::new();
        std::mem::swap(&mut entries, &mut self.entries);
        let ghost was = entry_views(entries@);
        let ghost added = (field@, value@);
        proof {
            if !replaces {
                Self::position_splits(was, i as int, field@);
            }
        }
        if replaces {
            entries.set(i, FieldValue { field, value });
        } else {
            entries.insert(i, FieldValue { field, value });
        }
        proof {
            let now = entry_views(entries@);
            let tail = if replaces {
                i + 1
            } else {
                i as int
            };
            assert(now =~= was.take(i as int).push(added) + was.skip(tail));
            assert forall|a: int, b: int|
                #![trigger now[a], now[b]]
                0 <= a < b < now.len() implies bytes::lex_less(now[a].0, now[b].0) by {
                let shift = if replaces {
                    0int
                } else {
                    1int
                };
                if a < i && b < i {
                    assert(now[a] == was[a] && now[b] == was[b]);
                } else if a < i && b == i {
                    assert(now[a] == was[a]);
                } else if a < i {
                    assert(now[a] == was[a] && now[b] == was[b - shift]);
                } else if a == i {
                    assert(now[b] == was[b - shift]);
                    if replaces {
                        assert(was[i as int].0 == added.0);
                        assert(bytes::lex_less(was[i as int].0, was[b].0));
                    }
                } else {
                    assert(now[a] == was[a - shift] && now[b] == was[b - shift]);
                }
            }
            assert(ascending(now));
            assert forall|other: Seq<u8>| #[trigger]
                lookup(now, other) == if other == added.0 {
                    Some(added.1)
                } else {
                    lookup(was, other)
                } by {
                if other == added.0 {
                    assert(now[i as int] == added);
                    lookup_finds(now, i as int);
                } else {
                    lookup_is_entry(now, other);
                    lookup_is_entry(was, other);
                    if lookup(was, other) is Some {
                        let k = choose|k: int|
                            0 <= k < was.len() && #[trigger] was[k] == (
                                other,
                                lookup(was, other)->0,
                            );
                        let at = if k < i || replaces {
                            k
                        } else {
                            k + 1
                        };
                        assert(now[at] == was[k]);
                        lookup_finds(now, at);
                    } else if lookup(now, other) is Some {
                        let k = choose|k: int|
                            0 <= k < now.len() && #[trigger] now[k] == (
                                other,
                                lookup(now, other)->0,
                            );
                        let at = if k < i || replaces {
                            k
                        } else {
                            k - 1
                        };
                        assert(k != i);
                        assert(was[at] == now[k]);
                        assert(was[at].0 == other);
                    }
                }
            }
        }
        self.entries = entries;
    }
}

impl Clone for FieldMap<QueryScalar> {
    fn clone(&self) -> (copy: Self)
        ensures
            copy@ == self@,
    {
        proof {
            use_type_invariant(self);
        }
        let mut entries: Vec<FieldValue<QueryScalar>> = Vec::new();
        let mut i: usize = 0;
        while i < self.entries.len()
            invariant
                i <= self.entries@.len(),
                entry_views(entries@) == self@.take(i as int),
            decreases self.entries@.len() - i,
        {
            let entry = &self.entries[i];
            let ghost before = entry_views(entries@);
            entries.push(FieldValue { field: entry.field.clone(), value: entry.value.clone() });
            assert(entry_views(entries@) =~= before.push(self@[i as int]));
            assert(self@.take(i + 1) =~= self@.take(i as int).push(self@[i as int]));
            i = i + 1;
        }
        assert(entry_views(entries@) =~= self@);
        Self { entries }
    }
}

/// Values ascend, so that no two are the same.
pub open spec fn scalars_ascend(values: Seq<QueryScalarView>) -> bool {
    forall|i: int, j: int|
        #![trigger values[i], values[j]]
        0 <= i < j < values.len() ==> values[i].less(values[j])
}

/// Contents of a list of scalars.
pub open spec fn scalar_views(values: Seq<QueryScalar>) -> Seq<QueryScalarView> {
    Seq::new(values.len(), |i: int| values[i]@)
}

/// An ordered set of scalars is determined by its members.
pub proof fn members_determine_the_set(a: Seq<QueryScalarView>, b: Seq<QueryScalarView>)
    requires
        scalars_ascend(a),
        scalars_ascend(b),
        forall|x: QueryScalarView| a.contains(x) <==> b.contains(x),
    ensures
        a == b,
{
    let before = |x: QueryScalarView, y: QueryScalarView| x.less(y);
    assert forall|i: int, j: int|
        #![trigger a[i], a[j]]
        0 <= i < a.len() && 0 <= j < a.len() implies !(before(a[i], a[j]) && before(
        a[j],
        a[i],
    )) by {
        if before(a[i], a[j]) && before(a[j], a[i]) {
            a[i].less_transitive(a[j], a[i]);
            a[i].less_irreflexive();
        }
    }
    ordering::sorted_lists_are_equal(a, b, before);
}

/// A set of scalars in ascending order.
#[derive(Debug, PartialEq, Eq)]
pub struct ScalarSet {
    values: Vec<QueryScalar>,
}

impl View for ScalarSet {
    type V = Seq<QueryScalarView>;

    closed spec fn view(&self) -> Seq<QueryScalarView> {
        scalar_views(self.values@)
    }
}

impl Clone for ScalarSet {
    fn clone(&self) -> (copy: Self)
        ensures
            copy@ == self@,
    {
        proof {
            use_type_invariant(self);
        }
        let mut values: Vec<QueryScalar> = Vec::new();
        let mut i: usize = 0;
        while i < self.values.len()
            invariant
                i <= self.values@.len(),
                scalar_views(values@) == self@.take(i as int),
            decreases self.values@.len() - i,
        {
            let ghost before = scalar_views(values@);
            values.push(self.values[i].clone());
            assert(scalar_views(values@) =~= before.push(self@[i as int]));
            assert(self@.take(i + 1) =~= self@.take(i as int).push(self@[i as int]));
            i = i + 1;
        }
        assert(scalar_views(values@) =~= self@);
        Self { values }
    }
}

impl ScalarSet {
    #[verifier::type_invariant]
    closed spec fn well_formed(self) -> bool {
        scalars_ascend(scalar_views(self.values@))
    }

    /// The set without members.
    pub fn new() -> (set: Self)
        ensures
            set@ == Seq::<QueryScalarView>::empty(),
    {
        let set = Self { values: Vec::new() };
        assert(set@ =~= Seq::<QueryScalarView>::empty());
        set
    }

    /// Number of members.
    pub fn len(&self) -> (count: usize)
        ensures
            count == self@.len(),
    {
        self.values.len()
    }

    /// The members in ascending order.
    pub fn values(&self) -> (values: &Vec<QueryScalar>)
        ensures
            scalar_views(values@) == self@,
            scalars_ascend(self@),
    {
        proof {
            use_type_invariant(self);
        }
        &self.values
    }

    /// Whether the value is a member.
    pub fn contains(&self, value: &QueryScalar) -> (found: bool)
        ensures
            found == self@.contains(value@),
    {
        let mut i: usize = 0;
        while i < self.values.len()
            invariant
                i <= self.values@.len(),
                forall|j: int| 0 <= j < i ==> #[trigger] self@[j] != value@,
            decreases self.values@.len() - i,
        {
            if self.values[i].same(value) {
                assert(self@[i as int] == value@);
                return true;
            }
            i = i + 1;
        }
        false
    }

    /// Adds a value, unless it is a member.
    pub fn insert(&mut self, value: QueryScalar)
        ensures
            scalars_ascend(final(self)@),
            forall|x: QueryScalarView| #[trigger]
                final(self)@.contains(x) <==> (x == value@ || old(self)@.contains(x)),
    {
        let mut i: usize = 0;
        while i < self.values.len() && self.values[i].before(&value)
            invariant
                i <= self.values@.len(),
                forall|j: int| 0 <= j < i ==> (#[trigger] self@[j]).less(value@),
            decreases self.values@.len() - i,
        {
            i = i + 1;
        }
        proof {
            use_type_invariant(&*self);
        }
        let ghost was = self@;
        let scalar_type = value.scalar_type();
        if i < self.values.len() {
            let other_type = self.values[i].scalar_type();
            if self.values[i].same(&value) {
                assert(was[i as int] == value@);
                return;
            }
        }
        proof {
            assert forall|j: int| i <= j < was.len() implies value@.less(#[trigger] was[j]) by {
                was[i as int].less_total(value@);
                if j > i {
                    assert(was[i as int].less(was[j]));
                    value@.less_transitive(was[i as int], was[j]);
                }
            }
        }
        let ghost added = value@;
        let mut values: Vec<QueryScalar> = Vec::new();
        std::mem::swap(&mut values, &mut self.values);
        values.insert(i, value);
        proof {
            let now = scalar_views(values@);
            assert(now =~= was.take(i as int).push(added) + was.skip(i as int));
            assert forall|a: int, b: int|
                #![trigger now[a], now[b]]
                0 <= a < b < now.len() implies now[a].less(now[b]) by {
                if b < i {
                    assert(now[a] == was[a] && now[b] == was[b]);
                } else if b == i {
                    assert(now[a] == was[a]);
                } else if a < i {
                    assert(now[a] == was[a] && now[b] == was[b - 1]);
                } else if a == i {
                    assert(now[b] == was[b - 1]);
                } else {
                    assert(now[a] == was[a - 1] && now[b] == was[b - 1]);
                }
            }
            assert forall|x: QueryScalarView| #[trigger] now.contains(x) <==> (x == added
                || was.contains(x)) by {
                if now.contains(x) {
                    let k = choose|k: int| 0 <= k < now.len() && now[k] == x;
                    if k < i {
                        assert(was[k] == x);
                    } else if k > i {
                        assert(was[k - 1] == x);
                    }
                }
                if was.contains(x) {
                    let k = choose|k: int| 0 <= k < was.len() && was[k] == x;
                    if k < i {
                        assert(now[k] == x);
                    } else {
                        assert(now[k + 1] == x);
                    }
                }
                if x == added {
                    assert(now[i as int] == x);
                }
            }
        }
        self.values = values;
    }

    /// The set of the listed values.
    pub fn from_values(values: Vec<QueryScalar>) -> (set: Self)
        ensures
            scalars_ascend(set@),
            forall|x: QueryScalarView| #[trigger]
                set@.contains(x) <==> scalar_views(values@).contains(x),
    {
        let mut set = Self::new();
        let mut i: usize = 0;
        let ghost all = scalar_views(values@);
        while i < values.len()
            invariant
                i <= values@.len(),
                all == scalar_views(values@),
                scalars_ascend(set@),
                forall|x: QueryScalarView| #[trigger]
                    set@.contains(x) <==> all.take(i as int).contains(x),
            decreases values@.len() - i,
        {
            set.insert(values[i].clone());
            proof {
                let before = all.take(i as int);
                let now = all.take(i + 1);
                assert(now =~= before.push(all[i as int]));
                assert forall|x: QueryScalarView| #[trigger] set@.contains(x) <==> now.contains(
                    x,
                ) by {
                    if before.contains(x) {
                        let k = choose|k: int| 0 <= k < before.len() && before[k] == x;
                        assert(now[k] == x);
                    }
                    if now.contains(x) {
                        let k = choose|k: int| 0 <= k < now.len() && now[k] == x;
                        if k < i {
                            assert(before[k] == x);
                        }
                    }
                    assert(now[i as int] == all[i as int]);
                }
            }
            i = i + 1;
        }
        assert(all.take(i as int) =~= all);
        set
    }
}

} // verus!
