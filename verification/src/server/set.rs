//! The set store: named sets of byte strings, changed by one insert at a
//! time.

use vstd::prelude::*;
use vstd::seq_lib::seq_to_set_is_finite;

verus! {

/// A command to insert `value` into the set called `name`, on behalf of the
/// request `id`.
#[derive(Debug)]
pub struct Insert {
    pub id: u32,
    pub name: String,
    pub value: Vec<u8>,
}

/// What a store holds: for each name that was ever inserted into, the set of
/// values under that name.
pub type Store = Map<Seq<char>, Set<Seq<u8>>>;

/// The values under `name`; none for a name that was never inserted into.
pub open spec fn members(store: Store, name: Seq<char>) -> Set<Seq<u8>> {
    if store.contains_key(name) {
        store[name]
    } else {
        Set::empty()
    }
}

/// The store after `value` was inserted under `name`.
pub open spec fn store_insert(store: Store, name: Seq<char>, value: Seq<u8>) -> Store {
    store.insert(name, members(store, name).insert(value))
}

/// What an insert of `value` under `name` reports: whether the value was not
/// there before.
pub open spec fn insert_reports(store: Store, name: Seq<char>, value: Seq<u8>) -> bool {
    !members(store, name).contains(value)
}

/// Whether every set in the store is finite.
pub open spec fn store_finite(store: Store) -> bool {
    forall|name: Seq<char>| store.contains_key(name) ==> (#[trigger] store[name]).finite()
}

/// The store after each of `values` was inserted under `name`, in order.
pub open spec fn store_insert_all(store: Store, name: Seq<char>, values: Seq<Seq<u8>>) -> Store
    decreases values.len(),
{
    if values.len() == 0 {
        store
    } else {
        store_insert(store_insert_all(store, name, values.drop_last()), name, values.last())
    }
}

/// The names of a store's sets, as plain values.
pub open spec fn name_views(names: Seq<String>) -> Seq<Seq<char>> {
    names.map_values(|s: String| s@)
}

/// The values of one set, as plain values.
pub open spec fn value_views(values: Seq<Vec<u8>>) -> Seq<Seq<u8>> {
    values.map_values(|v: Vec<u8>| v@)
}

/// The set store. Each name occurs once, and under a name each value occurs
/// once.
pub struct SetAgent {
    names: Vec<String>,
    sets: Vec<Vec<Vec<u8>>>,
}

impl View for SetAgent {
    type V = Store;

    closed spec fn view(&self) -> Store {
        Map::new(
            |name: Seq<char>| name_views(self.names@).contains(name),
            |name: Seq<char>|
                value_views(self.sets@[name_views(self.names@).index_of(name)]@).to_set(),
        )
    }
}

/// Whether two byte strings are the same.
fn same_bytes(a: &Vec<u8>, b: &Vec<u8>) -> (same: bool)
    ensures
        same == (a@ == b@),
{
    if a.len() != b.len() {
        return false;
    }
    let mut i: usize = 0;
    while i < a.len()
        invariant
            i <= a.len(),
            a.len() == b.len(),
            forall|j: int| 0 <= j < i ==> a@[j] == b@[j],
        decreases a.len() - i,
    {
        if a[i] != b[i] {
            return false;
        }
        i = i + 1;
    }
    assert(a@ =~= b@);
    true
}

impl SetAgent {
    /// Whether each name occurs once and each value occurs once under its
    /// name.
    pub closed spec fn wf(&self) -> bool {
        &&& self.names@.len() == self.sets@.len()
        &&& name_views(self.names@).no_duplicates()
        &&& forall|i: int|
            0 <= i < self.sets@.len() ==> (#[trigger] value_views(self.sets@[i]@)).no_duplicates()
    }

    /// Every set of a store is finite.
    pub proof fn lemma_finite(&self)
        requires
            self.wf(),
        ensures
            store_finite(self@),
    {
        assert forall|name: Seq<char>| self@.contains_key(name) implies (
        #[trigger] self@[name]).finite() by {
            seq_to_set_is_finite(
                value_views(self.sets@[name_views(self.names@).index_of(name)]@),
            );
        }
    }

    /// A name that the store holds is held at one place only, and what the
    /// store has under it is the set kept at that place.
    proof fn lemma_at(&self, i: int)
        requires
            self.wf(),
            0 <= i < self.names@.len(),
        ensures
            self@.contains_key(self.names@[i]@),
            self@[self.names@[i]@] == value_views(self.sets@[i]@).to_set(),
    {
        let names = name_views(self.names@);
        assert(names[i] == self.names@[i]@);
        let k = names.index_of(self.names@[i]@);
        assert(0 <= k < names.len() && names[k] == names[i]);
        assert(k == i);
    }

    /// A name that is at no place is not held.
    proof fn lemma_absent(&self, name: Seq<char>)
        requires
            forall|j: int| 0 <= j < self.names@.len() ==> self.names@[j]@ != name,
        ensures
            !self@.contains_key(name),
    {
        let names = name_views(self.names@);
        if names.contains(name) {
            let k = choose|k: int| 0 <= k < names.len() && names[k] == name;
            assert(names[k] == self.names@[k]@);
        }
    }

    /// A store without any set.
    pub fn new() -> (agent: SetAgent)
        ensures
            agent.wf(),
            agent@ == Map::<Seq<char>, Set<Seq<u8>>>::empty(),
    {
        let agent = SetAgent { names: Vec::new(), sets: Vec::new() };
        assert(agent@ =~= Map::<Seq<char>, Set<Seq<u8>>>::empty());
        agent
    }

    /// The place of `name`, if the store holds it.
    fn find(&self, name: &String) -> (place: Option<usize>)
        requires
            self.wf(),
        ensures
            match place {
                Some(i) => i < self.names@.len() && self.names@[i as int]@ == name@,
                None => forall|j: int| 0 <= j < self.names@.len() ==> self.names@[j]@ != name@,
            },
    {
        let mut i: usize = 0;
        while i < self.names.len()
            invariant
                i <= self.names@.len(),
                forall|j: int| 0 <= j < i ==> self.names@[j]@ != name@,
            decreases self.names@.len() - i,
        {
            if self.names[i] == *name {
                return Some(i);
            }
            i = i + 1;
        }
        None
    }

    /// Whether `value` is among `values`.
    fn holds(values: &Vec<Vec<u8>>, value: &Vec<u8>) -> (found: bool)
        ensures
            found == value_views(values@).to_set().contains(value@),
    {
        let mut j: usize = 0;
        while j < values.len()
            invariant
                j <= values@.len(),
                forall|k: int| 0 <= k < j ==> values@[k]@ != value@,
            decreases values@.len() - j,
        {
            if same_bytes(&values[j], value) {
                assert(value_views(values@)[j as int] == value@);
                return true;
            }
            j = j + 1;
        }
        proof {
            let views = value_views(values@);
            if views.contains(value@) {
                let k = choose|k: int| 0 <= k < views.len() && views[k] == value@;
                assert(views[k] == values@[k]@);
            }
        }
        false
    }

    /// Whether `value` is in the set called `name`.
    pub fn contains(&self, name: &String, value: &Vec<u8>) -> (found: bool)
        requires
            self.wf(),
        ensures
            found == members(self@, name@).contains(value@),
    {
        match self.find(name) {
            Some(i) => {
                proof {
                    self.lemma_at(i as int);
                }
                Self::holds(&self.sets[i], value)
            },
            None => {
                proof {
                    self.lemma_absent(name@);
                }
                false
            },
        }
    }

    /// The number of values in the set called `name`; zero where there is no
    /// such set.
    pub fn len(&self, name: &String) -> (n: usize)
        requires
            self.wf(),
        ensures
            n == members(self@, name@).len(),
    {
        match self.find(name) {
            Some(i) => {
                proof {
                    self.lemma_at(i as int);
                    value_views(self.sets@[i as int]@).unique_seq_to_set();
                }
                self.sets[i].len()
            },
            None => {
                proof {
                    self.lemma_absent(name@);
                }
                0
            },
        }
    }

    /// Inserts `value` into the set called `name`, making the set if there is
    /// none, and reports whether the value was not there before.
    pub fn insert(&mut self, name: String, value: Vec<u8>) -> (inserted: bool)
        requires
            old(self).wf(),
        ensures
            final(self).wf(),
            inserted == insert_reports(old(self)@, name@, value@),
            final(self)@ == store_insert(old(self)@, name@, value@),
    {
        match self.find(&name) {
            None => {
                let ghost old_names = name_views(self.names@);
                proof {
                    self.lemma_absent(name@);
                }
                let mut set = Vec::new();
                set.push(value);
                self.names.push(name);
                self.sets.push(set);
                proof {
                    let names = name_views(self.names@);
                    let last = self.names@.len() - 1;
                    assert(names =~= old_names.push(name@));
                    assert(names.no_duplicates()) by {
                        assert forall|i: int, j: int|
                            0 <= i < names.len() && 0 <= j < names.len() && i != j implies names[i]
                            != names[j] by {
                            if i < last {
                                assert(names[i] == old(self).names@[i]@);
                            }
                            if j < last {
                                assert(names[j] == old(self).names@[j]@);
                            }
                        }
                    }
                    assert(value_views(self.sets@[last]@) =~= seq![value@]);
                    assert forall|i: int| 0 <= i < self.sets@.len() implies (#[trigger] value_views(
                        self.sets@[i]@,
                    )).no_duplicates() by {
                        if i < last {
                            assert(self.sets@[i] == old(self).sets@[i]);
                        }
                    }
                    assert(self.wf());
                    let target = store_insert(old(self)@, name@, value@);
                    assert forall|n: Seq<char>| self@.contains_key(n) <==> target.contains_key(
                        n,
                    ) by {
                        if n != name@ {
                            if old_names.contains(n) {
                                let k = choose|k: int| 0 <= k < old_names.len() && old_names[k] == n;
                                assert(names[k] == n);
                            }
                            if names.contains(n) {
                                let k = choose|k: int| 0 <= k < names.len() && names[k] == n;
                                assert(old_names[k] == n);
                            }
                        } else {
                            assert(names[last] == name@);
                        }
                    }
                    assert forall|n: Seq<char>| self@.contains_key(n) implies self@[n]
                        == target[n] by {
                        let k = names.index_of(n);
                        assert(0 <= k < names.len() && names[k] == n);
                        self.lemma_at(k);
                        assert(names[k] == self.names@[k]@);
                        if k < last {
                            assert(old_names[k] == n);
                            old(self).lemma_at(k);
                            assert(self.sets@[k] == old(self).sets@[k]);
                        } else {
                            assert(seq![value@][0] == value@);
                            assert(seq![value@].to_set() =~= Set::<Seq<u8>>::empty().insert(
                                value@,
                            ));
                        }
                    }
                    assert(self@ =~= target);
                }
                true
            },
            Some(i) => {
                proof {
                    self.lemma_at(i as int);
                }
                if Self::holds(&self.sets[i], &value) {
                    proof {
                        let target = store_insert(self@, name@, value@);
                        assert(members(self@, name@).insert(value@) =~= members(self@, name@));
                        assert(self@ =~= target);
                    }
                    false
                } else {
                    let ghost old_values = value_views(self.sets@[i as int]@);
                    self.sets[i].push(value);
                    proof {
                        let names = name_views(self.names@);
                        let values = value_views(self.sets@[i as int]@);
                        assert(values =~= old_values.push(value@));
                        assert(values.no_duplicates()) by {
                            assert forall|a: int, b: int|
                                0 <= a < values.len() && 0 <= b < values.len() && a
                                    != b implies values[a] != values[b] by {
                                if a < old_values.len() {
                                    assert(old_values.contains(values[a]));
                                }
                                if b < old_values.len() {
                                    assert(old_values.contains(values[b]));
                                }
                            }
                        }
                        assert forall|k: int| 0 <= k < self.sets@.len() implies (
                        #[trigger] value_views(self.sets@[k]@)).no_duplicates() by {
                            if k != i {
                                assert(self.sets@[k] == old(self).sets@[k]);
                            }
                        }
                        assert(self.wf());
                        old_values.lemma_push_to_set_commute(value@);
                        let target = store_insert(old(self)@, name@, value@);
                        assert forall|n: Seq<char>| self@.contains_key(n) implies self@[n]
                            == target[n] by {
                            let k = names.index_of(n);
                            assert(0 <= k < names.len() && names[k] == n);
                            assert(names[k] == self.names@[k]@);
                            self.lemma_at(k);
                            old(self).lemma_at(k);
                            old(self).lemma_at(i as int);
                            assert(names[i as int] == name@);
                            if k != i {
                                assert(self.sets@[k] == old(self).sets@[k]);
                                assert(n != name@);
                            } else {
                                assert(self@[n] == old_values.to_set().insert(value@));
                                assert(target[n] == old_values.to_set().insert(value@));
                            }
                        }
                        assert(self@ =~= target);
                    }
                    true
                }
            },
        }
    }

    /// Carries out an insert command and reports whether the value was not
    /// there before.
    pub fn handle(&mut self, insert: Insert) -> (inserted: bool)
        requires
            old(self).wf(),
        ensures
            final(self).wf(),
            inserted == insert_reports(old(self)@, insert.name@, insert.value@),
            final(self)@ == store_insert(old(self)@, insert.name@, insert.value@),
    {
        self.insert(insert.name, insert.value)
    }
}

/// An insert changes the set it names and no other.
pub proof fn lemma_insert_is_local(store: Store, name: Seq<char>, value: Seq<u8>, other: Seq<char>)
    requires
        other != name,
    ensures
        members(store_insert(store, name, value), other) == members(store, other),
        members(store_insert(store, name, value), name) == members(store, name).insert(value),
{
}

/// Inserting the same value under the same name a second time reports that it
/// is already there and changes nothing, so the set is as large after both
/// inserts as after the first. The first insert reports the value as new
/// exactly where it was not there before.
pub proof fn lemma_insert_idempotent(store: Store, name: Seq<char>, value: Seq<u8>)
    ensures
        insert_reports(store, name, value) <==> !members(store, name).contains(value),
        !insert_reports(store_insert(store, name, value), name, value),
        store_insert(store_insert(store, name, value), name, value) == store_insert(
            store,
            name,
            value,
        ),
        members(store_insert(store_insert(store, name, value), name, value), name).len()
            == members(store_insert(store, name, value), name).len(),
{
    let once = store_insert(store, name, value);
    let twice = store_insert(once, name, value);
    assert(members(once, name).insert(value) =~= members(once, name));
    assert(twice =~= once);
}

/// After a run of inserts under one name, the set under that name holds what
/// it held before and every value of the run; it stays finite.
pub proof fn lemma_insert_all_members(store: Store, name: Seq<char>, values: Seq<Seq<u8>>)
    requires
        members(store, name).finite(),
    ensures
        members(store_insert_all(store, name, values), name) == members(store, name).union(
            values.to_set(),
        ),
        members(store_insert_all(store, name, values), name).finite(),
    decreases values.len(),
{
    let before = members(store, name);
    seq_to_set_is_finite(values);
    if values.len() == 0 {
        assert(values.to_set() =~= Set::<Seq<u8>>::empty());
        assert(before.union(values.to_set()) =~= before);
    } else {
        let front = values.drop_last();
        lemma_insert_all_members(store, name, front);
        front.lemma_push_to_set_commute(values.last());
        assert(front.push(values.last()) =~= values);
        assert(before.union(front.to_set()).insert(values.last()) =~= before.union(
            values.to_set(),
        ));
    }
}

/// Inserts of values that differ from each other and from what the set
/// holds, under one name and in whatever order they are carried out, all
/// report their value as new, and the set grows by their number.
pub proof fn lemma_insert_distinct(store: Store, name: Seq<char>, values: Seq<Seq<u8>>)
    requires
        members(store, name).finite(),
        values.no_duplicates(),
        forall|i: int| 0 <= i < values.len() ==> !members(store, name).contains(values[i]),
    ensures
        forall|i: int|
            0 <= i < values.len() ==> insert_reports(
                store_insert_all(store, name, #[trigger] values.take(i)),
                name,
                values[i],
            ),
        members(store_insert_all(store, name, values), name).len() == members(store, name).len()
            + values.len(),
    decreases values.len(),
{
    let before = members(store, name);
    assert forall|i: int| 0 <= i < values.len() implies insert_reports(
        store_insert_all(store, name, #[trigger] values.take(i)),
        name,
        values[i],
    ) by {
        let front = values.take(i);
        lemma_insert_all_members(store, name, front);
        if front.to_set().contains(values[i]) {
            let k = choose|k: int| 0 <= k < front.len() && front[k] == values[i];
            assert(values[k] == values[i]);
        }
    }
    if values.len() > 0 {
        let front = values.drop_last();
        assert(front =~= values.take(values.len() - 1));
        lemma_insert_distinct(store, name, front);
        lemma_insert_all_members(store, name, front);
        let held = members(store_insert_all(store, name, front), name);
        assert(!held.contains(values.last())) by {
            if front.to_set().contains(values.last()) {
                let k = choose|k: int| 0 <= k < front.len() && front[k] == values.last();
                assert(values[k] == values[values.len() - 1]);
            }
        }
    }
}

} // verus!
