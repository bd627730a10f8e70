//! The containers on display: a map from container names to states that keeps its order.
use crate::model::{ContainerState, ContainerStateView};
use vstd::prelude::*;

verus! {

/// The contents of a table: which container has which state, and the names in display order.
#[verifier::ext_equal]
pub struct TableView {
    pub order: Seq<Seq<char>>,
    pub states: Map<Seq<char>, ContainerStateView>,
}

impl TableView {
    /// The table without containers.
    pub open spec fn empty() -> TableView {
        TableView { order: Seq::empty(), states: Map::empty() }
    }

    /// Whether the table has a container of that name.
    pub open spec fn has(self, key: Seq<char>) -> bool {
        self.states.contains_key(key)
    }

    /// The state of that container, if the table has it.
    pub open spec fn get(self, key: Seq<char>) -> Option<ContainerStateView> {
        if self.has(key) {
            Some(self.states[key])
        } else {
            None
        }
    }

    /// The table with that state for that container, which comes last where it is new.
    pub open spec fn insert(self, key: Seq<char>, state: ContainerStateView) -> TableView {
        TableView {
            order: if self.has(key) {
                self.order
            } else {
                self.order.push(key)
            },
            states: self.states.insert(key, state),
        }
    }

    /// Each container has its name in the order once, and the order has no other names.
    pub open spec fn well_formed(self) -> bool {
        &&& self.order.no_duplicates()
        &&& forall|key: Seq<char>| self.order.contains(key) <==> #[trigger] self.has(key)
    }

    /// Setting a state keeps a table well formed, and the names that were there come first.
    pub proof fn insert_keeps_well_formed(self, key: Seq<char>, state: ContainerStateView)
        requires
            self.well_formed(),
        ensures
            self.insert(key, state).well_formed(),
            self.order.is_prefix_of(self.insert(key, state).order),
    {
        let next = self.insert(key, state);
        assert(self.order.contains(key) <==> self.has(key));
        assert forall|k: Seq<char>| next.order.contains(k) <==> #[trigger] next.has(k) by {
            assert(self.order.contains(k) <==> self.has(k));
            if !self.has(key) {
                assert(next.order[self.order.len() as int] == key);
                if self.order.contains(k) {
                    let i = choose|i: int| 0 <= i < self.order.len() && self.order[i] == k;
                    assert(next.order[i] == k);
                }
                if next.order.contains(k) && k != key {
                    let i = choose|i: int| 0 <= i < next.order.len() && next.order[i] == k;
                    assert(self.order[i] == k);
                }
            }
        }
    }

    /// Of two states that are set one after the other for a container, the second stays.
    pub proof fn insert_over(
        self,
        key: Seq<char>,
        first: ContainerStateView,
        second: ContainerStateView,
    )
        ensures
            self.insert(key, first).insert(key, second) == self.insert(key, second),
    {
        assert(self.states.insert(key, first).insert(key, second) =~= self.states.insert(
            key,
            second,
        ));
    }
}

/// The containers on display.
pub struct ContainerTable {
    entries: Vec<(String, ContainerState)>,
}

spec fn distinct(entries: Seq<(String, ContainerState)>) -> bool {
    forall|i: int, j: int|
        0 <= i < entries.len() && 0 <= j < entries.len() && i != j ==> (#[trigger] entries[i]).0@ != (
        #[trigger] entries[j]).0@
}

spec fn holds(entries: Seq<(String, ContainerState)>, key: Seq<char>) -> bool {
    exists|i: int| 0 <= i < entries.len() && (#[trigger] entries[i]).0@ == key
}

spec fn place(entries: Seq<(String, ContainerState)>, key: Seq<char>) -> int {
    choose|i: int| 0 <= i < entries.len() && (#[trigger] entries[i]).0@ == key
}

spec fn contents(entries: Seq<(String, ContainerState)>) -> TableView {
    TableView {
        order: Seq::new(entries.len(), |i: int| entries[i].0@),
        states: Map::new(
            |key: Seq<char>| holds(entries, key),
            |key: Seq<char>| entries[place(entries, key)].1@,
        ),
    }
}

proof fn contents_well_formed(entries: Seq<(String, ContainerState)>)
    requires
        distinct(entries),
    ensures
        contents(entries).well_formed(),
{
    let t = contents(entries);
    assert forall|key: Seq<char>| t.order.contains(key) <==> #[trigger] t.has(key) by {
        if t.order.contains(key) {
            let i = choose|i: int| 0 <= i < t.order.len() && t.order[i] == key;
            assert(entries[i].0@ == key);
        }
        if t.has(key) {
            let i = place(entries, key);
            assert(t.order[i] == key);
        }
    }
}

proof fn contents_after_update(
    entries: Seq<(String, ContainerState)>,
    i: int,
    entry: (String, ContainerState),
)
    requires
        distinct(entries),
        0 <= i < entries.len(),
        entry.0@ == entries[i].0@,
    ensures
        distinct(entries.update(i, entry)),
        contents(entries.update(i, entry)) == contents(entries).insert(entry.0@, entry.1@),
{
    let next = entries.update(i, entry);
    assert forall|a: int, b: int|
        0 <= a < next.len() && 0 <= b < next.len() && a != b implies (#[trigger] next[a]).0@ != (
    #[trigger] next[b]).0@ by {
        assert(entries[a].0@ != entries[b].0@);
    }
    let l = contents(next);
    let r = contents(entries).insert(entry.0@, entry.1@);
    assert(holds(entries, entry.0@)) by {
        assert(entries[i].0@ == entry.0@);
    }
    assert(l.order =~= r.order);
    assert forall|key: Seq<char>| holds(next, key) <==> holds(entries, key) by {
        if holds(next, key) {
            let j = place(next, key);
            assert(entries[j].0@ == key);
        }
        if holds(entries, key) {
            let j = place(entries, key);
            assert(next[j].0@ == key);
        }
    }
    assert(l.states =~= r.states) by {
        assert forall|key: Seq<char>| holds(next, key) implies l.states[key] == r.states[key] by {
            let j = place(next, key);
            let k = place(entries, key);
            assert(next[j].0@ == key);
            assert(entries[k].0@ == key);
            assert(entries[j].0@ == key);
            assert(j == k);
            if key == entry.0@ {
                assert(entries[i].0@ == key);
                assert(j == i);
            } else {
                assert(j != i);
            }
        }
    }
}

proof fn contents_after_push(
    entries: Seq<(String, ContainerState)>,
    entry: (String, ContainerState),
)
    requires
        distinct(entries),
        !holds(entries, entry.0@),
    ensures
        distinct(entries.push(entry)),
        contents(entries.push(entry)) == contents(entries).insert(entry.0@, entry.1@),
{
    let next = entries.push(entry);
    let n = entries.len() as int;
    assert forall|a: int, b: int|
        0 <= a < next.len() && 0 <= b < next.len() && a != b implies (#[trigger] next[a]).0@ != (
    #[trigger] next[b]).0@ by {
        if a < n {
            assert(next[a] == entries[a]);
        }
        if b < n {
            assert(next[b] == entries[b]);
        }
    }
    let l = contents(next);
    let r = contents(entries).insert(entry.0@, entry.1@);
    assert(l.order =~= r.order);
    assert forall|key: Seq<char>| holds(next, key) <==> holds(entries, key) || key == entry.0@ by {
        if holds(next, key) {
            let j = place(next, key);
            if j < n {
                assert(entries[j].0@ == key);
            }
        }
        if holds(entries, key) {
            let j = place(entries, key);
            assert(next[j].0@ == key);
        }
        if key == entry.0@ {
            assert(next[n].0@ == key);
        }
    }
    assert(l.states =~= r.states) by {
        assert forall|key: Seq<char>| holds(next, key) implies l.states[key] == r.states[key] by {
            let j = place(next, key);
            assert(next[j].0@ == key);
            if key == entry.0@ {
                assert(next[n].0@ == key);
                assert(j == n);
            } else {
                let k = place(entries, key);
                assert(entries[k].0@ == key);
                assert(next[k].0@ == key);
                assert(j == k);
            }
        }
    }
}

impl View for ContainerTable {
    type V = TableView;

    closed spec fn view(&self) -> TableView {
        contents(self.entries@)
    }
}

impl ContainerTable {
    #[verifier::type_invariant]
    spec fn names_distinct(self) -> bool {
        distinct(self.entries@)
    }

    /// A table without containers.
    pub fn new() -> (table: ContainerTable)
        ensures
            table@ == TableView::empty(),
    {
        let table: ContainerTable = ContainerTable { entries: Vec::new() };
        assert(table@ =~= TableView::empty()) by {
            assert(table@.order =~= Seq::empty());
            assert(table@.states =~= Map::empty());
        }
        table
    }

    /// The number of containers.
    pub fn len(&self) -> (n: usize)
        ensures
            n == self@.order.len(),
            self@.well_formed(),
    {
        proof {
            use_type_invariant(self);
            contents_well_formed(self.entries@);
        }
        self.entries.len()
    }

    /// Whether there is no container.
    pub fn is_empty(&self) -> (b: bool)
        ensures
            b == (self@ == TableView::empty()),
    {
        if self.entries.len() == 0 {
            assert(self@ =~= TableView::empty()) by {
                assert(self@.order =~= Seq::empty());
                assert(self@.states =~= Map::empty());
            }
            true
        } else {
            assert(self@.order.len() > 0);
            false
        }
    }

    /// The name and the state of the container in the given place of the order.
    pub fn entry(&self, place: usize) -> (entry: (&String, &ContainerState))
        requires
            place < self@.order.len(),
        ensures
            entry.0@ == self@.order[place as int],
            self@.has(entry.0@),
            entry.1@ == self@.states[entry.0@],
    {
        proof {
            use_type_invariant(self);
            let key = self.entries@[place as int].0@;
            assert(holds(self.entries@, key));
        }
        let entry: &(String, ContainerState) = &self.entries[place];
        (&entry.0, &entry.1)
    }

    fn find(&self, key: &String) -> (found: Option<usize>)
        ensures
            found is Some <==> self@.has(key@),
            found matches Some(i) ==> i < self.entries@.len() && self.entries@[i as int].0@ == key@,
    {
        let mut i: usize = 0;
        while i < self.entries.len()
            invariant
                i <= self.entries@.len(),
                forall|j: int| 0 <= j < i ==> (#[trigger] self.entries@[j]).0@ != key@,
            decreases self.entries@.len() - i,
        {
            if self.entries[i].0 == *key {
                assert(holds(self.entries@, key@));
                return Some(i);
            }
            i = i + 1;
        }
        None
    }

    /// The state of the container of that name.
    pub fn get(&self, key: &str) -> (state: Option<&ContainerState>)
        ensures
            state is Some <==> self@.has(key@),
            state matches Some(s) ==> s@ == self@.states[key@],
    {
        proof {
            use_type_invariant(self);
        }
        match self.find(&key.to_owned()) {
            Some(i) => {
                assert(holds(self.entries@, key@));
                Some(&self.entries[i].1)
            },
            None => None,
        }
    }

    /// Removes every container.
    pub fn clear(&mut self)
        ensures
            final(self)@ == TableView::empty(),
    {
        *self = ContainerTable::new();
    }

    /// Sets the state of the container of that name, which comes last where it is new.
    pub fn insert(&mut self, key: String, state: ContainerState)
        ensures
            final(self)@ == old(self)@.insert(key@, state@),
    {
        proof {
            use_type_invariant(&*self);
        }
        let found: Option<usize> = self.find(&key);
        let mut entries: Vec<(String, ContainerState)> = Vec::new();
        std::mem::swap(&mut entries, &mut self.entries);
        match found {
            Some(i) => {
                proof {
                    contents_after_update(entries@, i as int, (key, state));
                }
                entries.set(i, (key, state));
            },
            None => {
                proof {
                    contents_after_push(entries@, (key, state));
                }
                entries.push((key, state));
            },
        }
        self.entries = entries;
    }

    /// Exchanges `state` with the state of the container of that name, if the table has it.
    pub fn exchange(&mut self, key: &str, state: &mut ContainerState) -> (found: bool)
        ensures
            found == old(self)@.has(key@),
            found ==> final(self)@ == old(self)@.insert(key@, old(state)@) && final(state)@ == old(
                self,
            )@.states[key@],
            !found ==> final(self)@ == old(self)@ && *final(state) == *old(state),
    {
        proof {
            use_type_invariant(&*self);
        }
        match self.find(&key.to_owned()) {
            Some(i) => {
                let mut entries: Vec<(String, ContainerState)> = Vec::new();
                std::mem::swap(&mut entries, &mut self.entries);
                let ghost before = entries@;
                proof {
                    assert(holds(before, key@));
                    contents_after_update(before, i as int, (before[i as int].0, *state));
                }
                let slot: &mut (String, ContainerState) = &mut entries[i];
                std::mem::swap(&mut slot.1, state);
                assert(entries@ =~= before.update(i as int, (before[i as int].0, *old(state))));
                self.entries = entries;
                true
            },
            None => false,
        }
    }
}

/// After a state was set for a container, the table has it; every other container is as it was. A
/// new container comes last, a known one stays in its place.
pub proof fn setting_a_state_sets_that_one(
    table: &mut ContainerTable,
    key: String,
    state: ContainerState,
    other: Seq<char>,
)
    requires
        call_ensures(ContainerTable::insert, (table, key, state), ()),
    ensures
        final(table)@.states.contains_key(key@),
        final(table)@.states[key@] == state@,
        other != key@ ==> {
            &&& final(table)@.states.contains_key(other) <==> old(table)@.states.contains_key(other)
            &&& old(table)@.states.contains_key(other) ==> final(table)@.states[other] == old(
                table,
            )@.states[other]
        },
        old(table)@.states.contains_key(key@) ==> final(table)@.order == old(table)@.order,
        !old(table)@.states.contains_key(key@) ==> final(table)@.order == old(table)@.order + seq![
            key@,
        ],
{
    assert(old(table)@.order.push(key@) =~= old(table)@.order + seq![key@]);
}

/// A lookup finds the state of exactly the containers that the table has.
pub proof fn lookups_find_what_is_there(
    table: &ContainerTable,
    key: &str,
    found: Option<&ContainerState>,
)
    requires
        call_ensures(ContainerTable::get, (table, key), found),
    ensures
        found is Some <==> table@.states.contains_key(key@),
        found matches Some(state) ==> state@ == table@.states[key@],
{
}

/// An exchange puts the given state into the table and hands out the one that was there, and
/// changes nothing where the table does not have the container.
pub proof fn an_exchange_swaps_two_states(
    table: &mut ContainerTable,
    key: &str,
    state: &mut ContainerState,
    other: Seq<char>,
    found: bool,
)
    requires
        call_ensures(ContainerTable::exchange, (table, key, state), found),
    ensures
        found <==> old(table)@.states.contains_key(key@),
        final(table)@.order == old(table)@.order,
        final(table)@.states.dom() == old(table)@.states.dom(),
        found ==> final(table)@.states[key@] == old(state)@ && final(state)@ == old(
            table,
        )@.states[key@],
        !found ==> final(state)@ == old(state)@,
        other != key@ ==> final(table)@.states[other] == old(table)@.states[other],
{
    if found {
        assert(old(table)@.states.insert(key@, old(state)@).dom() =~= old(table)@.states.dom());
    }
}

/// The places of a table name its containers in order, each once.
pub proof fn places_are_in_order(
    table: &ContainerTable,
    n: usize,
    i: usize,
    entry: (&String, &ContainerState),
)
    requires
        call_ensures(ContainerTable::len, (table,), n),
        call_ensures(ContainerTable::entry, (table, i), entry),
    ensures
        n == table@.order.len(),
        forall|a: int, b: int|
            0 <= a < b < n ==> #[trigger] table@.order[a] != #[trigger] table@.order[b],
        forall|key: Seq<char>|
            table@.order.contains(key) <==> #[trigger] table@.states.contains_key(key),
        i < n ==> entry.0@ == table@.order[i as int] && entry.1@ == table@.states[entry.0@],
{
    assert forall|key: Seq<char>|
        table@.order.contains(key) <==> #[trigger] table@.states.contains_key(key) by {
        assert(table@.order.contains(key) <==> table@.has(key));
    }
}

/// A new and a cleared table have no containers, and exactly such tables are empty.
pub proof fn empty_tables_have_no_containers(
    fresh: ContainerTable,
    cleared: &mut ContainerTable,
    table: &ContainerTable,
    b: bool,
    n: usize,
    key: Seq<char>,
)
    requires
        call_ensures(ContainerTable::new, (), fresh),
        call_ensures(ContainerTable::clear, (cleared,), ()),
        call_ensures(ContainerTable::is_empty, (table,), b),
        call_ensures(ContainerTable::len, (table,), n),
    ensures
        fresh@.order.len() == 0 && !fresh@.states.contains_key(key),
        final(cleared)@.order.len() == 0 && !final(cleared)@.states.contains_key(key),
        b <==> n == 0,
        b ==> !table@.states.contains_key(key),
{
    if n == 0 {
        assert forall|k: Seq<char>| !table@.states.contains_key(k) by {
            assert(table@.order.contains(k) <==> table@.has(k));
        }
        assert(table@.states =~= Map::empty());
        assert(table@ =~= TableView::empty());
    }
}

} // verus!
