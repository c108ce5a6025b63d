//! A map keyed by name that remembers the order in which names were added.

use vstd::prelude::*;

verus! {

/// No name occurs twice among the entries.
pub open spec fn distinct_names<W>(entries: Seq<(Seq<char>, W)>) -> bool {
    forall|i: int, j: int| 0 <= i < j < entries.len() ==> entries[i].0 != entries[j].0
}

/// The map that a sequence of entries stands for; a later entry replaces an
/// earlier one of the same name.
pub open spec fn map_of<W>(entries: Seq<(Seq<char>, W)>) -> Map<Seq<char>, W>
    decreases entries.len(),
{
    if entries.len() == 0 {
        Map::empty()
    } else {
        map_of(entries.drop_last()).insert(entries.last().0, entries.last().1)
    }
}

/// A name is mapped exactly when some entry carries it.
pub proof fn lemma_map_of_dom<W>(entries: Seq<(Seq<char>, W)>, name: Seq<char>)
    ensures
        map_of(entries).dom().contains(name) <==> exists|i: int|
            0 <= i < entries.len() && (#[trigger] entries[i]).0 == name,
    decreases entries.len(),
{
    if entries.len() > 0 {
        let front = entries.drop_last();
        lemma_map_of_dom(front, name);
        if exists|i: int| 0 <= i < front.len() && (#[trigger] front[i]).0 == name {
            let i = choose|i: int| 0 <= i < front.len() && (#[trigger] front[i]).0 == name;
            assert(entries[i].0 == name);
        }
        if exists|i: int| 0 <= i < entries.len() && (#[trigger] entries[i]).0 == name {
            let i = choose|i: int| 0 <= i < entries.len() && (#[trigger] entries[i]).0 == name;
            if i < front.len() {
                assert(front[i].0 == name);
            }
        }
    }
}

/// With distinct names, each entry is what its name is mapped to.
pub proof fn lemma_map_of_entry<W>(entries: Seq<(Seq<char>, W)>, i: int)
    requires
        distinct_names(entries),
        0 <= i < entries.len(),
    ensures
        map_of(entries).dom().contains(entries[i].0),
        map_of(entries)[entries[i].0] == entries[i].1,
    decreases entries.len(),
{
    let front = entries.drop_last();
    if i < entries.len() - 1 {
        assert(distinct_names(front)) by {
            assert forall|a: int, b: int| 0 <= a < b < front.len() implies front[a].0 != front[b].0 by {
                assert(front[a] == entries[a] && front[b] == entries[b]);
            }
        }
        lemma_map_of_entry(front, i);
        assert(front[i] == entries[i]);
    }
}

/// Replacing the value of one entry replaces what its name is mapped to.
pub proof fn lemma_map_of_update<W>(entries: Seq<(Seq<char>, W)>, i: int, value: W)
    requires
        distinct_names(entries),
        0 <= i < entries.len(),
    ensures
        distinct_names(entries.update(i, (entries[i].0, value))),
        map_of(entries.update(i, (entries[i].0, value))) == map_of(entries).insert(
            entries[i].0,
            value,
        ),
    decreases entries.len(),
{
    let after = entries.update(i, (entries[i].0, value));
    assert(distinct_names(after)) by {
        assert forall|a: int, b: int| 0 <= a < b < after.len() implies after[a].0 != after[b].0 by {
            assert(after[a].0 == entries[a].0 && after[b].0 == entries[b].0);
        }
    }
    let front = entries.drop_last();
    if i == entries.len() - 1 {
        assert(after.drop_last() =~= front);
        assert(map_of(after) =~= map_of(entries).insert(entries[i].0, value));
    } else {
        assert(distinct_names(front)) by {
            assert forall|a: int, b: int| 0 <= a < b < front.len() implies front[a].0 != front[b].0 by {
                assert(front[a] == entries[a] && front[b] == entries[b]);
            }
        }
        assert(front[i] == entries[i]);
        lemma_map_of_update(front, i, value);
        assert(after.drop_last() =~= front.update(i, (entries[i].0, value)));
        assert(after.last() == entries.last());
        assert(entries.last().0 != entries[i].0);
        assert(map_of(after) =~= map_of(entries).insert(entries[i].0, value));
    }
}

/// With distinct names, the map has as many names as there are entries.
pub proof fn lemma_map_of_len<W>(entries: Seq<(Seq<char>, W)>)
    requires
        distinct_names(entries),
    ensures
        map_of(entries).dom().finite(),
        map_of(entries).dom().len() == entries.len(),
    decreases entries.len(),
{
    if entries.len() > 0 {
        let front = entries.drop_last();
        assert(distinct_names(front)) by {
            assert forall|a: int, b: int| 0 <= a < b < front.len() implies front[a].0 != front[b].0 by {
                assert(front[a] == entries[a] && front[b] == entries[b]);
            }
        }
        lemma_map_of_len(front);
        lemma_map_of_dom(front, entries.last().0);
        if map_of(front).dom().contains(entries.last().0) {
            let i = choose|i: int| 0 <= i < front.len() && (#[trigger] front[i]).0 == entries.last().0;
            assert(front[i] == entries[i]);
        }
    }
}

/// A map from names to values, held in the order in which the names came.
#[derive(Debug)]
pub struct NameMap<V> {
    entries: Vec<(String, V)>,
}

impl<V: View> NameMap<V> {
    /// The entries in the order in which their names were first added.
    pub closed spec fn entries(&self) -> Seq<(Seq<char>, V::V)> {
        self.entries@.map_values(|e: (String, V)| (e.0@, e.1@))
    }

    /// No name is held twice.
    pub open spec fn wf(&self) -> bool {
        distinct_names(self.entries())
    }

    /// The mapping from each name to its value.
    pub open spec fn view(&self) -> Map<Seq<char>, V::V> {
        map_of(self.entries())
    }

    /// The empty map.
    pub fn new() -> (r: Self)
        ensures
            r.wf(),
            r.entries() == Seq::<(Seq<char>, V::V)>::empty(),
            r@ == Map::<Seq<char>, V::V>::empty(),
    {
        let r = NameMap { entries: Vec::new() };
        assert(r.entries() =~= Seq::<(Seq<char>, V::V)>::empty());
        r
    }

    /// The number of names.
    pub fn len(&self) -> (n: usize)
        requires
            self.wf(),
        ensures
            n == self.entries().len(),
            n == self@.dom().len(),
    {
        proof {
            lemma_map_of_len(self.entries());
        }
        self.entries.len()
    }

    /// Whether no name is held.
    pub fn is_empty(&self) -> (r: bool)
        requires
            self.wf(),
        ensures
            r == (self.entries().len() == 0),
            r == (self@ == Map::<Seq<char>, V::V>::empty()),
    {
        proof {
            lemma_map_of_len(self.entries());
            if self.entries().len() == 0 {
                assert(self@ =~= Map::<Seq<char>, V::V>::empty());
            }
        }
        self.entries.len() == 0
    }

    /// The position of `name` among the entries.
    pub fn position(&self, name: &str) -> (r: Option<usize>)
        requires
            self.wf(),
        ensures
            match r {
                Some(i) => i < self.entries().len() && self.entries()[i as int].0 == name@,
                None => !self@.dom().contains(name@),
            },
            r is Some <==> self@.dom().contains(name@),
    {
        let wanted: String = name.to_owned();
        let mut i: usize = 0;
        while i < self.entries.len()
            invariant
                self.wf(),
                i <= self.entries.len(),
                wanted@ == name@,
                forall|j: int| 0 <= j < i ==> (#[trigger] self.entries()[j]).0 != name@,
            decreases self.entries.len() - i,
        {
            if self.entries[i].0 == wanted {
                proof {
                    assert(self.entries()[i as int].0 == name@);
                    lemma_map_of_entry(self.entries(), i as int);
                }
                return Some(i);
            }
            i += 1;
        }
        proof {
            lemma_map_of_dom(self.entries(), name@);
        }
        None
    }

    /// The name at position `i`.
    pub fn name_at(&self, i: usize) -> (r: &String)
        requires
            i < self.entries().len(),
        ensures
            r@ == self.entries()[i as int].0,
    {
        &self.entries[i].0
    }

    /// The value at position `i`.
    pub fn value_at(&self, i: usize) -> (r: &V)
        requires
            i < self.entries().len(),
        ensures
            r@ == self.entries()[i as int].1,
    {
        &self.entries[i].1
    }

    /// Whether `name` is mapped.
    pub fn contains_key(&self, name: &str) -> (r: bool)
        requires
            self.wf(),
        ensures
            r == self@.dom().contains(name@),
    {
        self.position(name).is_some()
    }

    /// The value that `name` is mapped to.
    pub fn get(&self, name: &str) -> (r: Option<&V>)
        requires
            self.wf(),
        ensures
            match r {
                Some(v) => self@.dom().contains(name@) && v@ == self@[name@],
                None => !self@.dom().contains(name@),
            },
    {
        match self.position(name) {
            Some(i) => {
                proof {
                    lemma_map_of_entry(self.entries(), i as int);
                }
                Some(&self.entries[i].1)
            },
            None => None,
        }
    }

    /// Maps `name` to `value`. A name already held keeps its position; a new
    /// one goes to the end.
    pub fn insert(&mut self, name: &str, value: V)
        requires
            old(self).wf(),
        ensures
            final(self).wf(),
            final(self)@ == old(self)@.insert(name@, value@),
            old(self)@.dom().contains(name@) ==> exists|i: int|
                0 <= i < old(self).entries().len() && (#[trigger] old(self).entries()[i]).0 == name@
                    && final(self).entries() == old(self).entries().update(i, (name@, value@)),
            !old(self)@.dom().contains(name@) ==> final(self).entries() == old(self).entries().push(
                (name@, value@),
            ),
    {
        let ghost before = self.entries();
        let key: String = name.to_owned();
        match self.position(name) {
            Some(i) => {
                self.entries.set(i, (key, value));
                proof {
                    assert(self.entries() =~= before.update(i as int, (name@, value@)));
                    lemma_map_of_update(before, i as int, value@);
                }
            },
            None => {
                self.entries.push((key, value));
                proof {
                    assert(self.entries() =~= before.push((name@, value@)));
                    assert(self.entries().drop_last() =~= before);
                    lemma_map_of_dom(before, name@);
                    assert forall|a: int, b: int| 0 <= a < b < self.entries().len() implies self.entries()[a].0
                        != self.entries()[b].0 by {
                        if b == before.len() {
                            assert(before[a].0 != name@);
                        }
                    }
                }
            },
        }
    }
}

impl<V: View + Copy> NameMap<V> {
    /// A copy of the map, entry by entry.
    pub fn duplicate(&self) -> (r: Self)
        requires
            self.wf(),
        ensures
            r.wf(),
            r.entries() == self.entries(),
            r@ == self@,
    {
        let mut r = NameMap { entries: Vec::new() };
        let mut i: usize = 0;
        assert(r.entries() =~= self.entries().take(0));
        while i < self.entries.len()
            invariant
                i <= self.entries.len(),
                r.entries() == self.entries().take(i as int),
            decreases self.entries.len() - i,
        {
            let ghost before = r.entries();
            let name = self.entries[i].0.clone();
            let value = self.entries[i].1;
            r.entries.push((name, value));
            assert(r.entries() =~= before.push((name@, value@)));
            assert(self.entries()[i as int] == (name@, value@));
            assert(r.entries() =~= self.entries().take(i + 1));
            i += 1;
        }
        assert(self.entries().take(self.entries.len() as int) =~= self.entries());
        r
    }
}

} // verus!
