//! A table from names to values.
use vstd::prelude::*;

verus! {

/// The value that stands with `name` in a list of named values: that of the
/// first entry with the name.
pub open spec fn lookup<X>(entries: Seq<(Seq<char>, X)>, name: Seq<char>) -> Option<X>
    decreases entries.len(),
{
    if entries.len() == 0 {
        None
    } else if entries[0].0 == name {
        Some(entries[0].1)
    } else {
        lookup(entries.drop_first(), name)
    }
}

/// The map that a list of named values stands for.
pub open spec fn as_map<X>(entries: Seq<(Seq<char>, X)>) -> Map<Seq<char>, X> {
    Map::new(
        |name: Seq<char>| lookup(entries, name) is Some,
        |name: Seq<char>| lookup(entries, name)->0,
    )
}

proof fn lemma_lookup_skip<X>(entries: Seq<(Seq<char>, X)>, name: Seq<char>, i: int)
    requires
        0 <= i <= entries.len(),
        forall|k: int| 0 <= k < i ==> (#[trigger] entries[k]).0 != name,
    ensures
        lookup(entries, name) == lookup(entries.skip(i), name),
    decreases i,
{
    if i > 0 {
        lemma_lookup_skip(entries, name, i - 1);
        assert(entries.skip(i - 1).drop_first() == entries.skip(i));
    } else {
        assert(entries.skip(0) == entries);
    }
}

proof fn lemma_lookup_push<X>(entries: Seq<(Seq<char>, X)>, entry: (Seq<char>, X), name: Seq<char>)
    ensures
        lookup(entries.push(entry), name) == if lookup(entries, name) is Some {
            lookup(entries, name)
        } else if entry.0 == name {
            Some(entry.1)
        } else {
            None
        },
    decreases entries.len(),
{
    if entries.len() == 0 {
        assert(entries.push(entry).drop_first() == entries);
    } else {
        assert(entries.push(entry).drop_first() == entries.drop_first().push(entry));
        lemma_lookup_push(entries.drop_first(), entry, name);
    }
}

proof fn lemma_lookup_update<X>(
    entries: Seq<(Seq<char>, X)>,
    i: int,
    entry: (Seq<char>, X),
    name: Seq<char>,
)
    requires
        0 <= i < entries.len(),
        entries[i].0 == entry.0,
        forall|k: int| 0 <= k < i ==> (#[trigger] entries[k]).0 != entry.0,
    ensures
        lookup(entries.update(i, entry), name) == if name == entry.0 {
            Some(entry.1)
        } else {
            lookup(entries, name)
        },
    decreases i,
{
    if i > 0 {
        assert(entries.update(i, entry).drop_first() == entries.drop_first().update(i - 1, entry));
        assert forall|k: int| 0 <= k < i - 1 implies (#[trigger] entries.drop_first()[k]).0
            != entry.0 by {
            assert(entries.drop_first()[k] == entries[k + 1]);
        }
        lemma_lookup_update(entries.drop_first(), i - 1, entry, name);
    } else {
        assert(entries.update(i, entry).drop_first() == entries.drop_first());
    }
}

/// A table from names to values, searched from its first entry on.
pub struct Table<V> {
    entries: Vec<(String, V)>,
}

impl<V: View> Table<V> {
    /// The entries as named values.
    pub closed spec fn pairs(&self) -> Seq<(Seq<char>, V::V)> {
        Seq::new(self.entries@.len(), |i: int| (self.entries@[i].0@, self.entries@[i].1@))
    }
}

impl<V: View> View for Table<V> {
    type V = Map<Seq<char>, V::V>;

    closed spec fn view(&self) -> Map<Seq<char>, V::V> {
        as_map(self.pairs())
    }
}

impl<V: View> Table<V> {
    /// The empty table.
    pub fn new() -> (r: Table<V>)
        ensures
            r@ == Map::<Seq<char>, V::V>::empty(),
    {
        let r = Table { entries: Vec::new() };
        assert(r@ =~= Map::<Seq<char>, V::V>::empty());
        r
    }

    /// The position of the entry named `name`.
    fn position(&self, name: &String) -> (r: Option<usize>)
        ensures
            match r {
                Some(i) => i < self.entries@.len() && self.pairs()[i as int].0 == name@ && lookup(
                    self.pairs(),
                    name@,
                ) == Some(self.pairs()[i as int].1) && (forall|k: int|
                    0 <= k < i ==> (#[trigger] self.pairs()[k]).0 != name@),
                None => lookup(self.pairs(), name@) is None,
            },
    {
        let mut i: usize = 0;
        while i < self.entries.len()
            invariant
                i <= self.entries@.len(),
                forall|k: int| 0 <= k < i ==> (#[trigger] self.pairs()[k]).0 != name@,
            decreases self.entries@.len() - i,
        {
            if self.entries[i].0 == *name {
                proof {
                    lemma_lookup_skip(self.pairs(), name@, i as int);
                }
                return Some(i);
            }
            i += 1;
        }
        proof {
            lemma_lookup_skip(self.pairs(), name@, i as int);
        }
        None
    }

    /// The value that stands with `name`.
    pub fn get(&self, name: &str) -> (r: Option<&V>)
        ensures
            r is Some <==> self@.contains_key(name@),
            r is Some ==> r->0@ == self@[name@],
    {
        let key = name.to_owned();
        match self.position(&key) {
            Some(i) => Some(&self.entries[i].1),
            None => None,
        }
    }

    /// Puts `value` with `name`, in place of what stood with it.
    pub fn insert(&mut self, name: String, value: V)
        ensures
            final(self)@ == old(self)@.insert(name@, value@),
    {
        let ghost before = self.pairs();
        let ghost entry = (name@, value@);
        match self.position(&name) {
            Some(i) => {
                self.entries.set(i, (name, value));
                assert(self.pairs() == before.update(i as int, entry));
                assert forall|k: Seq<char>| lookup(self.pairs(), k) == if k == entry.0 {
                    Some(entry.1)
                } else {
                    lookup(before, k)
                } by {
                    lemma_lookup_update(before, i as int, entry, k);
                }
            },
            None => {
                self.entries.push((name, value));
                assert(self.pairs() == before.push(entry));
                assert forall|k: Seq<char>| lookup(self.pairs(), k) == if k == entry.0 {
                    Some(entry.1)
                } else {
                    lookup(before, k)
                } by {
                    lemma_lookup_push(before, entry, k);
                }
            },
        }
        assert(self@ =~= old(self)@.insert(name@, value@));
    }

    /// Empties the table.
    pub fn clear(&mut self)
        ensures
            final(self)@ == Map::<Seq<char>, V::V>::empty(),
    {
        self.entries.clear();
        assert(self@ =~= Map::<Seq<char>, V::V>::empty());
    }
}

} // verus!
