use vstd::prelude::*;

use crate::math::{Placement, Vector3};

verus! {

/// A typed value attachable to an object under a string key.
///
/// `Float` holds the bit pattern of a 64-bit IEEE scalar; `Vector` and
/// `Placement` hold 32-bit bit patterns, as everywhere in the kernel. A
/// property never coerces across variants: each accessor answers only when
/// the stored variant matches.
#[derive(Debug, Clone)]
pub enum Property {
    Float(u64),
    Text(String),
    Vector(Vector3),
    Placement(Placement),
}

impl Property {
    /// The payload, only if this property holds a 64-bit scalar.
    pub fn as_float(&self) -> (r: Option<u64>)
        ensures
            r == (match *self {
                Property::Float(v) => Some(v),
                _ => None::<u64>,
            }),
    {
        match self {
            Property::Float(v) => Some(*v),
            _ => None,
        }
    }

    /// The payload, only if this property holds text.
    pub fn as_string(&self) -> (r: Option<&str>)
        ensures
            (r is Some) == (*self matches Property::Text(_)),
            r matches Some(s) ==> (*self matches Property::Text(t) && s@ == t@),
    {
        match self {
            Property::Text(v) => Some(v.as_str()),
            _ => None,
        }
    }

    /// The payload, only if this property holds a vector.
    pub fn as_vector(&self) -> (r: Option<Vector3>)
        ensures
            r == (match *self {
                Property::Vector(v) => Some(v),
                _ => None::<Vector3>,
            }),
    {
        match self {
            Property::Vector(v) => Some(*v),
            _ => None,
        }
    }

    /// The payload, only if this property holds a placement.
    pub fn as_placement(&self) -> (r: Option<Placement>)
        ensures
            r == (match *self {
                Property::Placement(p) => Some(p),
                _ => None::<Placement>,
            }),
    {
        match self {
            Property::Placement(p) => Some(*p),
            _ => None,
        }
    }
}

/// Whether the keys of an association list are pairwise distinct.
pub open spec fn keys_distinct(entries: Seq<(String, Property)>) -> bool {
    forall|i: int, j: int|
        0 <= i < j < entries.len() ==> entries[i].0@ != entries[j].0@
}

/// The map described by an association list; a later entry for a key
/// overrides an earlier one.
pub open spec fn map_of_entries(entries: Seq<(String, Property)>) -> Map<Seq<char>, Property>
    decreases entries.len(),
{
    if entries.len() == 0 {
        Map::empty()
    } else {
        map_of_entries(entries.drop_last()).insert(entries.last().0@, entries.last().1)
    }
}

/// The property store of one object: a map from string keys to property
/// values. The last write under a key wins; an absent key is reported as
/// absent, never defaulted.
#[derive(Debug)]
pub struct PropertyMap {
    entries: Vec<(String, Property)>,
}

impl View for PropertyMap {
    type V = Map<Seq<char>, Property>;

    closed spec fn view(&self) -> Map<Seq<char>, Property> {
        map_of_entries(self.entries@)
    }
}

proof fn lemma_map_of_entries_contains(entries: Seq<(String, Property)>, k: Seq<char>)
    ensures
        map_of_entries(entries).contains_key(k) <==> (exists|i: int|
            0 <= i < entries.len() && entries[i].0@ == k),
    decreases entries.len(),
{
    if entries.len() > 0 {
        lemma_map_of_entries_contains(entries.drop_last(), k);
        if entries.last().0@ == k {
            assert(entries[entries.len() - 1].0@ == k);
        } else {
            if map_of_entries(entries).contains_key(k) {
                let i = choose|i: int|
                    0 <= i < entries.drop_last().len() && entries.drop_last()[i].0@ == k;
                assert(entries[i].0@ == k);
            }
            if exists|i: int| 0 <= i < entries.len() && entries[i].0@ == k {
                let i = choose|i: int| 0 <= i < entries.len() && entries[i].0@ == k;
                assert(i < entries.len() - 1);
                assert(entries.drop_last()[i].0@ == k);
            }
        }
    }
}

proof fn lemma_map_of_entries_get(entries: Seq<(String, Property)>, i: int)
    requires
        keys_distinct(entries),
        0 <= i < entries.len(),
    ensures
        map_of_entries(entries).contains_key(entries[i].0@),
        map_of_entries(entries)[entries[i].0@] == entries[i].1,
    decreases entries.len(),
{
    if i < entries.len() - 1 {
        lemma_map_of_entries_get(entries.drop_last(), i);
        assert(entries.drop_last()[i] == entries[i]);
        assert(entries[i].0@ != entries.last().0@);
    }
}

proof fn lemma_map_of_entries_absent(entries: Seq<(String, Property)>, k: Seq<char>)
    requires
        forall|i: int| 0 <= i < entries.len() ==> entries[i].0@ != k,
    ensures
        !map_of_entries(entries).contains_key(k),
{
    lemma_map_of_entries_contains(entries, k);
}

proof fn lemma_map_of_entries_update(entries: Seq<(String, Property)>, i: int, p: (String, Property))
    requires
        keys_distinct(entries),
        0 <= i < entries.len(),
        p.0@ == entries[i].0@,
    ensures
        map_of_entries(entries.update(i, p)) == map_of_entries(entries).insert(p.0@, p.1),
    decreases entries.len(),
{
    let updated = entries.update(i, p);
    if i == entries.len() - 1 {
        assert(updated.drop_last() =~= entries.drop_last());
        assert(map_of_entries(updated) =~= map_of_entries(entries).insert(p.0@, p.1));
    } else {
        assert(updated.drop_last() =~= entries.drop_last().update(i, p));
        lemma_map_of_entries_update(entries.drop_last(), i, p);
        assert(entries.last().0@ != entries[i].0@);
        assert(updated.last() == entries.last());
        assert(map_of_entries(updated) =~= map_of_entries(entries).insert(p.0@, p.1));
    }
}

impl PropertyMap {
    /// Keys are pairwise distinct, so each key names one entry.
    pub closed spec fn wf(&self) -> bool {
        keys_distinct(self.entries@)
    }

    /// An empty property store.
    pub fn new() -> (r: PropertyMap)
        ensures
            r.wf(),
            r@ == Map::<Seq<char>, Property>::empty(),
    {
        PropertyMap { entries: Vec::new() }
    }

    /// Insert or overwrite the value under `name`; always succeeds.
    pub fn set(&mut self, name: String, value: Property)
        requires
            old(self).wf(),
        ensures
            final(self).wf(),
            final(self)@ == old(self)@.insert(name@, value),
    {
        let n = self.entries.len();
        let mut i: usize = 0;
        while i < n
            invariant
                old(self).wf(),
                *self == *old(self),
                n == self.entries@.len(),
                i <= n,
                forall|j: int| 0 <= j < i ==> self.entries@[j].0@ != name@,
            decreases n - i,
        {
            if self.entries[i].0 == name {
                let ghost pre = self.entries@;
                self.entries.remove(i);
                self.entries.insert(i, (name, value));
                proof {
                    assert(self.entries@ =~= pre.update(i as int, (name, value)));
                    lemma_map_of_entries_update(pre, i as int, (name, value));
                }
                return;
            }
            i += 1;
        }
        let ghost pre = self.entries@;
        self.entries.push((name, value));
        proof {
            assert(self.entries@.drop_last() =~= pre);
            assert(self.entries@.last() == (name, value));
        }
    }

    /// The stored entries, in insertion order.
    pub closed spec fn entries_seq(&self) -> Seq<(String, Property)> {
        self.entries@
    }

    /// How many keys are stored.
    pub fn entry_count(&self) -> (r: usize)
        ensures
            r == self.entries_seq().len(),
    {
        self.entries.len()
    }

    /// The entry at position `i` of the insertion order; hosts walk the store
    /// this way when persisting it.
    pub fn entry_at(&self, i: usize) -> (r: &(String, Property))
        requires
            self.wf(),
            i < self.entries_seq().len(),
        ensures
            *r == self.entries_seq()[i as int],
            self@.contains_key(r.0@) && self@[r.0@] == r.1,
    {
        proof {
            lemma_map_of_entries_get(self.entries@, i as int);
        }
        &self.entries[i]
    }

    /// Look the value under `name` up; absent keys answer `None`.
    pub fn get(&self, name: &str) -> (r: Option<&Property>)
        requires
            self.wf(),
        ensures
            r matches Some(p) ==> self@.contains_key(name@) && *p == self@[name@],
            r is None ==> !self@.contains_key(name@),
    {
        let owned: String = name.to_owned();
        let n = self.entries.len();
        let mut i: usize = 0;
        while i < n
            invariant
                self.wf(),
                owned@ == name@,
                n == self.entries@.len(),
                i <= n,
                forall|j: int| 0 <= j < i ==> self.entries@[j].0@ != name@,
            decreases n - i,
        {
            if self.entries[i].0 == owned {
                proof {
                    lemma_map_of_entries_get(self.entries@, i as int);
                }
                return Some(&self.entries[i].1);
            }
            i += 1;
        }
        proof {
            lemma_map_of_entries_absent(self.entries@, name@);
        }
        None
    }
}

} // verus!
