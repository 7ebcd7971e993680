//! The schema registry: named schemas that response descriptors refer to.

use vstd::prelude::*;

verus! {

/// A named schema definition that a response type registers.
#[derive(Debug, Clone, PartialEq, Eq)]
pub struct SchemaEntry {
    pub name: String,
    pub definition: String,
}

/// The registry of schemas, each name at most once.
#[derive(Debug, Clone, PartialEq, Eq)]
pub struct SchemaRegistry {
    entries: Vec<SchemaEntry>,
}

/// The registry after inserting `entries` in order: a name registered again
/// takes the later definition.
pub open spec fn registered(m: Map<Seq<char>, Seq<char>>, entries: Seq<SchemaEntry>) -> Map<
    Seq<char>,
    Seq<char>,
>
    decreases entries.len(),
{
    if entries.len() == 0 {
        m
    } else {
        registered(m, entries.drop_last()).insert(entries.last().name@, entries.last().definition@)
    }
}

/// Whether `entries` names `k`.
pub open spec fn names(entries: Seq<SchemaEntry>, k: Seq<char>) -> bool {
    exists|i: int| 0 <= i < entries.len() && entries[i].name@ == k
}

/// The definition that the last entry named `k` gives.
pub open spec fn last_definition(entries: Seq<SchemaEntry>, k: Seq<char>) -> Seq<char>
    decreases entries.len(),
{
    if entries.len() == 0 {
        Seq::empty()
    } else if entries.last().name@ == k {
        entries.last().definition@
    } else {
        last_definition(entries.drop_last(), k)
    }
}

impl View for SchemaRegistry {
    type V = Map<Seq<char>, Seq<char>>;

    closed spec fn view(&self) -> Map<Seq<char>, Seq<char>> {
        Map::new(
            |k: Seq<char>| names(self.entries@, k),
            |k: Seq<char>| last_definition(self.entries@, k),
        )
    }
}

impl SchemaRegistry {
    pub closed spec fn wf(&self) -> bool {
        forall|i: int, j: int|
            0 <= i < j < self.entries@.len() ==> self.entries@[i].name@ != self.entries@[j].name@
    }

    pub fn new() -> (r: SchemaRegistry)
        ensures
            r.wf(),
            r@ == Map::<Seq<char>, Seq<char>>::empty(),
    {
        let r = SchemaRegistry { entries: Vec::new() };
        assert(r@ =~= Map::<Seq<char>, Seq<char>>::empty());
        r
    }

    /// The definition registered under `name`, if any.
    pub fn get(&self, name: &String) -> (r: Option<&String>)
        requires
            self.wf(),
        ensures
            match r {
                Some(d) => self@.contains_key(name@) && d@ == self@[name@],
                None => !self@.contains_key(name@),
            },
    {
        let mut i: usize = 0;
        while i < self.entries.len()
            invariant
                self.wf(),
                0 <= i <= self.entries@.len(),
                forall|j: int| 0 <= j < i ==> self.entries@[j].name@ != name@,
            decreases self.entries@.len() - i,
        {
            if self.entries[i].name == *name {
                proof {
                    lemma_last_definition_unique(self.entries@, i as int);
                }
                return Some(&self.entries[i].definition);
            }
            i += 1;
        }
        None
    }

    /// The number of registered names.
    pub fn len(&self) -> (r: usize)
        requires
            self.wf(),
        ensures
            r == self@.dom().len(),
    {
        proof {
            lemma_domain_len(self.entries@);
        }
        self.entries.len()
    }

    /// Registers `entry`, replacing the definition of a name already there.
    pub fn insert(&mut self, entry: SchemaEntry)
        requires
            old(self).wf(),
        ensures
            final(self).wf(),
            final(self)@ == old(self)@.insert(entry.name@, entry.definition@),
    {
        let ghost before = self.entries@;
        let ghost k = entry.name@;
        let mut i: usize = 0;
        while i < self.entries.len()
            invariant
                self.entries@ == before,
                k == entry.name@,
                before == old(self).entries@,
                old(self).wf(),
                0 <= i <= before.len(),
                forall|j: int| 0 <= j < i ==> before[j].name@ != k,
            decreases before.len() - i,
        {
            if self.entries[i].name == entry.name {
                self.entries.set(i, entry);
                proof {
                    let after = self.entries@;
                    assert forall|n: Seq<char>| #[trigger] names(after, n) == (names(before, n) || n == k) by {
                        if names(before, n) {
                            let j = choose|j: int| 0 <= j < before.len() && before[j].name@ == n;
                            assert(after[j].name@ == n);
                        }
                        if names(after, n) {
                            let j = choose|j: int| 0 <= j < after.len() && after[j].name@ == n;
                            assert(before[j].name@ == n || j == i);
                        }
                        assert(after[i as int].name@ == k);
                    }
                    assert forall|n: Seq<char>| names(after, n) implies #[trigger] last_definition(after, n)
                        == (if n == k { entry.definition@ } else { last_definition(before, n) }) by {
                        lemma_last_definition_unique(after, i as int);
                        if n != k {
                            let j = choose|j: int| 0 <= j < after.len() && after[j].name@ == n;
                            lemma_last_definition_unique(after, j);
                            lemma_last_definition_unique(before, j);
                        }
                    }
                    assert(self@ =~= old(self)@.insert(k, entry.definition@));
                }
                return;
            }
            assert(before[i as int].name@ != k);
            i += 1;
        }
        self.entries.push(entry);
        proof {
            let after = self.entries@;
            assert(after.drop_last() =~= before);
            assert forall|n: Seq<char>| #[trigger] names(after, n) == (names(before, n) || n == k) by {
                if names(before, n) {
                    let j = choose|j: int| 0 <= j < before.len() && before[j].name@ == n;
                    assert(after[j].name@ == n);
                }
                if names(after, n) && n != k {
                    let j = choose|j: int| 0 <= j < after.len() && after[j].name@ == n;
                    assert(before[j].name@ == n);
                }
                assert(after[before.len() as int].name@ == k);
            }
            assert(self@ =~= old(self)@.insert(k, entry.definition@));
        }
    }

    /// Registers each of `entries` in order.
    pub fn register(&mut self, entries: &Vec<SchemaEntry>)
        requires
            old(self).wf(),
        ensures
            final(self).wf(),
            final(self)@ == registered(old(self)@, entries@),
    {
        let mut i: usize = 0;
        while i < entries.len()
            invariant
                self.wf(),
                0 <= i <= entries@.len(),
                self@ == registered(old(self)@, entries@.take(i as int)),
            decreases entries@.len() - i,
        {
            let e = SchemaEntry { name: entries[i].name.clone(), definition: entries[i].definition.clone() };
            self.insert(e);
            proof {
                assert(entries@.take(i + 1).drop_last() =~= entries@.take(i as int));
            }
            i += 1;
        }
        assert(entries@.take(i as int) =~= entries@);
    }
}

/// A copy of a list of schema entries.
pub(crate) fn copy_entries(v: &Vec<SchemaEntry>) -> (r: Vec<SchemaEntry>)
    ensures
        r@ == v@,
{
    let mut r: Vec<SchemaEntry> = Vec::new();
    let mut i: usize = 0;
    while i < v.len()
        invariant
            0 <= i <= v@.len(),
            r@ == v@.take(i as int),
        decreases v@.len() - i,
    {
        r.push(SchemaEntry { name: v[i].name.clone(), definition: v[i].definition.clone() });
        i += 1;
        assert(r@ =~= v@.take(i as int));
    }
    assert(r@ =~= v@);
    r
}

/// In a sequence with unique names, the definition at `i` is the one found by name.
proof fn lemma_last_definition_unique(entries: Seq<SchemaEntry>, i: int)
    requires
        0 <= i < entries.len(),
        forall|a: int, b: int|
            0 <= a < b < entries.len() ==> entries[a].name@ != entries[b].name@,
    ensures
        last_definition(entries, entries[i].name@) == entries[i].definition@,
    decreases entries.len(),
{
    if i < entries.len() - 1 {
        assert(entries.drop_last()[i] == entries[i]);
        lemma_last_definition_unique(entries.drop_last(), i);
    }
}

/// With unique names, there are as many names as entries.
proof fn lemma_domain_len(entries: Seq<SchemaEntry>)
    requires
        forall|a: int, b: int|
            0 <= a < b < entries.len() ==> entries[a].name@ != entries[b].name@,
    ensures
        Set::new(|k: Seq<char>| names(entries, k)).len() == entries.len(),
        Set::new(|k: Seq<char>| names(entries, k)).finite(),
    decreases entries.len(),
{
    let s = Set::new(|k: Seq<char>| names(entries, k));
    if entries.len() == 0 {
        assert(s =~= Set::empty());
    } else {
        let rest = entries.drop_last();
        lemma_domain_len(rest);
        let t = Set::new(|k: Seq<char>| names(rest, k));
        assert forall|k: Seq<char>| #[trigger] s.contains(k) == t.insert(entries.last().name@).contains(k) by {
            if names(entries, k) {
                let j = choose|j: int| 0 <= j < entries.len() && entries[j].name@ == k;
                if j < entries.len() - 1 {
                    assert(rest[j].name@ == k);
                }
            }
            if names(rest, k) {
                let j = choose|j: int| 0 <= j < rest.len() && rest[j].name@ == k;
                assert(entries[j].name@ == k);
            }
        }
        assert(s =~= t.insert(entries.last().name@));
        assert(!t.contains(entries.last().name@)) by {
            if names(rest, entries.last().name@) {
                let j = choose|j: int| 0 <= j < rest.len() && rest[j].name@ == entries.last().name@;
                assert(entries[j].name@ == rest[j].name@);
            }
        }
    }
}

/// Registering the same entries twice leaves the registry as registering them once.
pub proof fn lemma_register_idempotent(m: Map<Seq<char>, Seq<char>>, entries: Seq<SchemaEntry>)
    ensures
        registered(registered(m, entries), entries) == registered(m, entries),
{
    lemma_registered_at(m, entries);
    lemma_registered_at(registered(m, entries), entries);
    assert(registered(registered(m, entries), entries) =~= registered(m, entries));
}

/// What the registry holds after `registered`: the last definition of each
/// name that `entries` registers, and what it held before for the others.
pub proof fn lemma_registered_at(m: Map<Seq<char>, Seq<char>>, entries: Seq<SchemaEntry>)
    ensures
        forall|k: Seq<char>| #[trigger]
            registered(m, entries).contains_key(k) == (names(entries, k) || m.contains_key(k)),
        forall|k: Seq<char>|
            names(entries, k) ==> #[trigger] registered(m, entries)[k] == last_definition(entries, k),
        forall|k: Seq<char>|
            !names(entries, k) && m.contains_key(k) ==> #[trigger] registered(m, entries)[k] == m[k],
    decreases entries.len(),
{
    if entries.len() > 0 {
        let rest = entries.drop_last();
        lemma_registered_at(m, rest);
        let last = entries.last();
        assert(registered(m, entries) == registered(m, rest).insert(last.name@, last.definition@));
        assert forall|k: Seq<char>| #[trigger] last_definition(entries, k) == (if last.name@ == k {
            last.definition@
        } else {
            last_definition(rest, k)
        }) by {}
        assert forall|k: Seq<char>| #[trigger] names(entries, k) == (names(rest, k) || entries.last().name@ == k) by {
            if names(entries, k) {
                let j = choose|j: int| 0 <= j < entries.len() && entries[j].name@ == k;
                if j < entries.len() - 1 {
                    assert(rest[j].name@ == k);
                }
            }
            if names(rest, k) {
                let j = choose|j: int| 0 <= j < rest.len() && rest[j].name@ == k;
                assert(entries[j].name@ == k);
            }
            if entries.last().name@ == k {
                assert(entries[entries.len() - 1].name@ == k);
            }
        }
    }
}

/// Registering `a` then `b` is registering `a` followed by `b`.
pub proof fn lemma_registered_append(
    m: Map<Seq<char>, Seq<char>>,
    a: Seq<SchemaEntry>,
    b: Seq<SchemaEntry>,
)
    ensures
        registered(registered(m, a), b) == registered(m, a + b),
    decreases b.len(),
{
    if b.len() > 0 {
        lemma_registered_append(m, a, b.drop_last());
        assert((a + b).drop_last() =~= a + b.drop_last());
        assert((a + b).last() == b.last());
    } else {
        assert(a + b =~= a);
    }
}

} // verus!
