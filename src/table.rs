//! A name table: from a file name to the node identifier listed under it.

use vstd::prelude::*;

verus! {

/// File names mapped to node identifiers. Entries are added or overwritten,
/// never removed.
pub struct NameTable {
    names: Vec<String>,
    nodes: Vec<u64>,
    contents: Ghost<Map<Seq<char>, u64>>,
}

/// `m` with the pairs of `entries` inserted in order: a later pair overwrites
/// an earlier one with the same name.
pub open spec fn insert_all(m: Map<Seq<char>, u64>, entries: Seq<(Seq<char>, u64)>) -> Map<
    Seq<char>,
    u64,
>
    decreases entries.len(),
{
    if entries.len() == 0 {
        m
    } else {
        insert_all(m, entries.drop_last()).insert(entries.last().0, entries.last().1)
    }
}

impl View for NameTable {
    type V = Map<Seq<char>, u64>;

    closed spec fn view(&self) -> Map<Seq<char>, u64> {
        self.contents@
    }
}

impl NameTable {
    /// The names are distinct, each maps to the node stored beside it, and
    /// the map holds no other name.
    pub closed spec fn wf(&self) -> bool {
        &&& self.names@.len() == self.nodes@.len()
        &&& forall|i: int, j: int|
            0 <= i < j < self.names@.len() ==> self.names@[i]@ != self.names@[j]@
        &&& forall|i: int|
            0 <= i < self.names@.len() ==> #[trigger] self.contents@.contains_key(
                self.names@[i]@,
            ) && self.contents@[self.names@[i]@] == self.nodes@[i]
        &&& forall|k: Seq<char>|
            #[trigger] self.contents@.contains_key(k) ==> exists|i: int|
                0 <= i < self.names@.len() && self.names@[i]@ == k
    }

    /// An empty table.
    pub fn new() -> (r: NameTable)
        ensures
            r.wf(),
            r@ == Map::<Seq<char>, u64>::empty(),
    {
        NameTable { names: Vec::new(), nodes: Vec::new(), contents: Ghost(Map::empty()) }
    }

    /// Where `name` stands among the names, if it does.
    fn position(&self, name: &String) -> (r: Option<usize>)
        requires
            self.wf(),
        ensures
            match r {
                Some(i) => i < self.names@.len() && self.names@[i as int]@ == name@,
                None => !self@.contains_key(name@),
            },
    {
        let mut i: usize = 0;
        while i < self.names.len()
            invariant
                self.wf(),
                i <= self.names@.len(),
                forall|j: int| 0 <= j < i ==> self.names@[j]@ != name@,
            decreases self.names@.len() - i,
        {
            if self.names[i] == *name {
                return Some(i);
            }
            i = i + 1;
        }
        None
    }

    /// The node listed under `name`, if any.
    pub fn get(&self, name: &String) -> (r: Option<u64>)
        requires
            self.wf(),
        ensures
            r == self@.get(name@),
    {
        match self.position(name) {
            Some(i) => Some(self.nodes[i]),
            None => None,
        }
    }

    /// Lists `node` under `name`, replacing what was listed there before.
    pub fn insert(&mut self, name: String, node: u64)
        requires
            old(self).wf(),
        ensures
            final(self).wf(),
            final(self)@ == old(self)@.insert(name@, node),
    {
        let ghost key = name@;
        let ghost idx: int;
        match self.position(&name) {
            Some(i) => {
                self.nodes.set(i, node);
                proof {
                    idx = i as int;
                }
            },
            None => {
                proof {
                    idx = self.names@.len() as int;
                    assert forall|j: int| 0 <= j < self.names@.len() implies self.names@[j]@
                        != key by {
                        assert(self.contents@.contains_key(self.names@[j]@));
                    }
                }
                self.names.push(name);
                self.nodes.push(node);
            },
        }
        self.contents = Ghost(self.contents@.insert(key, node));
        assert(self.names@[idx]@ == key);
        assert forall|i: int| 0 <= i < self.names@.len() implies #[trigger] self.contents@.contains_key(
            self.names@[i]@,
        ) && self.contents@[self.names@[i]@] == self.nodes@[i] by {
            if i != idx {
                assert(old(self).names@[i] == self.names@[i]);
                assert(old(self).contents@.contains_key(old(self).names@[i]@));
                if old(self).names@[i]@ == key {
                    assert(i < idx || idx < i);
                }
            }
        }
        assert forall|i: int, j: int| 0 <= i < j < self.names@.len() implies self.names@[i]@
            != self.names@[j]@ by {
            if j == idx && idx == old(self).names@.len() {
                assert(old(self).contents@.contains_key(old(self).names@[i]@));
            }
        }
        assert forall|k: Seq<char>| #[trigger] self.contents@.contains_key(k) implies exists|
            i: int,
        | 0 <= i < self.names@.len() && self.names@[i]@ == k by {
            if k != key {
                let i = choose|i: int| 0 <= i < old(self).names@.len() && old(self).names@[i]@ == k;
                assert(self.names@[i]@ == k);
            } else {
                assert(self.names@[idx]@ == k);
            }
        }
    }
}

/// After inserting `entries` in order, the name of entry `i` maps to its
/// node, where no later entry has the same name.
pub proof fn lemma_insert_all_get(m: Map<Seq<char>, u64>, entries: Seq<(Seq<char>, u64)>, i: int)
    requires
        0 <= i < entries.len(),
        forall|j: int| i < j < entries.len() ==> entries[j].0 != entries[i].0,
    ensures
        insert_all(m, entries).get(entries[i].0) == Some(entries[i].1),
    decreases entries.len(),
{
    let last = entries.len() - 1;
    if i < last {
        lemma_insert_all_get(m, entries.drop_last(), i);
        assert(entries[last].0 != entries[i].0);
    }
}

} // verus!
