//! The named policies a validator enforces.

use vstd::prelude::*;
use crate::policy::Policy;
use crate::text::str_equal;

verus! {

/// Policies by name; no name occurs twice.
#[derive(Debug)]
pub struct PolicySet {
    entries: Vec<(String, Policy)>,
}

/// The index of the entry named `name`, when there is one.
pub open spec fn entry_index(entries: Seq<(String, Policy)>, name: Seq<char>) -> int {
    choose|i: int| 0 <= i < entries.len() && entries[i].0@ == name
}

pub open spec fn names_unique(entries: Seq<(String, Policy)>) -> bool {
    forall|i: int, j: int|
        0 <= i < entries.len() && 0 <= j < entries.len() && i != j ==> entries[i].0@ != entries[j].0@
}

pub proof fn lemma_entry_index(entries: Seq<(String, Policy)>, name: Seq<char>, i: int)
    requires
        names_unique(entries),
        0 <= i < entries.len(),
        entries[i].0@ == name,
    ensures
        entry_index(entries, name) == i,
{
    let j = entry_index(entries, name);
    assert(0 <= j < entries.len() && entries[j].0@ == name);
}

impl PolicySet {
    #[verifier::type_invariant]
    spec fn inv(self) -> bool {
        names_unique(self.entries@)
    }

    /// The policy each name maps to.
    pub closed spec fn view(&self) -> Map<Seq<char>, Seq<Seq<Seq<char>>>> {
        Map::new(
            |k: Seq<char>| exists|i: int| 0 <= i < self.entries@.len() && self.entries@[i].0@ == k,
            |k: Seq<char>| self.entries@[entry_index(self.entries@, k)].1@,
        )
    }

    /// No policies.
    pub fn new() -> (r: PolicySet)
        ensures
            r.view() == Map::<Seq<char>, Seq<Seq<Seq<char>>>>::empty(),
    {
        let r = PolicySet { entries: Vec::new() };
        assert(r.view() =~= Map::<Seq<char>, Seq<Seq<Seq<char>>>>::empty());
        r
    }

    /// The policy named `name`.
    pub fn get(&self, name: &str) -> (r: Option<&Policy>)
        ensures
            match r {
                Some(p) => self.view().contains_key(name@) && self.view()[name@] == p@,
                None => !self.view().contains_key(name@),
            },
    {
        proof {
            use_type_invariant(self);
        }
        let n = self.entries.len();
        let mut i: usize = 0;
        while i < n
            invariant
                n == self.entries@.len(),
                names_unique(self.entries@),
                i <= n,
                forall|j: int| 0 <= j < i ==> self.entries@[j].0@ != name@,
            decreases n - i,
        {
            if str_equal(self.entries[i].0.as_str(), name) {
                proof {
                    lemma_entry_index(self.entries@, name@, i as int);
                }
                return Some(&self.entries[i].1);
            }
            i = i + 1;
        }
        None
    }

    /// Maps `name` to `policy`, replacing the policy it mapped to before.
    pub fn insert(&mut self, name: String, policy: Policy)
        ensures
            final(self).view() == old(self).view().insert(name@, policy@),
    {
        proof {
            use_type_invariant(&*self);
        }
        let ghost old_entries = self.entries@;
        let n = self.entries.len();
        let mut i: usize = 0;
        while i < n
            invariant
                n == self.entries@.len(),
                self.entries@ == old_entries,
                old(self).entries@ == old_entries,
                names_unique(old_entries),
                i <= n,
                forall|j: int| 0 <= j < i ==> self.entries@[j].0@ != name@,
            decreases n - i,
        {
            if str_equal(self.entries[i].0.as_str(), name.as_str()) {
                let ghost nv = name@;
                let ghost pv = policy@;
                let mut entries = Vec::new();
                std::mem::swap(&mut entries, &mut self.entries);
                entries.set(i, (name, policy));
                assert(names_unique(entries@)) by {
                    assert forall|a: int, b: int|
                        0 <= a < entries@.len() && 0 <= b < entries@.len() && a != b implies entries@[a].0@
                        != entries@[b].0@ by {
                        if a != i && b != i {
                            assert(entries@[a] == old_entries[a]);
                            assert(entries@[b] == old_entries[b]);
                        } else if a == i {
                            assert(entries@[b] == old_entries[b]);
                        } else {
                            assert(entries@[a] == old_entries[a]);
                        }
                    }
                }
                self.entries = entries;
                proof {
                    let new_map = self.view();
                    let want = Map::new(
                        |k: Seq<char>| exists|j: int| 0 <= j < old_entries.len() && old_entries[j].0@ == k,
                        |k: Seq<char>| old_entries[entry_index(old_entries, k)].1@,
                    ).insert(nv, pv);
                    assert forall|k: Seq<char>| #[trigger] new_map.contains_key(k) <==> want.contains_key(k) by {
                        if new_map.contains_key(k) && k != nv {
                            let j = choose|j: int| 0 <= j < self.entries@.len() && self.entries@[j].0@ == k;
                            assert(old_entries[j].0@ == k);
                        }
                        if want.contains_key(k) && k != nv {
                            let j = choose|j: int| 0 <= j < old_entries.len() && old_entries[j].0@ == k;
                            assert(self.entries@[j].0@ == k);
                        }
                        if k == nv {
                            assert(self.entries@[i as int].0@ == k);
                        }
                    }
                    assert forall|k: Seq<char>| #[trigger] new_map.contains_key(k) implies new_map[k] == want[k] by {
                        if k == nv {
                            lemma_entry_index(self.entries@, k, i as int);
                        } else {
                            let j = choose|j: int| 0 <= j < self.entries@.len() && self.entries@[j].0@ == k;
                            lemma_entry_index(self.entries@, k, j);
                            lemma_entry_index(old_entries, k, j);
                        }
                    }
                    assert(new_map =~= want);
                }
                return;
            }
            i = i + 1;
        }
        let ghost nv = name@;
        let ghost pv = policy@;
        let mut entries = Vec::new();
        std::mem::swap(&mut entries, &mut self.entries);
        entries.push((name, policy));
        assert(names_unique(entries@)) by {
            assert forall|a: int, b: int|
                0 <= a < entries@.len() && 0 <= b < entries@.len() && a != b implies entries@[a].0@
                != entries@[b].0@ by {
                if a < n && b < n {
                    assert(entries@[a] == old_entries[a]);
                    assert(entries@[b] == old_entries[b]);
                } else if a == n {
                    assert(entries@[b] == old_entries[b]);
                } else {
                    assert(entries@[a] == old_entries[a]);
                }
            }
        }
        self.entries = entries;
        proof {
            let new_map = self.view();
            let want = Map::new(
                |k: Seq<char>| exists|j: int| 0 <= j < old_entries.len() && old_entries[j].0@ == k,
                |k: Seq<char>| old_entries[entry_index(old_entries, k)].1@,
            ).insert(nv, pv);
            assert forall|k: Seq<char>| #[trigger] new_map.contains_key(k) <==> want.contains_key(k) by {
                if new_map.contains_key(k) && k != nv {
                    let j = choose|j: int| 0 <= j < self.entries@.len() && self.entries@[j].0@ == k;
                    assert(j < n);
                    assert(old_entries[j].0@ == k);
                }
                if want.contains_key(k) && k != nv {
                    let j = choose|j: int| 0 <= j < old_entries.len() && old_entries[j].0@ == k;
                    assert(self.entries@[j].0@ == k);
                }
                if k == nv {
                    assert(self.entries@[n as int].0@ == k);
                }
            }
            assert forall|k: Seq<char>| #[trigger] new_map.contains_key(k) implies new_map[k] == want[k] by {
                if k == nv {
                    lemma_entry_index(self.entries@, k, n as int);
                } else {
                    let j = choose|j: int| 0 <= j < self.entries@.len() && self.entries@[j].0@ == k;
                    assert(j < n);
                    lemma_entry_index(self.entries@, k, j);
                    lemma_entry_index(old_entries, k, j);
                }
            }
            assert(new_map =~= want);
        }
    }
}

} // verus!
