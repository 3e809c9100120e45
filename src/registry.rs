use vstd::prelude::*;
use vstd::string::StringExecFns;
use crate::keyed::{
    keys_unique, lemma_push_unique, lemma_to_map_has, lemma_to_map_lacks, lemma_to_map_remove,
    to_map,
};
use crate::node::NodeType;

verus! {

/// The live connections of one role, keyed by identity.
pub struct NodeList<C> {
    entries: Vec<(String, C)>,
}

impl<C> NodeList<C> {
    pub closed spec fn entries_view(&self) -> Seq<(Seq<char>, C)> {
        self.entries@.map_values(|e: (String, C)| (e.0@, e.1))
    }

    /// Each registered identity to its connection.
    pub closed spec fn view(&self) -> Map<Seq<char>, C> {
        to_map(self.entries_view())
    }

    pub closed spec fn wf(&self) -> bool {
        keys_unique(self.entries_view())
    }

    pub fn new() -> (r: Self)
        ensures
            r.wf(),
            r@ == Map::<Seq<char>, C>::empty(),
    {
        let r = NodeList { entries: Vec::new() };
        assert(r.entries_view() =~= Seq::empty());
        r
    }

    /// The position of the entry for `id`, if there is one.
    fn find(&self, id: &str) -> (r: Option<usize>)
        requires
            self.wf(),
        ensures
            match r {
                Some(i) => i < self.entries_view().len() && self.entries_view()[i as int].0 == id@
                    && self@.contains_key(id@) && self@[id@] == self.entries_view()[i as int].1,
                None => !self@.contains_key(id@),
            },
    {
        let key = String::from_str(id);
        let ghost s = self.entries_view();
        let mut i: usize = 0;
        while i < self.entries.len()
            invariant
                i <= self.entries@.len(),
                s == self.entries_view(),
                keys_unique(s),
                key@ == id@,
                forall|j: int| 0 <= j < i ==> #[trigger] s[j].0 != id@,
            decreases self.entries@.len() - i,
        {
            if self.entries[i].0 == key {
                proof {
                    lemma_to_map_has(s, i as int);
                }
                return Some(i);
            }
            i += 1;
        }
        proof {
            lemma_to_map_lacks(s, id@);
        }
        None
    }

    /// Installs `conn` under `id`, handing back the connection it replaces.
    pub fn insert(&mut self, id: String, conn: C) -> (r: Option<C>)
        requires
            old(self).wf(),
        ensures
            final(self).wf(),
            final(self)@ == old(self)@.insert(id@, conn),
            match r {
                Some(c) => old(self)@.contains_key(id@) && c == old(self)@[id@],
                None => !old(self)@.contains_key(id@),
            },
    {
        let found = self.find(id.as_str());
        let ghost s0 = self.entries_view();
        let ghost m0 = self@;
        match found {
            Some(i) => {
                let (_, prior) = self.entries.remove(i);
                proof {
                    assert(self.entries_view() =~= s0.remove(i as int));
                    lemma_to_map_remove(s0, i as int);
                    lemma_push_unique(self.entries_view(), (id@, conn));
                }
                self.entries.push((id, conn));
                proof {
                    assert(self.entries_view() =~= s0.remove(i as int).push((id@, conn)));
                    assert(self@ =~= m0.insert(id@, conn));
                }
                Some(prior)
            },
            None => {
                proof {
                    lemma_push_unique(s0, (id@, conn));
                }
                self.entries.push((id, conn));
                proof {
                    assert(self.entries_view() =~= s0.push((id@, conn)));
                }
                None
            },
        }
    }

    /// Takes the connection registered under `id` out of the list; an absent
    /// id leaves the list as it was.
    pub fn remove(&mut self, id: &str) -> (r: Option<C>)
        requires
            old(self).wf(),
        ensures
            final(self).wf(),
            final(self)@ == old(self)@.remove(id@),
            match r {
                Some(c) => old(self)@.contains_key(id@) && c == old(self)@[id@],
                None => !old(self)@.contains_key(id@) && final(self)@ == old(self)@,
            },
    {
        let ghost s0 = self.entries_view();
        let ghost m0 = self@;
        match self.find(id) {
            Some(i) => {
                let (_, prior) = self.entries.remove(i);
                proof {
                    assert(self.entries_view() =~= s0.remove(i as int));
                    lemma_to_map_remove(s0, i as int);
                }
                Some(prior)
            },
            None => {
                assert(m0.remove(id@) =~= m0);
                None
            },
        }
    }

    /// The connection registered under `id`, if any.
    pub fn get(&self, id: &str) -> (r: Option<&C>)
        requires
            self.wf(),
        ensures
            match r {
                Some(c) => self@.contains_key(id@) && *c == self@[id@],
                None => !self@.contains_key(id@),
            },
    {
        match self.find(id) {
            Some(i) => Some(&self.entries[i].1),
            None => None,
        }
    }

    /// A snapshot of the registered identities, each once.
    pub fn ids(&self) -> (r: Vec<String>)
        requires
            self.wf(),
        ensures
            forall|i: int, j: int| 0 <= i < j < r@.len() ==> #[trigger] r@[i]@ != #[trigger] r@[j]@,
            forall|i: int| 0 <= i < r@.len() ==> self@.contains_key(#[trigger] r@[i]@),
            forall|k: Seq<char>| #[trigger]
                self@.contains_key(k) ==> exists|i: int| 0 <= i < r@.len() && r@[i]@ == k,
    {
        let ghost s = self.entries_view();
        let mut out: Vec<String> = Vec::new();
        let mut i: usize = 0;
        while i < self.entries.len()
            invariant
                i <= self.entries@.len(),
                s == self.entries_view(),
                keys_unique(s),
                out@.len() == i,
                forall|j: int| 0 <= j < i ==> #[trigger] out@[j]@ == s[j].0,
            decreases self.entries@.len() - i,
        {
            out.push(self.entries[i].0.clone());
            i += 1;
        }
        proof {
            assert forall|a: int, b: int| 0 <= a < b < out@.len() implies #[trigger] out@[a]@
                != #[trigger] out@[b]@ by {
                assert(s[a].0 != s[b].0);
            }
            assert forall|a: int| 0 <= a < out@.len() implies self@.contains_key(
                #[trigger] out@[a]@,
            ) by {
                lemma_to_map_has(s, a);
            }
            assert forall|k: Seq<char>| #[trigger] self@.contains_key(k) implies exists|a: int|
                0 <= a < out@.len() && out@[a]@ == k by {
                if !(exists|a: int| 0 <= a < out@.len() && out@[a]@ == k) {
                    assert forall|a: int| 0 <= a < s.len() implies #[trigger] s[a].0 != k by {
                        assert(out@[a]@ == s[a].0);
                    }
                    lemma_to_map_lacks(s, k);
                }
            }
        }
        out
    }
}

/// Every registered connection, partitioned by role: control peers and
/// actuator peers. An identity is registered under at most one role.
pub struct NodeRegistry<C> {
    clients: NodeList<C>,
    vehicles: NodeList<C>,
}

impl<C> NodeRegistry<C> {
    /// Each registered identity to its role and connection.
    pub closed spec fn view(&self) -> Map<Seq<char>, (NodeType, C)> {
        Map::new(
            |k: Seq<char>| self.clients@.contains_key(k) || self.vehicles@.contains_key(k),
            |k: Seq<char>|
                if self.clients@.contains_key(k) {
                    (NodeType::Client, self.clients@[k])
                } else {
                    (NodeType::Vehicle, self.vehicles@[k])
                },
        )
    }

    /// The identities registered under `role`, each to its connection.
    pub open spec fn partition(&self, role: NodeType) -> Map<Seq<char>, C> {
        Map::new(|k: Seq<char>| self@.contains_key(k) && self@[k].0 == role, |k: Seq<char>| self@[k].1)
    }

    pub closed spec fn wf(&self) -> bool {
        &&& self.clients.wf()
        &&& self.vehicles.wf()
        &&& forall|k: Seq<char>|
            !(#[trigger] self.clients@.contains_key(k) && self.vehicles@.contains_key(k))
    }

    /// An empty registry.
    pub fn new() -> (r: Self)
        ensures
            r.wf(),
            r@ == Map::<Seq<char>, (NodeType, C)>::empty(),
    {
        let r = NodeRegistry { clients: NodeList::new(), vehicles: NodeList::new() };
        assert(r@ =~= Map::<Seq<char>, (NodeType, C)>::empty());
        r
    }

    /// Registers `conn` under `role` and `id`. A connection already registered
    /// for `id`, under either role, is evicted and handed back for closing.
    pub fn insert(&mut self, role: NodeType, id: String, conn: C) -> (r: Option<C>)
        requires
            old(self).wf(),
            role.is_role(),
        ensures
            final(self).wf(),
            final(self)@ == old(self)@.insert(id@, (role, conn)),
            match r {
                Some(c) => old(self)@.contains_key(id@) && c == old(self)@[id@].1,
                None => !old(self)@.contains_key(id@),
            },
    {
        let ghost m0 = self@;
        if role == NodeType::Client {
            let other = self.vehicles.remove(id.as_str());
            let same = self.clients.insert(id, conn);
            assert(self@ =~= m0.insert(id@, (role, conn)));
            match same {
                Some(c) => Some(c),
                None => other,
            }
        } else {
            let other = self.clients.remove(id.as_str());
            let same = self.vehicles.insert(id, conn);
            assert(self@ =~= m0.insert(id@, (role, conn)));
            match same {
                Some(c) => Some(c),
                None => other,
            }
        }
    }

    /// Takes the connection registered under `role` and `id` out of the
    /// registry. Where there is none, the registry is left as it was and the
    /// result is `None`.
    pub fn remove(&mut self, role: NodeType, id: &str) -> (r: Option<C>)
        requires
            old(self).wf(),
        ensures
            final(self).wf(),
            if old(self)@.contains_key(id@) && old(self)@[id@].0 == role {
                r == Some(old(self)@[id@].1) && final(self)@ == old(self)@.remove(id@)
            } else {
                r is None && final(self)@ == old(self)@
            },
    {
        let ghost m0 = self@;
        match role {
            NodeType::Client => {
                let r = self.clients.remove(id);
                assert(r is Some ==> self@ =~= m0.remove(id@));
                assert(r is None ==> self@ =~= m0);
                r
            },
            NodeType::Vehicle => {
                let r = self.vehicles.remove(id);
                assert(r is Some ==> self@ =~= m0.remove(id@));
                assert(r is None ==> self@ =~= m0);
                r
            },
            NodeType::Unsorted => None,
        }
    }

    /// The connection registered under `role` and `id`, if any.
    pub fn get(&self, role: NodeType, id: &str) -> (r: Option<&C>)
        requires
            self.wf(),
        ensures
            match r {
                Some(c) => self@.contains_key(id@) && self@[id@] == (role, *c),
                None => !(self@.contains_key(id@) && self@[id@].0 == role),
            },
    {
        match role {
            NodeType::Client => self.clients.get(id),
            NodeType::Vehicle => self.vehicles.get(id),
            NodeType::Unsorted => None,
        }
    }

    /// A snapshot of the identities registered under `role`, each once.
    pub fn ids(&self, role: NodeType) -> (r: Vec<String>)
        requires
            self.wf(),
        ensures
            forall|i: int, j: int| 0 <= i < j < r@.len() ==> #[trigger] r@[i]@ != #[trigger] r@[j]@,
            forall|i: int| 0 <= i < r@.len() ==> self.partition(role).contains_key(#[trigger] r@[i]@),
            forall|k: Seq<char>| #[trigger]
                self.partition(role).contains_key(k) ==> exists|i: int|
                    0 <= i < r@.len() && r@[i]@ == k,
    {
        match role {
            NodeType::Client => self.clients.ids(),
            NodeType::Vehicle => self.vehicles.ids(),
            NodeType::Unsorted => Vec::new(),
        }
    }
}

} // verus!
