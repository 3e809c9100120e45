use vstd::prelude::*;
use vstd::string::StringExecFns;
use crate::node::NodeType;
use crate::registry::NodeRegistry;

verus! {

/// The role a frame from a peer of `role` is forwarded to.
pub open spec fn counterpart(role: NodeType) -> NodeType {
    match role {
        NodeType::Client => NodeType::Vehicle,
        NodeType::Vehicle => NodeType::Client,
        NodeType::Unsorted => NodeType::Unsorted,
    }
}

pub open spec fn pair_views(s: Seq<(String, String)>) -> Seq<(Seq<char>, Seq<char>)> {
    s.map_values(|p: (String, String)| (p.0@, p.1@))
}

/// The active relay pairs, each of a control identity and an actuator
/// identity. Each identity is in at most one pair.
pub struct Sessions {
    pairs: Vec<(String, String)>,
}

impl Sessions {
    pub closed spec fn pairs_view(&self) -> Seq<(Seq<char>, Seq<char>)> {
        pair_views(self.pairs@)
    }

    /// Control identity `c` and actuator identity `a` form an active pair.
    pub open spec fn is_paired(&self, c: Seq<char>, a: Seq<char>) -> bool {
        exists|i: int| 0 <= i < self.pairs_view().len() && self.pairs_view()[i] == (c, a)
    }

    /// A peer of `role` named `id` is paired with the peer named `p`.
    pub open spec fn is_partner(&self, role: NodeType, id: Seq<char>, p: Seq<char>) -> bool {
        match role {
            NodeType::Client => self.is_paired(id, p),
            NodeType::Vehicle => self.is_paired(p, id),
            NodeType::Unsorted => false,
        }
    }

    pub closed spec fn wf(&self) -> bool {
        forall|i: int, j: int|
            0 <= i < j < self.pairs_view().len() ==> {
                &&& (#[trigger] self.pairs_view()[i]).0 != (#[trigger] self.pairs_view()[j]).0
                &&& self.pairs_view()[i].1 != self.pairs_view()[j].1
            }
    }

    /// A peer has at most one partner.
    pub proof fn lemma_partner_unique(&self, role: NodeType, id: Seq<char>, p: Seq<char>, q: Seq<char>)
        requires
            self.wf(),
            self.is_partner(role, id, p),
            self.is_partner(role, id, q),
        ensures
            p == q,
    {
    }

    /// No pairs.
    pub fn new() -> (r: Self)
        ensures
            r.wf(),
            forall|c: Seq<char>, a: Seq<char>| !r.is_paired(c, a),
    {
        let r = Sessions { pairs: Vec::new() };
        assert(r.pairs_view() =~= Seq::empty());
        r
    }

    /// Pairs `control` with `actuator`, dissolving any pair either was in.
    pub fn pair(&mut self, control: String, actuator: String)
        requires
            old(self).wf(),
        ensures
            final(self).wf(),
            forall|c: Seq<char>, a: Seq<char>|
                #[trigger] final(self).is_paired(c, a) <==> (c == control@ && a == actuator@) || (
                old(self).is_paired(c, a) && c != control@ && a != actuator@),
    {
        let ghost pv = self.pairs_view();
        let mut kept: Vec<(String, String)> = Vec::new();
        let mut i: usize = 0;
        while i < self.pairs.len()
            invariant
                i <= self.pairs@.len(),
                pv == self.pairs_view(),
                self.wf(),
                forall|j: int|
                    0 <= j < pair_views(kept@).len() ==> (#[trigger] pair_views(kept@)[j]).0
                        != control@ && pair_views(kept@)[j].1 != actuator@,
                forall|j: int|
                    0 <= j < pair_views(kept@).len() ==> exists|l: int|
                        0 <= l < i && pv[l] == #[trigger] pair_views(kept@)[j],
                forall|j: int, l: int|
                    0 <= j < pair_views(kept@).len() && i <= l < pv.len() ==> (
                    #[trigger] pair_views(kept@)[j]).0 != (#[trigger] pv[l]).0
                        && pair_views(kept@)[j].1 != pv[l].1,
                forall|l: int|
                    0 <= l < i && (#[trigger] pv[l]).0 != control@ && pv[l].1 != actuator@
                        ==> pair_views(kept@).contains(pv[l]),
                forall|j: int, k: int|
                    0 <= j < k < pair_views(kept@).len() ==> (#[trigger] pair_views(kept@)[j]).0
                        != (#[trigger] pair_views(kept@)[k]).0 && pair_views(kept@)[j].1
                        != pair_views(kept@)[k].1,
            decreases self.pairs@.len() - i,
        {
            let keep = !(self.pairs[i].0 == control) && !(self.pairs[i].1 == actuator);
            let ghost before = pair_views(kept@);
            proof {
                assert(pv[i as int] == (self.pairs@[i as int].0@, self.pairs@[i as int].1@));
            }
            if keep {
                kept.push((self.pairs[i].0.clone(), self.pairs[i].1.clone()));
                proof {
                    assert(pair_views(kept@) =~= before.push(pv[i as int]));
                }
            }
            proof {
                let kv = pair_views(kept@);
                assert forall|j: int| 0 <= j < kv.len() implies exists|l: int|
                    0 <= l < i + 1 && pv[l] == #[trigger] kv[j] by {
                    if j < before.len() {
                        assert(kv[j] == before[j]);
                        let l = choose|l: int| 0 <= l < i && pv[l] == before[j];
                        assert(pv[l] == kv[j]);
                    } else {
                        assert(pv[i as int] == kv[j]);
                    }
                }
                assert forall|l: int|
                    0 <= l < i + 1 && (#[trigger] pv[l]).0 != control@ && pv[l].1 != actuator@
                        implies kv.contains(pv[l]) by {
                    if l == i {
                        assert(kv[kv.len() - 1] == pv[l]);
                    } else {
                        assert(before.contains(pv[l]));
                        let j = choose|j: int| 0 <= j < before.len() && before[j] == pv[l];
                        assert(kv[j] == before[j]);
                    }
                }
            }
            i += 1;
        }
        let ghost kv = pair_views(kept@);
        kept.push((control, actuator));
        self.pairs = kept;
        proof {
            let nv = self.pairs_view();
            assert(nv =~= kv.push((control@, actuator@)));
            assert forall|c: Seq<char>, a: Seq<char>|
                #[trigger] self.is_paired(c, a) <==> (c == control@ && a == actuator@) || (
                pv.contains((c, a)) && c != control@ && a != actuator@) by {
                if self.is_paired(c, a) {
                    let j = choose|j: int| 0 <= j < nv.len() && nv[j] == (c, a);
                    if j < nv.len() - 1 {
                        assert(nv[j] == kv[j]);
                    }
                }
                if pv.contains((c, a)) && c != control@ && a != actuator@ {
                    let l = choose|l: int| 0 <= l < pv.len() && pv[l] == (c, a);
                    assert(kv.contains(pv[l]));
                    let j = choose|j: int| 0 <= j < kv.len() && kv[j] == pv[l];
                    assert(nv[j] == (c, a));
                }
                if c == control@ && a == actuator@ {
                    assert(nv[nv.len() - 1] == (c, a));
                }
            }
        }
    }

    /// The identity paired with the peer of `role` named `id`, if any.
    pub fn partner(&self, role: NodeType, id: &str) -> (r: Option<String>)
        requires
            self.wf(),
        ensures
            match r {
                Some(p) => self.is_partner(role, id@, p@),
                None => forall|p: Seq<char>| !self.is_partner(role, id@, p),
            },
    {
        let key = String::from_str(id);
        let ghost pv = self.pairs_view();
        let mut i: usize = 0;
        while i < self.pairs.len()
            invariant
                i <= self.pairs@.len(),
                pv == self.pairs_view(),
                key@ == id@,
                forall|l: int|
                    0 <= l < i ==> match role {
                        NodeType::Client => (#[trigger] pv[l]).0 != id@,
                        NodeType::Vehicle => pv[l].1 != id@,
                        NodeType::Unsorted => true,
                    },
            decreases self.pairs@.len() - i,
        {
            proof {
                assert(pv[i as int] == (self.pairs@[i as int].0@, self.pairs@[i as int].1@));
            }
            match role {
                NodeType::Client => if self.pairs[i].0 == key {
                    return Some(self.pairs[i].1.clone());
                },
                NodeType::Vehicle => if self.pairs[i].1 == key {
                    return Some(self.pairs[i].0.clone());
                },
                NodeType::Unsorted => return None,
            }
            i += 1;
        }
        None
    }

    /// Where a frame from the peer of `role` named `id` is forwarded: its
    /// partner, when that partner is registered under the counterpart role.
    /// `None` means the frame is dropped.
    pub fn route<C>(&self, registry: &NodeRegistry<C>, role: NodeType, id: &str) -> (r: Option<String>)
        requires
            self.wf(),
            registry.wf(),
        ensures
            match r {
                Some(d) => self.is_partner(role, id@, d@) && registry@.contains_key(d@)
                    && registry@[d@].0 == counterpart(role),
                None => forall|p: Seq<char>|
                    !(#[trigger] self.is_partner(role, id@, p) && registry@.contains_key(p)
                        && registry@[p].0 == counterpart(role)),
            },
    {
        let target = match role {
            NodeType::Client => NodeType::Vehicle,
            NodeType::Vehicle => NodeType::Client,
            NodeType::Unsorted => return None,
        };
        match self.partner(role, id) {
            Some(p) => {
                if registry.get(target, p.as_str()).is_some() {
                    Some(p)
                } else {
                    proof {
                        assert forall|q: Seq<char>| #[trigger] self.is_partner(role, id@, q) implies q
                            == p@ by {
                            self.lemma_partner_unique(role, id@, p@, q);
                        }
                    }
                    None
                }
            },
            None => None,
        }
    }
}

} // verus!
