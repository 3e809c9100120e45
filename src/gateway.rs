use vstd::prelude::*;
use vstd::string::StringExecFns;
use crate::identity::NaiveDb;
use crate::node::NodeType;
use crate::registration::{verdict, RegistrationRequest};
use crate::registry::NodeRegistry;

verus! {

/// The outcome of one registration task: the connection it authenticated
/// with the identity and role it was classified under, or `Unsorted` (with an
/// empty id) when classification failed.
pub struct RegistrationTypeResponse<C> {
    pub id: String,
    pub node_type: NodeType,
    pub ws_conn: C,
}

impl<C> RegistrationTypeResponse<C> {
    pub open spec fn view(&self) -> (NodeType, Seq<char>, C) {
        (self.node_type, self.id@, self.ws_conn)
    }
}

/// One registration outcome applied to a registry view: a classified
/// connection is registered (replacing any prior one for its id), an
/// unclassified one leaves the registry as it is.
pub open spec fn registration_step<C>(
    m: Map<Seq<char>, (NodeType, C)>,
    o: (NodeType, Seq<char>, C),
) -> Map<Seq<char>, (NodeType, C)> {
    if o.0.is_role() {
        m.insert(o.1, (o.0, o.2))
    } else {
        m
    }
}

/// A registry view after a sequence of registration outcomes, in order.
pub open spec fn after_registrations<C>(
    m: Map<Seq<char>, (NodeType, C)>,
    outs: Seq<(NodeType, Seq<char>, C)>,
) -> Map<Seq<char>, (NodeType, C)>
    decreases outs.len(),
{
    if outs.len() == 0 {
        m
    } else {
        registration_step(after_registrations(m, outs.drop_last()), outs.last())
    }
}

/// The connection that applying one outcome to a registry view leaves to be
/// closed: the rejected connection itself, or the one a registration evicts.
pub open spec fn closed_by_step<C>(m: Map<Seq<char>, (NodeType, C)>, o: (NodeType, Seq<char>, C)) -> Option<C> {
    if !o.0.is_role() {
        Some(o.2)
    } else if m.contains_key(o.1) {
        Some(m[o.1].1)
    } else {
        None
    }
}

/// The connections left to be closed by a sequence of outcomes, in order.
pub open spec fn closed_by<C>(
    m: Map<Seq<char>, (NodeType, C)>,
    outs: Seq<(NodeType, Seq<char>, C)>,
) -> Seq<C>
    decreases outs.len(),
{
    if outs.len() == 0 {
        Seq::empty()
    } else {
        let before = closed_by(m, outs.drop_last());
        match closed_by_step(after_registrations(m, outs.drop_last()), outs.last()) {
            Some(c) => before.push(c),
            None => before,
        }
    }
}

/// Turns what a registration task read into its one outcome, which carries
/// the connection in every case: the claim's id and role when the claim
/// verifies against `cache_db`, and otherwise an empty id and `Unsorted`.
/// `claim` is `None` when no parseable claim arrived.
pub fn registration_outcome<DB: NaiveDb, C>(
    claim: Option<RegistrationRequest>,
    cache_db: &DB,
    ws_conn: C,
) -> (r: RegistrationTypeResponse<C>)
    ensures
        r.ws_conn == ws_conn,
        match claim {
            Some(req) => match verdict(
                req.id@,
                req.timestamp as nat,
                req.hash@,
                req.node_type,
                cache_db.client_secrets(),
                cache_db.vehicle_secrets(),
            ) {
                Ok(role) => r.id@ == req.id@ && r.node_type == role,
                Err(_) => r.id@ == Seq::<char>::empty() && r.node_type == NodeType::Unsorted,
            },
            None => r.id@ == Seq::<char>::empty() && r.node_type == NodeType::Unsorted,
        },
{
    if let Some(req) = claim {
        if let Ok(node_type) = req.verify_hash(cache_db) {
            return RegistrationTypeResponse { id: req.id, node_type, ws_conn };
        }
    }
    RegistrationTypeResponse { id: String::new(), node_type: NodeType::Unsorted, ws_conn }
}

/// Applies one outcome to the registry and returns the connection that must
/// now be closed, if any: a rejected connection, or the one a registration
/// under an identity already present evicts.
pub fn apply_registration<C>(
    registry: &mut NodeRegistry<C>,
    response: RegistrationTypeResponse<C>,
) -> (r: Option<C>)
    requires
        old(registry).wf(),
    ensures
        final(registry).wf(),
        final(registry)@ == registration_step(old(registry)@, response@),
        r == closed_by_step(old(registry)@, response@),
{
    match response.node_type {
        NodeType::Unsorted => Some(response.ws_conn),
        _ => registry.insert(response.node_type, response.id, response.ws_conn),
    }
}

/// Applies the outcomes in order and returns the connections that must now
/// be closed, in order.
pub fn apply_registrations<C>(
    registry: &mut NodeRegistry<C>,
    responses: Vec<RegistrationTypeResponse<C>>,
) -> (r: Vec<C>)
    requires
        old(registry).wf(),
    ensures
        final(registry).wf(),
        final(registry)@ == after_registrations(
            old(registry)@,
            responses@.map_values(|o: RegistrationTypeResponse<C>| o@),
        ),
        r@ == closed_by(old(registry)@, responses@.map_values(|o: RegistrationTypeResponse<C>| o@)),
{
    let ghost m0 = registry@;
    let ghost outs = responses@.map_values(|o: RegistrationTypeResponse<C>| o@);
    let mut rest = responses;
    let mut to_close: Vec<C> = Vec::new();
    let ghost mut done: int = 0;
    while rest.len() > 0
        invariant
            registry.wf(),
            0 <= done <= outs.len(),
            rest@.len() == outs.len() - done,
            rest@.map_values(|o: RegistrationTypeResponse<C>| o@) == outs.subrange(done, outs.len() as int),
            registry@ == after_registrations(m0, outs.subrange(0, done)),
            to_close@ == closed_by(m0, outs.subrange(0, done)),
        decreases rest@.len(),
    {
        let ghost rest0 = rest@;
        let response = rest.remove(0);
        proof {
            assert(outs.subrange(done, outs.len() as int)[0] == response@);
            assert(outs[done] == response@);
        }
        let closed = apply_registration(registry, response);
        proof {
            let pre = outs.subrange(0, done);
            let post = outs.subrange(0, done + 1);
            assert(post.drop_last() =~= pre);
            assert(post.last() == outs[done]);
            let tail = outs.subrange(done, outs.len() as int);
            assert(rest@ =~= rest0.subrange(1, rest0.len() as int));
            assert(forall|j: int| 0 <= j < rest@.len() ==> #[trigger] rest@[j]@ == tail[j + 1]);
            assert(rest@.map_values(|o: RegistrationTypeResponse<C>| o@) =~= outs.subrange(
                done + 1,
                outs.len() as int,
            ));
        }
        match closed {
            Some(c) => to_close.push(c),
            None => {},
        }
        proof {
            done = done + 1;
        }
    }
    proof {
        assert(outs.subrange(0, done) =~= outs);
    }
    to_close
}

/// An identity that no registration in the sequence names keeps its entry
/// (or its absence) from before.
pub proof fn lemma_untouched<C>(
    m: Map<Seq<char>, (NodeType, C)>,
    outs: Seq<(NodeType, Seq<char>, C)>,
    k: Seq<char>,
)
    requires
        forall|j: int| 0 <= j < outs.len() && (#[trigger] outs[j]).0.is_role() ==> outs[j].1 != k,
    ensures
        after_registrations(m, outs).contains_key(k) == m.contains_key(k),
        m.contains_key(k) ==> after_registrations(m, outs)[k] == m[k],
    decreases outs.len(),
{
    if outs.len() > 0 {
        let d = outs.drop_last();
        assert forall|j: int| 0 <= j < d.len() && (#[trigger] d[j]).0.is_role() implies d[j].1
            != k by {
            assert(d[j] == outs[j]);
        }
        lemma_untouched(m, d, k);
        assert(outs.last() == outs[outs.len() - 1]);
    }
}

/// Last registration wins: after any sequence of outcomes, an identity holds
/// the role and connection of the last registration that named it.
pub proof fn law_last_registration_wins<C>(
    m: Map<Seq<char>, (NodeType, C)>,
    outs: Seq<(NodeType, Seq<char>, C)>,
    k: int,
)
    requires
        0 <= k < outs.len(),
        outs[k].0.is_role(),
        forall|j: int| k < j < outs.len() && (#[trigger] outs[j]).0.is_role() ==> outs[j].1 != outs[k].1,
    ensures
        after_registrations(m, outs).contains_key(outs[k].1),
        after_registrations(m, outs)[outs[k].1] == (outs[k].0, outs[k].2),
    decreases outs.len(),
{
    let d = outs.drop_last();
    assert(outs.last() == outs[outs.len() - 1]);
    if k < outs.len() - 1 {
        assert forall|j: int| k < j < d.len() && (#[trigger] d[j]).0.is_role() implies d[j].1
            != d[k].1 by {
            assert(d[j] == outs[j]);
        }
        assert(d[k] == outs[k]);
        law_last_registration_wins(m, d, k);
    }
}

/// A registration under an identity already registered hands the prior
/// connection over for closing: the one installed by the last earlier
/// registration of that identity.
pub proof fn law_replaced_connection_is_closed<C>(
    m: Map<Seq<char>, (NodeType, C)>,
    outs: Seq<(NodeType, Seq<char>, C)>,
    i: int,
    k: int,
)
    requires
        0 <= i < k < outs.len(),
        outs[i].0.is_role(),
        outs[k].0.is_role(),
        outs[i].1 == outs[k].1,
        forall|j: int| i < j < k && (#[trigger] outs[j]).0.is_role() ==> outs[j].1 != outs[k].1,
    ensures
        closed_by_step(after_registrations(m, outs.subrange(0, k)), outs[k]) == Some(outs[i].2),
{
    let pre = outs.subrange(0, k);
    assert forall|j: int| i < j < pre.len() && (#[trigger] pre[j]).0.is_role() implies pre[j].1
        != pre[i].1 by {
        assert(pre[j] == outs[j]);
    }
    assert(pre[i] == outs[i]);
    law_last_registration_wins(m, pre, i);
}

/// Registrations with distinct identities are each reflected in the
/// registry, under their own role and connection.
pub proof fn law_distinct_registrations_all_present<C>(
    m: Map<Seq<char>, (NodeType, C)>,
    outs: Seq<(NodeType, Seq<char>, C)>,
)
    requires
        forall|j: int| 0 <= j < outs.len() ==> (#[trigger] outs[j]).0.is_role(),
        forall|a: int, b: int| 0 <= a < b < outs.len() ==> #[trigger] outs[a].1 != #[trigger] outs[b].1,
    ensures
        forall|j: int|
            0 <= j < outs.len() ==> {
                &&& after_registrations(m, outs).contains_key(#[trigger] outs[j].1)
                &&& after_registrations(m, outs)[outs[j].1] == (outs[j].0, outs[j].2)
            },
{
    assert forall|j: int| 0 <= j < outs.len() implies {
        &&& after_registrations(m, outs).contains_key(#[trigger] outs[j].1)
        &&& after_registrations(m, outs)[outs[j].1] == (outs[j].0, outs[j].2)
    } by {
        assert forall|b: int| j < b < outs.len() && (#[trigger] outs[b]).0.is_role() implies outs[b].1
            != outs[j].1 by {
            assert(outs[j].1 != outs[b].1);
        }
        law_last_registration_wins(m, outs, j);
    }
}

/// Registrations with distinct identities lead to the same registry in
/// whatever order they complete.
pub proof fn law_registration_order_irrelevant<C>(
    m: Map<Seq<char>, (NodeType, C)>,
    outs1: Seq<(NodeType, Seq<char>, C)>,
    outs2: Seq<(NodeType, Seq<char>, C)>,
)
    requires
        outs1.to_set() == outs2.to_set(),
        forall|j: int| 0 <= j < outs1.len() ==> (#[trigger] outs1[j]).0.is_role(),
        forall|j: int| 0 <= j < outs2.len() ==> (#[trigger] outs2[j]).0.is_role(),
        forall|a: int, b: int|
            0 <= a < b < outs1.len() ==> #[trigger] outs1[a].1 != #[trigger] outs1[b].1,
        forall|a: int, b: int|
            0 <= a < b < outs2.len() ==> #[trigger] outs2[a].1 != #[trigger] outs2[b].1,
    ensures
        after_registrations(m, outs1) == after_registrations(m, outs2),
{
    law_distinct_registrations_all_present(m, outs1);
    law_distinct_registrations_all_present(m, outs2);
    let r1 = after_registrations(m, outs1);
    let r2 = after_registrations(m, outs2);
    assert forall|k: Seq<char>| #[trigger] r1.contains_key(k) == r2.contains_key(k) && (
    r1.contains_key(k) ==> r1[k] == r2[k]) by {
        if exists|j: int| 0 <= j < outs1.len() && outs1[j].1 == k {
            let j = choose|j: int| 0 <= j < outs1.len() && outs1[j].1 == k;
            assert(outs1.to_set().contains(outs1[j]));
            assert(outs2.contains(outs1[j]));
            let j2 = choose|j2: int| 0 <= j2 < outs2.len() && outs2[j2] == outs1[j];
            assert(outs2[j2].1 == k);
        } else if exists|j: int| 0 <= j < outs2.len() && outs2[j].1 == k {
            let j = choose|j: int| 0 <= j < outs2.len() && outs2[j].1 == k;
            assert(outs2.to_set().contains(outs2[j]));
            assert(outs1.contains(outs2[j]));
            let j1 = choose|j1: int| 0 <= j1 < outs1.len() && outs1[j1] == outs2[j];
            assert(outs1[j1].1 == k);
        } else {
            lemma_untouched(m, outs1, k);
            lemma_untouched(m, outs2, k);
        }
    }
    assert(r1 =~= r2);
}

} // verus!
