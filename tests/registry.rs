use goliath::gateway::{apply_registration, apply_registrations, registration_outcome, RegistrationTypeResponse};
use goliath::identity::CacheDb;
use goliath::node::NodeType;
use goliath::registration::{generate_registration_hash, RegistrationRequest};
use goliath::registry::{NodeList, NodeRegistry};
use goliath::relay::Sessions;

fn response(id: &str, node_type: NodeType, conn: u32) -> RegistrationTypeResponse<u32> {
    RegistrationTypeResponse { id: id.to_string(), node_type, ws_conn: conn }
}

#[test]
fn node_list_insert_get_remove() {
    let mut list: NodeList<u32> = NodeList::new();
    assert_eq!(list.insert("a".to_string(), 1), None);
    assert_eq!(list.insert("b".to_string(), 2), None);
    assert_eq!(list.get("a"), Some(&1));
    assert_eq!(list.insert("a".to_string(), 3), Some(1));
    assert_eq!(list.get("a"), Some(&3));
    assert_eq!(list.remove("b"), Some(2));
    assert_eq!(list.remove("b"), None);
    assert_eq!(list.ids(), vec!["a".to_string()]);
}

#[test]
fn registry_replaces_and_hands_back_prior() {
    let mut reg: NodeRegistry<u32> = NodeRegistry::new();
    assert_eq!(reg.insert(NodeType::Client, "A".to_string(), 1), None);
    assert_eq!(reg.insert(NodeType::Client, "A".to_string(), 2), Some(1));
    assert_eq!(reg.get(NodeType::Client, "A"), Some(&2));
    assert_eq!(reg.ids(NodeType::Client), vec!["A".to_string()]);
}

#[test]
fn registry_identity_in_one_role_only() {
    let mut reg: NodeRegistry<u32> = NodeRegistry::new();
    reg.insert(NodeType::Client, "A".to_string(), 1);
    assert_eq!(reg.insert(NodeType::Vehicle, "A".to_string(), 2), Some(1));
    assert_eq!(reg.get(NodeType::Client, "A"), None);
    assert_eq!(reg.get(NodeType::Vehicle, "A"), Some(&2));
    assert!(reg.ids(NodeType::Client).is_empty());
    assert_eq!(reg.ids(NodeType::Unsorted), Vec::<String>::new());
}

#[test]
fn registry_remove_absent_is_noop() {
    let mut reg: NodeRegistry<u32> = NodeRegistry::new();
    assert_eq!(reg.remove(NodeType::Client, "ghost"), None);
    reg.insert(NodeType::Vehicle, "V".to_string(), 7);
    assert_eq!(reg.remove(NodeType::Client, "V"), None);
    assert_eq!(reg.remove(NodeType::Unsorted, "V"), None);
    assert_eq!(reg.get(NodeType::Vehicle, "V"), Some(&7));
    assert_eq!(reg.remove(NodeType::Vehicle, "V"), Some(7));
    assert_eq!(reg.remove(NodeType::Vehicle, "V"), None);
}

#[test]
fn distinct_registrations_all_present_in_any_order() {
    let ids = ["n0", "n1", "n2", "n3", "n4"];
    for order in [[0, 1, 2, 3, 4], [4, 3, 2, 1, 0], [2, 0, 4, 1, 3]] {
        let mut reg: NodeRegistry<u32> = NodeRegistry::new();
        let batch: Vec<_> = order
            .iter()
            .map(|&i| {
                let role = if i % 2 == 0 { NodeType::Client } else { NodeType::Vehicle };
                response(ids[i], role, i as u32)
            })
            .collect();
        let closed = apply_registrations(&mut reg, batch);
        assert!(closed.is_empty());
        for (i, id) in ids.iter().enumerate() {
            let role = if i % 2 == 0 { NodeType::Client } else { NodeType::Vehicle };
            assert_eq!(reg.get(role, id), Some(&(i as u32)));
        }
        assert_eq!(reg.ids(NodeType::Client).len(), 3);
        assert_eq!(reg.ids(NodeType::Vehicle).len(), 2);
    }
}

#[test]
fn unclassified_connections_are_closed() {
    let mut reg: NodeRegistry<u32> = NodeRegistry::new();
    let closed = apply_registrations(
        &mut reg,
        vec![
            response("", NodeType::Unsorted, 9),
            response("A", NodeType::Client, 1),
            response("A", NodeType::Client, 2),
        ],
    );
    assert_eq!(closed, vec![9, 1]);
    assert_eq!(reg.get(NodeType::Client, "A"), Some(&2));
    assert_eq!(reg.get(NodeType::Unsorted, ""), None);
}

fn store() -> CacheDb {
    let mut db = CacheDb::new();
    db.set_client_secret("A".to_string(), "c2VjcmV0".to_string());
    db
}

fn signed_claim(id: &str, timestamp: u128) -> RegistrationRequest {
    RegistrationRequest {
        id: id.to_string(),
        timestamp,
        hash: generate_registration_hash(id, timestamp, "c2VjcmV0").unwrap(),
        node_type: NodeType::Client,
    }
}

#[test]
fn authenticated_peer_is_registered() {
    let db = store();
    let mut reg: NodeRegistry<u32> = NodeRegistry::new();
    let outcome = registration_outcome(Some(signed_claim("A", 1700000000000)), &db, 11);
    assert_eq!(outcome.id, "A");
    assert_eq!(outcome.node_type, NodeType::Client);
    assert_eq!(apply_registration(&mut reg, outcome), None);
    assert_eq!(reg.get(NodeType::Client, "A"), Some(&11));
}

#[test]
fn silent_peer_is_closed_not_registered() {
    let db = store();
    let mut reg: NodeRegistry<u32> = NodeRegistry::new();
    let outcome = registration_outcome(None, &db, 12);
    assert_eq!(outcome.id, "");
    assert_eq!(outcome.node_type, NodeType::Unsorted);
    assert_eq!(apply_registration(&mut reg, outcome), Some(12));
    assert!(reg.ids(NodeType::Client).is_empty());
    assert!(reg.ids(NodeType::Vehicle).is_empty());
}

#[test]
fn bad_claim_is_unclassified() {
    let db = store();
    let mut bad = signed_claim("A", 5);
    bad.timestamp = 6;
    let outcome = registration_outcome(Some(bad), &db, 13);
    assert_eq!(outcome.node_type, NodeType::Unsorted);
    assert_eq!(outcome.id, "");
    assert_eq!(outcome.ws_conn, 13);
}

#[test]
fn second_registration_closes_first() {
    let db = store();
    let mut reg: NodeRegistry<u32> = NodeRegistry::new();
    let first = registration_outcome(Some(signed_claim("A", 100)), &db, 1);
    let second = registration_outcome(Some(signed_claim("A", 200)), &db, 2);
    assert_eq!(apply_registration(&mut reg, first), None);
    assert_eq!(apply_registration(&mut reg, second), Some(1));
    assert_eq!(reg.get(NodeType::Client, "A"), Some(&2));
}

#[test]
fn unpaired_frame_is_dropped() {
    let mut reg: NodeRegistry<u32> = NodeRegistry::new();
    reg.insert(NodeType::Client, "C".to_string(), 1);
    reg.insert(NodeType::Vehicle, "V".to_string(), 2);
    let mut sessions = Sessions::new();
    assert_eq!(sessions.route(&reg, NodeType::Client, "C"), None);
    sessions.pair("C".to_string(), "V".to_string());
    // Routing has no memory: only frames sent after the pairing go through.
    assert_eq!(sessions.route(&reg, NodeType::Client, "C"), Some("V".to_string()));
    assert_eq!(sessions.route(&reg, NodeType::Vehicle, "V"), Some("C".to_string()));
    assert_eq!(sessions.route(&reg, NodeType::Unsorted, "C"), None);
}

#[test]
fn pairing_needs_registered_partner() {
    let mut reg: NodeRegistry<u32> = NodeRegistry::new();
    reg.insert(NodeType::Client, "C".to_string(), 1);
    let mut sessions = Sessions::new();
    sessions.pair("C".to_string(), "V".to_string());
    assert_eq!(sessions.partner(NodeType::Client, "C"), Some("V".to_string()));
    assert_eq!(sessions.route(&reg, NodeType::Client, "C"), None);
    reg.insert(NodeType::Vehicle, "V".to_string(), 2);
    assert_eq!(sessions.route(&reg, NodeType::Client, "C"), Some("V".to_string()));
}

#[test]
fn repairing_dissolves_old_pairs() {
    let mut sessions = Sessions::new();
    sessions.pair("C1".to_string(), "V1".to_string());
    sessions.pair("C2".to_string(), "V2".to_string());
    sessions.pair("C1".to_string(), "V2".to_string());
    assert_eq!(sessions.partner(NodeType::Client, "C1"), Some("V2".to_string()));
    assert_eq!(sessions.partner(NodeType::Vehicle, "V2"), Some("C1".to_string()));
    assert_eq!(sessions.partner(NodeType::Client, "C2"), None);
    assert_eq!(sessions.partner(NodeType::Vehicle, "V1"), None);
}
