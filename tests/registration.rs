use goliath::identity::{CacheDb, NaiveDb};
use goliath::node::NodeType;
use goliath::registration::{
    claim_text, generate_registration_hash, RegistrationError, RegistrationRequest,
};

const A_HASH: &str =
    "MGRhZWQ4MmM5MTdlNTI4YzNlNDliNGU2M2QxY2ViZjAzODVmZjcwZTE1MWIyNjkwNGI4NjQxM2VhMjU4OTJkZg==";
const TANK_HASH: &str =
    "Y2JiNGUwZWNlYmJlYjY5ZWUxMTExMDExMTA2MjFiNDZiOTdlOTM3ZjlmY2IwYTU5MzdjZWE5MDliMjQ2YjZmYg==";

fn store() -> CacheDb {
    let mut db = CacheDb::new();
    db.set_client_secret("A".to_string(), "c2VjcmV0".to_string());
    db.set_vehicle_secret("EmilyVehicle".to_string(), "dGFuay1rZXk=".to_string());
    db
}

fn claim(id: &str, timestamp: u128, hash: &str, node_type: NodeType) -> RegistrationRequest {
    RegistrationRequest {
        id: id.to_string(),
        timestamp,
        hash: hash.to_string(),
        node_type,
    }
}

#[test]
fn cache_db_holds_fixture() {
    let db = CacheDb::new();
    let client = db.get_client("EmilyClient").unwrap();
    assert_eq!(client.id, "EmilyClient");
    assert_eq!(client.secret_key, "EmilyClientSecret");
    let vehicle = db.get_vehicle("EmilyVehicle").unwrap();
    assert_eq!(vehicle.secret_key, "EmilyVehicleSecret");
    assert!(db.get_vehicle("EmilyClient").is_none());
    assert!(db.get_client("EmilyVehicle").is_none());
}

#[test]
fn cache_db_rotation_replaces_secret() {
    let mut db = CacheDb::new();
    db.set_client_secret("EmilyClient".to_string(), "bmV3".to_string());
    assert_eq!(db.get_client("EmilyClient").unwrap().secret_key, "bmV3");
    assert!(db.get_vehicle("EmilyClient").is_none());
}

#[test]
fn claim_text_concatenates_decimal_timestamp() {
    assert_eq!(claim_text("A", 1234, "s"), "A1234s");
    assert_eq!(claim_text("", 0, ""), "0");
    assert_eq!(claim_text("id", 1700000000000, "key"), "id1700000000000key");
    assert_eq!(
        claim_text("x", u128::MAX, ""),
        "x340282366920938463463374607431768211455"
    );
}

#[test]
fn registration_hash_known_value() {
    assert_eq!(generate_registration_hash("A", 1700000000000, "c2VjcmV0").unwrap(), A_HASH);
    assert_eq!(generate_registration_hash("EmilyVehicle", 42, "dGFuay1rZXk=").unwrap(), TANK_HASH);
}

#[test]
fn registration_hash_rejects_invalid_base64() {
    assert!(generate_registration_hash("EmilyClient", 1, "EmilyClientSecret").is_err());
    assert!(generate_registration_hash("A", 1, "c2VjcmV0!").is_err());
}

#[test]
fn verify_accepts_correct_hash() {
    let db = store();
    assert_eq!(
        claim("A", 1700000000000, A_HASH, NodeType::Client).verify_hash(&db),
        Ok(NodeType::Client)
    );
    assert_eq!(
        claim("EmilyVehicle", 42, TANK_HASH, NodeType::Vehicle).verify_hash(&db),
        Ok(NodeType::Vehicle)
    );
}

#[test]
fn verify_rejects_mutated_hash() {
    let db = store();
    let mut mutated = A_HASH.as_bytes().to_vec();
    for i in [0usize, 10, 40, 87] {
        for bit in 0..7 {
            let mut m = mutated.clone();
            m[i] ^= 1 << bit;
            if let Ok(text) = String::from_utf8(m) {
                assert_eq!(
                    claim("A", 1700000000000, &text, NodeType::Client).verify_hash(&db),
                    Err(RegistrationError::MismatchedHash)
                );
            }
        }
    }
    mutated.pop();
    let shorter = String::from_utf8(mutated).unwrap();
    assert_eq!(
        claim("A", 1700000000000, &shorter, NodeType::Client).verify_hash(&db),
        Err(RegistrationError::MismatchedHash)
    );
    assert_eq!(
        claim("A", 1700000000001, A_HASH, NodeType::Client).verify_hash(&db),
        Err(RegistrationError::MismatchedHash)
    );
}

#[test]
fn verify_rejects_unknown_identity() {
    let db = store();
    assert_eq!(
        claim("Nobody", 1, A_HASH, NodeType::Client).verify_hash(&db),
        Err(RegistrationError::ClientNotFound)
    );
    assert_eq!(
        claim("Nobody", 1, A_HASH, NodeType::Vehicle).verify_hash(&db),
        Err(RegistrationError::VehicleNotFound)
    );
    // "A" is only known as a control peer.
    assert_eq!(
        claim("A", 1700000000000, A_HASH, NodeType::Vehicle).verify_hash(&db),
        Err(RegistrationError::VehicleNotFound)
    );
}

#[test]
fn verify_rejects_unsorted_role() {
    let db = store();
    assert_eq!(
        claim("A", 1700000000000, A_HASH, NodeType::Unsorted).verify_hash(&db),
        Err(RegistrationError::UnknownNodeType)
    );
}

#[test]
fn verify_reports_malformed_secret() {
    let db = CacheDb::new();
    assert_eq!(
        claim("EmilyClient", 5, "aGFzaA==", NodeType::Client).verify_hash(&db),
        Err(RegistrationError::MalformedSecret)
    );
}

#[test]
fn judge_compares_generated_hash() {
    let req = claim("A", 1, "abc", NodeType::Vehicle);
    assert_eq!(req.judge(Ok("abc".to_string())), Ok(NodeType::Vehicle));
    assert_eq!(req.judge(Ok("abd".to_string())), Err(RegistrationError::MismatchedHash));
    assert_eq!(req.judge(Ok(String::new())), Err(RegistrationError::MismatchedHash));
    assert_eq!(
        req.judge(Err(base64::DecodeError::InvalidLength)),
        Err(RegistrationError::MalformedSecret)
    );
}

#[test]
fn error_messages() {
    assert_eq!(RegistrationError::ClientNotFound.message(), "No such client found");
    assert_eq!(RegistrationError::VehicleNotFound.message(), "No such vehicle found");
    assert_eq!(RegistrationError::UnknownNodeType.message(), "Node type unrecognized");
    assert_eq!(
        RegistrationError::MalformedSecret.message(),
        "Registration failed: malformed secret"
    );
    assert_eq!(
        RegistrationError::MismatchedHash.message(),
        "Registration failed: mismatching hash"
    );
}

#[test]
fn signed_claim_round_trip() {
    let db = store();
    let req = RegistrationRequest::signed("A".to_string(), 1700000000000, "c2VjcmV0", NodeType::Client)
        .unwrap();
    assert_eq!(req.hash, A_HASH);
    assert_eq!(req.verify_hash(&db), Ok(NodeType::Client));
    assert!(RegistrationRequest::signed("A".to_string(), 1, "not base64", NodeType::Client).is_err());
}
