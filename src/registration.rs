use vstd::prelude::*;
use vstd::string::StringExecFns;
use crate::codec::{
    base64_decode, base64_decoded, base64_encode_text, base64_of_text, decimal, from_utf8_lossy,
    push_decimal, sha256_digest, sha256_hex, utf8_lossy,
};
use crate::identity::NaiveDb;
use crate::node::NodeType;

verus! {

/// The claim a peer sends once, right after its connection is established.
#[derive(Clone)]
pub struct RegistrationRequest {
    pub id: String,
    pub timestamp: u128,
    pub hash: String,
    pub node_type: NodeType,
}

/// Why a claim was rejected.
#[derive(Copy, Clone, Debug, PartialEq, Eq, Structural)]
pub enum RegistrationError {
    /// No secret is registered for the id among control peers.
    ClientNotFound,
    /// No secret is registered for the id among actuator peers.
    VehicleNotFound,
    /// The claimed role is not one a peer may register under.
    UnknownNodeType,
    /// The stored secret is not valid base64.
    MalformedSecret,
    /// The presented hash differs from the one computed from the secret.
    MismatchedHash,
}

impl RegistrationError {
    /// A human-readable description of the error.
    pub fn message(&self) -> (r: &'static str)
        ensures
            r@ == match self {
                RegistrationError::ClientNotFound => "No such client found"@,
                RegistrationError::VehicleNotFound => "No such vehicle found"@,
                RegistrationError::UnknownNodeType => "Node type unrecognized"@,
                RegistrationError::MalformedSecret => "Registration failed: malformed secret"@,
                RegistrationError::MismatchedHash => "Registration failed: mismatching hash"@,
            },
    {
        match self {
            RegistrationError::ClientNotFound => "No such client found",
            RegistrationError::VehicleNotFound => "No such vehicle found",
            RegistrationError::UnknownNodeType => "Node type unrecognized",
            RegistrationError::MalformedSecret => "Registration failed: malformed secret",
            RegistrationError::MismatchedHash => "Registration failed: mismatching hash",
        }
    }
}

/// The gateway's answer to a claim.
#[derive(Clone)]
pub struct RegistrationResponse {
    pub status: String,
    pub msg: String,
}

/// The text whose digest authenticates a claim: the id, the timestamp in
/// decimal, then the secret.
pub open spec fn claim_text_of(id: Seq<char>, timestamp: nat, secret: Seq<char>) -> Seq<char> {
    id + decimal(timestamp) + secret
}

/// The hash a claim must carry: base64 of the hex SHA-256 digest of the claim
/// text, where the secret bytes are read as (lossy) UTF-8.
pub open spec fn registration_hash(id: Seq<char>, timestamp: nat, secret: Seq<u8>) -> Seq<char> {
    base64_of_text(sha256_hex(claim_text_of(id, timestamp, utf8_lossy(secret))))
}

/// The secret registered for `id` under `role`, if any.
pub open spec fn secret_for(
    role: NodeType,
    id: Seq<char>,
    clients: Map<Seq<char>, Seq<char>>,
    vehicles: Map<Seq<char>, Seq<char>>,
) -> Option<Seq<char>> {
    match role {
        NodeType::Client => if clients.contains_key(id) { Some(clients[id]) } else { None },
        NodeType::Vehicle => if vehicles.contains_key(id) { Some(vehicles[id]) } else { None },
        NodeType::Unsorted => None,
    }
}

/// The verdict on a claim once the expected hash is known (or the secret was
/// found malformed).
pub open spec fn judge_hash(
    role: NodeType,
    expected: Option<Seq<char>>,
    presented: Seq<char>,
) -> Result<NodeType, RegistrationError> {
    match expected {
        None => Err(RegistrationError::MalformedSecret),
        Some(h) => if h == presented { Ok(role) } else { Err(RegistrationError::MismatchedHash) },
    }
}

/// The verdict on a claim `(id, timestamp, hash, role)` against the secrets of
/// an identity store.
pub open spec fn verdict(
    id: Seq<char>,
    timestamp: nat,
    hash: Seq<char>,
    role: NodeType,
    clients: Map<Seq<char>, Seq<char>>,
    vehicles: Map<Seq<char>, Seq<char>>,
) -> Result<NodeType, RegistrationError> {
    match role {
        NodeType::Unsorted => Err(RegistrationError::UnknownNodeType),
        _ => match secret_for(role, id, clients, vehicles) {
            None => if role is Client {
                Err(RegistrationError::ClientNotFound)
            } else {
                Err(RegistrationError::VehicleNotFound)
            },
            Some(secret) => judge_hash(
                role,
                match base64_decoded(secret) {
                    Some(b) => Some(registration_hash(id, timestamp, b)),
                    None => None,
                },
                hash,
            ),
        },
    }
}

/// The text whose digest authenticates a claim.
pub fn claim_text(id: &str, timestamp: u128, secret: &str) -> (r: String)
    ensures
        r@ == claim_text_of(id@, timestamp as nat, secret@),
{
    let mut out = String::from_str(id);
    push_decimal(&mut out, timestamp);
    out.append(secret);
    out
}

/// Computes the hash a claim by `id` at `timestamp` must carry, from the
/// base64 secret `key`. Fails exactly when `key` is not valid base64.
pub fn generate_registration_hash(id: &str, timestamp: u128, key: &str) -> (r: Result<
    String,
    base64::DecodeError,
>)
    ensures
        r is Ok <==> base64_decoded(key@) is Some,
        r is Ok ==> r->Ok_0@ == registration_hash(id@, timestamp as nat, base64_decoded(key@)->0),
{
    match base64_decode(key) {
        Ok(secret) => {
            let text = claim_text(id, timestamp, &from_utf8_lossy(secret.as_slice()));
            let digest = sha256_digest(text);
            Ok(base64_encode_text(digest.as_str()))
        },
        Err(e) => Err(e),
    }
}

impl RegistrationRequest {
    /// The claim a peer sends to register as `id` under `node_type` at
    /// `timestamp`, signed with its base64 secret `key`. Fails exactly when
    /// `key` is not valid base64.
    pub fn signed(id: String, timestamp: u128, key: &str, node_type: NodeType) -> (r: Result<
        RegistrationRequest,
        base64::DecodeError,
    >)
        ensures
            r is Ok <==> base64_decoded(key@) is Some,
            r is Ok ==> {
                &&& r->Ok_0.id@ == id@
                &&& r->Ok_0.timestamp == timestamp
                &&& r->Ok_0.node_type == node_type
                &&& r->Ok_0.hash@ == registration_hash(id@, timestamp as nat, base64_decoded(key@)->0)
            },
    {
        match generate_registration_hash(id.as_str(), timestamp, key) {
            Ok(hash) => Ok(RegistrationRequest { id, timestamp, hash, node_type }),
            Err(e) => Err(e),
        }
    }

    /// Decides the claim once the expected hash has been computed: a failed
    /// computation means a malformed secret, and otherwise the claim stands
    /// exactly when the presented hash equals the expected one.
    pub fn judge(&self, expected: Result<String, base64::DecodeError>) -> (r: Result<
        NodeType,
        RegistrationError,
    >)
        ensures
            r == judge_hash(
                self.node_type,
                match expected {
                    Ok(h) => Some(h@),
                    Err(_) => None,
                },
                self.hash@,
            ),
    {
        match expected {
            Ok(h) => if h == self.hash {
                Ok(self.node_type)
            } else {
                Err(RegistrationError::MismatchedHash)
            },
            Err(_) => Err(RegistrationError::MalformedSecret),
        }
    }

    /// Checks the claim against the secrets of `cache_db`: the claimed role
    /// when the hash is the one computed from the secret registered for the
    /// id under that role, and otherwise the reason for rejection.
    pub fn verify_hash<DB: NaiveDb>(&self, cache_db: &DB) -> (r: Result<NodeType, RegistrationError>)
        ensures
            r == verdict(
                self.id@,
                self.timestamp as nat,
                self.hash@,
                self.node_type,
                cache_db.client_secrets(),
                cache_db.vehicle_secrets(),
            ),
    {
        let secret_key = match self.node_type {
            NodeType::Client => match cache_db.get_client(self.id.as_str()) {
                Some(client) => client.secret_key.as_str(),
                None => return Err(RegistrationError::ClientNotFound),
            },
            NodeType::Vehicle => match cache_db.get_vehicle(self.id.as_str()) {
                Some(vehicle) => vehicle.secret_key.as_str(),
                None => return Err(RegistrationError::VehicleNotFound),
            },
            NodeType::Unsorted => return Err(RegistrationError::UnknownNodeType),
        };
        let generated = generate_registration_hash(self.id.as_str(), self.timestamp, secret_key);
        self.judge(generated)
    }
}

/// A claim whose hash is computed from the secret registered for its id and
/// role is accepted under that role, and any other hash is rejected as a
/// mismatch.
pub proof fn law_verify_accepts_exactly_the_right_hash<DB: NaiveDb>(
    db: &DB,
    id: Seq<char>,
    timestamp: nat,
    role: NodeType,
    presented: Seq<char>,
)
    requires
        role.is_role(),
        secret_for(role, id, db.client_secrets(), db.vehicle_secrets()) is Some,
        base64_decoded(secret_for(role, id, db.client_secrets(), db.vehicle_secrets())->0) is Some,
    ensures
        ({
            let secret = secret_for(role, id, db.client_secrets(), db.vehicle_secrets())->0;
            let expected = registration_hash(id, timestamp, base64_decoded(secret)->0);
            &&& verdict(id, timestamp, expected, role, db.client_secrets(), db.vehicle_secrets())
                == Ok::<NodeType, RegistrationError>(role)
            &&& presented != expected ==> verdict(
                id,
                timestamp,
                presented,
                role,
                db.client_secrets(),
                db.vehicle_secrets(),
            ) == Err::<NodeType, RegistrationError>(RegistrationError::MismatchedHash)
        }),
{
}

/// A claim for an id that the store does not hold under the claimed role is
/// rejected as not found, whatever its hash.
pub proof fn law_verify_rejects_unknown_id<DB: NaiveDb>(
    db: &DB,
    id: Seq<char>,
    timestamp: nat,
    role: NodeType,
    presented: Seq<char>,
)
    requires
        role.is_role(),
        secret_for(role, id, db.client_secrets(), db.vehicle_secrets()) is None,
    ensures
        verdict(id, timestamp, presented, role, db.client_secrets(), db.vehicle_secrets()) == if role
            is Client {
            Err::<NodeType, RegistrationError>(RegistrationError::ClientNotFound)
        } else {
            Err::<NodeType, RegistrationError>(RegistrationError::VehicleNotFound)
        },
{
}

/// A claim signed with the secret that the store holds for its id and role
/// is accepted under that role.
pub proof fn law_signed_claim_verifies<DB: NaiveDb>(
    db: &DB,
    req: RegistrationRequest,
    key: Seq<char>,
)
    requires
        req.node_type.is_role(),
        secret_for(req.node_type, req.id@, db.client_secrets(), db.vehicle_secrets()) == Some(key),
        base64_decoded(key) is Some,
        req.hash@ == registration_hash(req.id@, req.timestamp as nat, base64_decoded(key)->0),
    ensures
        verdict(
            req.id@,
            req.timestamp as nat,
            req.hash@,
            req.node_type,
            db.client_secrets(),
            db.vehicle_secrets(),
        ) == Ok::<NodeType, RegistrationError>(req.node_type),
{
    law_verify_accepts_exactly_the_right_hash(db, req.id@, req.timestamp as nat, req.node_type, req.hash@);
}

} // verus!
