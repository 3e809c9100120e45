use vstd::prelude::*;

verus! {

/// The role a peer claims. `Unsorted` is the marker for a connection whose
/// classification failed; it is never a valid claim.
#[derive(Copy, Clone, Debug, PartialEq, Eq, Structural)]
pub enum NodeType {
    Unsorted,
    Client,
    Vehicle,
}

impl NodeType {
    /// A role under which a peer may be registered.
    pub open spec fn is_role(self) -> bool {
        self is Client || self is Vehicle
    }
}

/// A control peer known to the identity store, with its base64 secret.
#[derive(Clone, Debug)]
pub struct Client {
    pub id: String,
    pub secret_key: String,
}

/// An actuator peer known to the identity store, with its base64 secret.
#[derive(Clone, Debug)]
pub struct Vehicle {
    pub id: String,
    pub secret_key: String,
}

} // verus!
