//! A gateway core that authenticates control and actuator peers with a
//! shared-secret claim, keeps the authenticated connections in a registry
//! partitioned by role, and decides how frames are relayed between paired peers.

pub mod codec;
pub mod gateway;
pub mod identity;
pub mod keyed;
pub mod node;
pub mod registration;
pub mod relay;
pub mod registry;
