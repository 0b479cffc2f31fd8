//! Lifecycle of an encrypted storage vault: the naming convention that ties a
//! mountpoint to its mapped device, and the ordered operations of the create,
//! mount and umount transitions with first-failure propagation.
pub mod host;
pub mod invocation;
pub mod laws;
pub mod lifecycle;
pub mod naming;
pub mod session;
