//! What the operations promise, stated on what goes into them and what comes out.
pub mod containment;
pub mod detection;
pub mod engine;
pub mod firewall;
pub mod journal;
pub mod limits;
pub mod manifests;
pub mod sandbox;
pub mod sources;
pub mod texts;
