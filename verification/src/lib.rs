//! Server-authoritative named values, synchronized to client replicas by
//! incremental JSON patches.
//!
//! A server owns named document values; each mutation is shipped as an update
//! message holding the value's name and a structural patch. The client-side
//! reconciler applies incoming patches to local replicas in arrival order,
//! buffering patches that arrive before their replica is registered and
//! draining the buffer at registration, so that a late replica still sees
//! every patch exactly once and in order.

pub mod codec;
pub mod engine;
pub mod kv;
pub mod patching;
pub mod pending;
pub mod reconciler;
pub mod registry;
pub mod server;

pub use codec::DecodeError;
pub use codec::ServerSignalUpdate;
pub use reconciler::ApplyOutcome;
pub use reconciler::Reconciler;
pub use server::NamedValue;
