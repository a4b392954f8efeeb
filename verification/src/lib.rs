//! Lifecycle management and warm-pool scheduling for microVM sandboxes,
//! together with the function registry that feeds them.
//!
//! The crate decides; it does not wait, boot or send. Each operation takes
//! what happened (a probe's result, an agent's reply, the time) and returns
//! what to do next (a boot plan, a call to send, an instance to terminate),
//! so that the code which talks to the hypervisor and the network only has
//! to carry the decisions out.
//!
//! - [`pool`]: the warm pool, which hands instances out one caller at a
//!   time, quarantines suspect ones and replenishes itself.
//! - [`vm`]: the registry of instances, which never uses an identifier
//!   twice.
//! - [`instance`]: one instance and its lifecycle.
//! - [`proxy`]: what is sent to an instance for one call, and what the
//!   answer means.
//! - [`function`] and [`validate`]: the registry of functions and the rules
//!   of admission.
//! - [`api`]: the shapes and status codes of the service's endpoints.
//! - [`clock`], [`ident`], [`json`], [`text`]: time, identifiers, JSON text
//!   and text primitives, as far as the crate needs them.
//! - [`idqueue`], [`keyed`]: the queue and the keyed sequence on which the
//!   registries and indexes are built.

pub mod api;
pub mod clock;
pub mod function;
pub mod ident;
pub mod idqueue;
pub mod instance;
pub mod json;
pub mod keyed;
pub mod pool;
pub mod proxy;
pub mod text;
pub mod types;
pub mod validate;
pub mod vm;
