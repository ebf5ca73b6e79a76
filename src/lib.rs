//! Core logic of a small HTTP load balancer: the backend registry and its
//! health updates, the admission counter, backend selection and the
//! per-request decision.

pub mod admission;
pub mod probe;
pub mod registry;
pub mod router;
pub mod dispatch;
