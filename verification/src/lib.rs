//! Control-plane core of a desktop proxy manager: profile bookkeeping,
//! configuration activation, sidecar lifecycle supervision, and the
//! preference and system-proxy state that must stay consistent with it.

pub mod activation;
pub mod doc;
pub mod error;
pub mod profiles;
pub mod sidecar;
pub mod singleton;
pub mod verge;
