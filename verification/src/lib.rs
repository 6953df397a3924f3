//! The decision core of an operator that provisions Kubernetes `Secret`
//! resources from items of a Bitwarden or Vaultwarden vault.
//!
//! Everything that talks to the outside (the Kubernetes API, the shell, the
//! file system) is driven by small state machines: the library says which
//! request to perform next, the caller performs it and hands the reply back.

pub mod bw;
pub mod clock;
pub mod conversion;
pub mod crd;
pub mod encoding;
pub mod error;
pub mod json;
pub mod owner;
pub mod reconcile;
pub mod search;
pub mod secrets;
pub mod settings;
pub mod status;
pub mod text;
pub mod text_map;
