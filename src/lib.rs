//! Identity registry, password credentials, birthday profiles and a per-identity
//! post ledger, kept consistent across every state transition.
//!
//! All state lives in [`Pallet`]. Each operation either commits all of its writes
//! or returns an [`Error`] and leaves the store exactly as it was.

mod bytes;
pub mod digest;
pub mod laws;
pub mod model;
pub mod pallet;
pub mod types;

pub use pallet::Pallet;
pub use types::{Birthday, Error, Event, Tweet};
