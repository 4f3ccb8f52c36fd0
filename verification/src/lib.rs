//! Core logic of a dog-walking booking service: identifier and timestamp
//! normalization, the booking cancellation state machine, and the
//! active-bookings query that composes bookings with owners and their dogs.

pub mod errors;
pub mod instant;
pub mod models;
pub mod oid;
pub mod services;
