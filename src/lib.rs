//! A URL shortener: random short identifiers, a store that maps them to
//! canonical long URLs and counts visits, and the shorten and redirect
//! workflows that keep the two in step.

pub mod ident;
pub mod canonical;
pub mod model;
pub mod store;
pub mod workflow;
pub mod laws;
