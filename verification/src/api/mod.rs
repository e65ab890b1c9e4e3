//! Checks of the description of the service's API: whether it refers to schemas that exist, and
//! whether its examples are understood.

pub mod example_laws;
pub mod examples;
pub mod laws;
pub mod openapi;
pub mod outcome_laws;
pub mod resolve;
