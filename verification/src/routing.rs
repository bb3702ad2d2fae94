//! Declaring topology against an abstract broker backend.

pub mod configurator;
pub mod operator;
