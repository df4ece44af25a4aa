pub mod dynamic;
pub mod general;

pub use dynamic::{DynamicSatisfability, Requirement};
pub use general::{Expectative, GeneralSatisfability};
