//! Cart-line price transformer: lines that carry a wholesale price signal get
//! an update that fixes their unit price and marks their title.

pub mod cart;
pub mod config;
pub mod number;
pub mod output;
pub mod transform;
pub mod laws;
