use vstd::prelude::*;

pub mod text;
pub mod order;
pub mod model;
pub mod listing;
pub mod clock;
pub mod errors;
pub mod registry;
pub mod paths;
pub mod python;
pub mod cli;
pub mod output;
pub mod ops;
pub mod laws;
