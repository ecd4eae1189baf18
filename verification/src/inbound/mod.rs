pub mod business;
pub mod model;
