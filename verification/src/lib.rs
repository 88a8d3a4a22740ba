pub mod arg;
pub mod args;
pub mod errors;
pub mod laws;
pub mod model;
pub mod level;
pub mod strutil;
