pub mod config;
pub mod driver;
pub mod frames;
pub mod util;
