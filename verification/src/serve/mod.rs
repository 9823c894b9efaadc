//! How HTTP connections are served and observed.
pub mod selective;
pub mod server;
pub mod tap;
