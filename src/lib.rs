pub mod address;
pub mod error;
pub mod table;
pub mod registry;
pub mod auth;
pub mod io;
