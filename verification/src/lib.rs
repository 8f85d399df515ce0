//! Project configuration for a mod build: the values a project declares,
//! the rules a loaded configuration must satisfy, and the list of files
//! that are bundled beside the built archives.

pub mod bundle;
pub mod error;
pub mod hemtt;
pub mod laws;
pub mod order;
pub mod project;
pub mod signing;
pub mod version;
