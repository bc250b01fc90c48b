//! A file-access gateway: three filesystem operations (create a directory
//! tree, read a file to text, write text to a file) with input validation
//! and a typed error taxonomy.
//!
//! The gateway's behaviour is specified and verified against an explicit
//! model of the filesystem: a finite map from paths to nodes (directories
//! or text files). The in-memory [`gateway::FileSystem`] implements the
//! three operations against that model; a host binary binds the same
//! decisions to the real operating-system filesystem.

pub mod errors;
pub mod model;
pub mod gateway;
pub mod laws;
