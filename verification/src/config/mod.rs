//! The settings of the whole program: what the configuration file and the
//! command line say, and what follows from both.
pub mod defaults;
pub mod loader;
pub mod paths;
pub mod runtime;
pub mod settings;
