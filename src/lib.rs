//! Node agent core: the kernel-parameter backup/override state machine,
//! the decisions of the dump-harvesting pass, and the agent's configuration.
pub mod config;
pub mod harvest;
pub mod params;
pub mod text;
