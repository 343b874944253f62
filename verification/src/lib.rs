//! Recognition and selection of CMSIS-DAP debug probes among USB devices.
pub mod text;
pub mod model;
pub mod recognition;
pub mod discovery;
pub mod descriptors;
pub mod opening;
pub mod selection;
pub mod laws;
