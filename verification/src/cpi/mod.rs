//! The commands of the provisioning interfaces.

pub mod container;
pub mod vm;
