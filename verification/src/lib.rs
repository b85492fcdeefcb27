//! Verified core of nvmman: registry consolidation, version ordering,
//! screen layout hit testing and the interactive state machine.

pub mod cli;
pub mod layout;
pub mod machine;
pub mod manager;
pub mod model;
pub mod registry;
pub mod scan;
pub mod screens;
pub mod sorting;
pub mod tasks;
pub mod text;
pub mod ui;
pub mod version;
