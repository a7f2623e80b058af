pub mod cli;
pub mod cli_laws;
pub mod config;
pub mod control;
pub mod control_laws;
pub mod daemon;
pub mod device;
pub mod error;
pub mod order;
pub mod path;
pub mod path_laws;
pub mod policy;
pub mod report;
pub mod sequence;
pub mod signal;
pub mod sysfs;
pub mod table;
pub mod text;
pub mod text_laws;
pub mod uevent;
pub mod uevent_laws;
