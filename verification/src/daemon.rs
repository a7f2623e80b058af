//! The daemon: what it knows of the devices, what it does when they change, and how it answers
//! requests.
pub mod changes;
pub mod identity;
pub mod identity_laws;
pub mod journal;
pub mod laws;
pub mod number_laws;
pub mod outcome_laws;
pub mod override_laws;
pub mod overrides;
pub mod report_laws;
pub mod requests;
pub mod reversal;
pub mod service;
pub mod service_laws;
pub mod socket;
pub mod state;
pub mod steps;
pub mod work_laws;
