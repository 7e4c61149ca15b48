//! The dashboard: what requests ask for, and which runs are going on.

pub mod pages;
pub mod requests;
pub mod runners;
pub mod web_laws;
