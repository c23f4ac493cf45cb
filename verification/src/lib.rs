//! State, ordering and text logic of a terminal monitor for batch jobs of an
//! HTTP batch API, with the contracts that Verus proves of them.

pub mod api;
pub mod app;
pub mod batch;
pub mod clock;
pub mod config;
pub mod screen;
pub mod sort;
pub mod text;
