//! The terminal side of the dashboard: live state, view models and control.

pub mod aggregator;
pub mod app;
pub mod listing;
pub mod model;
pub mod order;
pub mod subject_details;
pub mod subject_overview;
pub mod text;
pub mod tui;
