//! Quota-usage monitor: configuration, quota models, the refresh state
//! machine, response handling and the text shown to the user.

pub mod text;
pub mod format;
pub mod clock;
pub mod models;
pub mod config;
pub mod api;
pub mod app;
pub mod view;
pub mod summary;
