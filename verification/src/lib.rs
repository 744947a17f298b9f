//! The verified core of the AgentInc Mac app.
pub mod text;
pub mod commands;
pub mod model;
pub mod dates;
pub mod calendar;
pub mod markdown;
pub mod home;
pub mod dashboard;
pub mod evee;
pub mod input;
pub mod native_update;
pub mod overlay;
pub mod assistant;
pub mod calendar_store;
pub mod calendar_page;
pub mod shell;
pub mod automations;
pub mod calendar_model;
pub mod model_menu;
pub mod providers;
pub mod profile;
