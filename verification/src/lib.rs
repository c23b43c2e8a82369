//! Allio: the state and decision logic of a terminal dashboard that lists
//! project modules by category and drives the wallwatch theming tool.

pub mod input;
pub mod layout;
pub mod text;
pub mod color;
pub mod json;
pub mod theme;
pub mod config;
pub mod icons;
pub mod modules;
pub mod traits;
pub mod app;
pub mod allio;
