pub mod config;
pub mod dashboard;
pub mod daemon;
pub mod date;
pub mod db;
pub mod errors;
pub mod focus;
pub mod hyprland;
pub mod idle;
pub mod laws;
pub mod model;
pub mod rank;
pub mod text;
pub mod totals;
pub mod x11;
pub mod report;
