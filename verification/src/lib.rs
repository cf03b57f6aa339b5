pub mod commands;
pub mod git;
pub mod hub_api;
pub mod paths;
pub mod selection;
pub mod spin;
pub mod text;
