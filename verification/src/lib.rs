pub mod auth;
pub mod db;
pub mod ids;
pub mod models;
pub mod registry;
pub mod route;
