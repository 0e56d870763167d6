pub mod cache;
pub mod pane;
pub mod pane_laws;
pub mod text;
pub mod types;
pub mod markdown;
pub mod parser;
pub mod parser_laws;
pub mod mode;
pub mod config;
pub mod discord_properties;
pub mod anti_detection;
pub mod json;
pub mod event;
pub mod handler;
pub mod app;
pub mod records;
pub mod event_handler;
pub mod gateway;
pub mod keyring;
pub mod science;
pub mod auth;
pub mod renderer;
pub mod input_box;
pub mod http;
pub mod db;
pub mod logging;
