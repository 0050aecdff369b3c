//! Verified core of the `colmsg` command-line client: option handling for the
//! message download configuration, and the decisions of the web-client login
//! that captures an access token from Chrome DevTools events.

pub mod app;
pub mod args;
pub mod config_file;
pub mod json;
pub mod text;
pub mod web_login;
