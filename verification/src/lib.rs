//! Routes a URL to a browser and, where the browser has profiles, to one of
//! its profiles, following an ordered list of pattern rules.

pub mod bichrome_config;
pub mod chrome_local_state;
pub mod config;
pub mod launch;
pub mod loading;
pub mod ordered_map;
pub mod resolution;
pub mod search;
pub mod text;
pub mod url_pattern;
