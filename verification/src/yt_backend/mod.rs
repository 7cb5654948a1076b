//! YouTube backend: extraction of YouTube responses, URL sanitizing and
//! the descriptions of the clients that talk to YouTube's internal API.

pub mod extractors;
pub mod url_sanitizer;
pub mod youtube_api;
