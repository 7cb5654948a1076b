//! Invidious is an alternative front-end to YouTube.
//!
//! This crate holds the verified core of the project: parsing of YouTube
//! responses, URL sanitizing, client descriptions, configuration defaults,
//! authentication helpers and job descriptions.

pub mod proxy;
pub mod templates;
pub mod text;
pub mod api;
pub mod auth;
pub mod config;
pub mod db;
pub mod jobs;
pub mod json;
pub mod yt_backend;
