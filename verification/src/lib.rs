//! Verified core of the Robrix web-view proof of concept.
pub mod browser;
pub mod download;
pub mod file_server;
pub mod http_range;
pub mod navigator;
pub mod overlay;
pub mod pages;
pub mod signals;
pub mod text;
