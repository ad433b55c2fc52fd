//! Verified core of a load-testing tool for HTTP APIs.
pub mod app;
pub mod curl_parser;
pub mod draft;
pub mod error;
pub mod history;
pub mod i18n;
pub mod laws;
pub mod loadtest;
pub mod outside;
pub mod reading;
pub mod report;
pub mod text;
pub mod trend;
pub mod view;
pub mod worker;
