//! What holds of the library as a whole, stated apart from the functions that it holds of.
pub mod charts;
pub mod command;
pub mod editor;
pub mod engine;
pub mod reporting;
pub mod state;
pub mod text;
