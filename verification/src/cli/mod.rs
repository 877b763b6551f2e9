//! Command-line presentation: typed errors and the XML lines the CLI prints.
pub mod args;
pub mod capture_flow;
pub mod decide;
pub mod error;
pub mod output;
pub mod paths;
pub mod render;
