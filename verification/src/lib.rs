pub mod client;
pub mod command;
pub mod error;
pub mod filter;
pub mod gaps;
pub mod ids;
pub mod json;
pub mod laws;
pub mod level;
pub mod locks;
pub mod operations;
pub mod protocol;
pub mod report;
pub mod response;
pub mod session;
pub mod startup;
pub mod text;
