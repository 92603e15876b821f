pub mod agents;
pub mod json;
pub mod laws;
pub mod metrics;
pub mod output;
pub mod parse;
pub mod ranking;
pub mod report;
pub mod session;
pub mod text;
