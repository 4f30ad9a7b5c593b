//! AI summaries: validation of the model endpoint, and the decisions around
//! generating a report.
pub mod client;
pub mod report;
