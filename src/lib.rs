//! Resource accounting for cluster workloads: quantity normalisation,
//! ownership attribution, usage merging, anomaly filtering and aggregation.
pub mod aggregate;
pub mod audits;
pub mod filter;
pub mod owner;
pub mod quantity;
pub mod record;
pub mod report;
pub mod resources;
pub mod units;
