//! Day-ahead electricity price ingestion: normalizes a provider's
//! resolution-tagged price series into priced intervals and decides, against
//! a checkpoint, which intervals an export run writes.
pub mod entsoe_client;
pub mod exporter_service;
pub mod interval;
pub mod retry;
pub mod rfc3339_without_seconds;
pub mod types;
