//! Metrics of the ORMP indexer: what is recorded while it runs, and how operators see it.
pub mod decimal;
pub mod exposition;
pub mod families;
pub mod format_laws;
pub mod labels;
pub mod metrics;
pub mod ops;
pub mod record_laws;
pub mod report_laws;
pub mod request_laws;
pub mod runtime_report;
pub mod scope;
pub mod series_laws;
pub mod snapshot_laws;
pub mod text;
pub mod value_laws;
