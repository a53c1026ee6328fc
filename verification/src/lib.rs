//! A pull-based meeting-room metrics exporter core.
//!
//! On each scrape the caller fetches the current state of a set of meeting
//! rooms from an upstream booking service, and this library projects that
//! snapshot onto a metric registry (per-room occupancy gauges and
//! per-appointment detail gauges) and renders the registry in the Prometheus
//! text exposition format. The registry always reflects the latest snapshot
//! only: every successful scrape clears and repopulates both gauge families,
//! so stale label combinations never accumulate.

pub mod domain;
pub mod laws;
pub mod project;
pub mod registry;
pub mod render;
pub mod scrape;
pub mod text;
