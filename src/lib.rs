//! Renders a counter's metadata and samples in the Prometheus text exposition format.
pub mod render_to_prometheus;
