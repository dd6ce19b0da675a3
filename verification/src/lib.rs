pub mod accountant;
pub mod aggregate;
pub mod listing;
pub mod metrics;
pub mod devices;
pub mod lines;
pub mod stats;
