pub mod manager;
pub mod metrics;
pub mod store;
pub mod validation;
