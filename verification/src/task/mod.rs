pub mod executor;
pub mod telemetry;
