pub mod engine;
pub mod filter;
pub mod probe;

pub use engine::VideoScanEngine;
pub use filter::ScanFilter;
pub use probe::LightProbeEngine;
