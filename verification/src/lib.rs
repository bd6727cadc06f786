//! A lock-free audio metering core: a bridge between a hard-real-time audio
//! callback domain and an ordinary control domain, plus two loudness
//! estimators fed from that bridge.

pub mod bridge;
pub mod meters;
pub mod shared;

pub use bridge::Control;
pub use bridge::JackHandler;
pub use meters::SamplePeakMeter;
pub use meters::VUMeter;
pub use shared::JackInterface;
pub use shared::SharedBridgeState;
pub mod probe;
