//! Fusion of per-camera detections into device intents, with the framed
//! wire protocol and worker bookkeeping that feed it.

mod error;
pub mod frame;
pub mod fusion;
pub mod order;
pub mod process;
pub mod proxy;
pub mod registry;
pub mod wire;

pub use error::GError;
pub use frame::{Frames, ImageFrame};
pub use process::Process;
