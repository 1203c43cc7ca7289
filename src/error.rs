use vstd::prelude::*;

verus! {

/// Error kinds of the fusion core.
#[derive(Debug, Clone, Copy, PartialEq, Eq, Structural)]
pub enum GError {
    /// An internal queue was torn down: the worker is unavailable.
    CommError,
    /// Framing or payload failure while talking to a worker process.
    IpcError,
    /// Degenerate geometry, such as parallel rays.
    MathError,
    /// The configuration could not be loaded or names something unknown.
    ConfigError,
    /// A role was used before its worker finished the handshake.
    ModelUninit,
    /// The camera source failed.
    CameraError,
    /// Two detector result lists that must correspond differ in length.
    CountMismatch,
}

impl GError {
    /// Human-readable description of the error.
    pub fn message(&self) -> (r: &'static str)
        ensures
            *self == GError::CommError ==> r@ == "Error in channel"@,
            *self == GError::IpcError ==> r@ == "Error while communicating with process"@,
            *self == GError::MathError ==> r@ == "Error in math operation"@,
            *self == GError::ConfigError ==> r@ == "Error in loading config"@,
            *self == GError::ModelUninit ==> r@ == "Model used before initializing"@,
            *self == GError::CameraError ==> r@ == "Camera Error"@,
            *self == GError::CountMismatch ==> r@ == "Detection counts differ between cameras"@,
    {
        match self {
            GError::CommError => "Error in channel",
            GError::IpcError => "Error while communicating with process",
            GError::MathError => "Error in math operation",
            GError::ConfigError => "Error in loading config",
            GError::ModelUninit => "Model used before initializing",
            GError::CameraError => "Camera Error",
            GError::CountMismatch => "Detection counts differ between cameras",
        }
    }
}

} // verus!
