//! The library's error value: a human-readable message.
use vstd::prelude::*;

verus! {

/// An application error carrying a human-readable message.
#[derive(Debug)]
pub struct AppError {
    pub message: String,
}

/// Result type used throughout the library.
pub type AppResult<T> = Result<T, AppError>;

/// Build an error from a message.
pub fn app_error(message: String) -> (e: AppError)
    ensures
        e.message@ == message@,
{
    AppError { message }
}

/// Build an error from a string slice.
pub fn app_error_str(message: &str) -> (e: AppError)
    ensures
        e.message@ == message@,
{
    AppError { message: message.to_string() }
}

/// Errors of the CamillaDSP control layer.
#[derive(Debug, Clone, PartialEq)]
pub enum PicorecdspError {
    /// CamillaDSP answered with something the protocol does not allow.
    ProtocolError(String),
    /// A config could not be read.
    ConfigRead(String),
    /// The WebSocket could not be reached.
    WebSocketOffline(String),
}

impl AppError {
    /// The error message, as `Display` would render it.
    pub fn to_string(&self) -> (s: String)
        ensures
            s@ == self.message@,
    {
        self.message.clone()
    }
}

} // verus!
