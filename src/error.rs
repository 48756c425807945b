//! Error type of the library.

use vstd::prelude::*;

verus! {

/// What can go wrong talking to a display.
#[derive(Debug, Clone)]
pub enum AppError {
    /// A display could not be initialised.
    DisplayInit { id: String, reason: String },
    /// DDC/CI communication failed.
    DdcCi { id: String, reason: String },
    /// Apple HID communication failed.
    AppleHid { id: String, reason: String },
    /// Configuration could not be used.
    Config(String),
    /// No display with this identity is registered.
    DisplayNotFound(String),
    /// An I/O operation failed.
    Io(String),
    /// A background task could not be joined.
    TaskJoin(String),
}

impl AppError {
    /// The error's text: the reason, message or identity it carries.
    pub fn message(&self) -> (r: String)
        ensures
            r@ == match self {
                AppError::DisplayInit { reason, .. } => reason@,
                AppError::DdcCi { reason, .. } => reason@,
                AppError::AppleHid { reason, .. } => reason@,
                AppError::Config(m) => m@,
                AppError::DisplayNotFound(id) => id@,
                AppError::Io(m) => m@,
                AppError::TaskJoin(m) => m@,
            },
    {
        match self {
            AppError::DisplayInit { reason, .. } => reason.clone(),
            AppError::DdcCi { reason, .. } => reason.clone(),
            AppError::AppleHid { reason, .. } => reason.clone(),
            AppError::Config(m) => m.clone(),
            AppError::DisplayNotFound(id) => id.clone(),
            AppError::Io(m) => m.clone(),
            AppError::TaskJoin(m) => m.clone(),
        }
    }
}

} // verus!
