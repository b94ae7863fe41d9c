//! Error kinds shared by all effect operations.

use vstd::prelude::*;
use vstd::string::StringExecFns;

verus! {

/// Everything that an effect operation can fail with.
///
/// Invalid tint strings are deliberately not an error: an unparseable color
/// is treated as "no color" and clears the tint, so `InvalidColorFormat` is
/// declared for completeness of the command surface only.
#[derive(Debug, Clone)]
pub enum Error {
    /// The operation is not supported on this platform.
    UnsupportedPlatform,
    /// The running OS version does not support the advanced effect view.
    UnsupportedOSVersion,
    /// The addressed window was not found (carries the window key).
    WindowNotFound(String),
    /// No effect view exists under the given generated id.
    ViewNotFound(i32),
    /// The native effect view could not be created.
    ViewCreationFailed,
    /// A color string was not in a recognised hex format.
    InvalidColorFormat(String),
    /// The registry's lock was poisoned by a holder that died.
    RegistryLockFailed,
    /// An error of the host application framework, passed through as text.
    Host(String),
}

impl Error {
    /// A plain-text message, suitable for handing to a scripting layer.
    pub fn message(&self) -> (m: String)
        ensures
            m@.len() > 0,
    {
        match self {
            Error::UnsupportedPlatform => {
                let m = String::from_str("Not supported on this platform");
                proof { reveal_strlit("Not supported on this platform"); }
                m
            },
            Error::UnsupportedOSVersion => {
                let m = String::from_str("OS version is not supported");
                proof { reveal_strlit("OS version is not supported"); }
                m
            },
            Error::WindowNotFound(label) => {
                let mut m = String::from_str("Window not found: ");
                proof { reveal_strlit("Window not found: "); }
                m.append(label.as_str());
                m
            },
            Error::ViewNotFound(_) => {
                let m = String::from_str("View not found");
                proof { reveal_strlit("View not found"); }
                m
            },
            Error::ViewCreationFailed => {
                let m = String::from_str("Failed to create glass effect view");
                proof { reveal_strlit("Failed to create glass effect view"); }
                m
            },
            Error::InvalidColorFormat(text) => {
                let mut m = String::from_str("Invalid color format: ");
                proof { reveal_strlit("Invalid color format: "); }
                m.append(text.as_str());
                m
            },
            Error::RegistryLockFailed => {
                let m = String::from_str("Registry lock failed");
                proof { reveal_strlit("Registry lock failed"); }
                m
            },
            Error::Host(text) => {
                let mut m = String::from_str("Host error: ");
                proof { reveal_strlit("Host error: "); }
                m.append(text.as_str());
                m
            },
        }
    }
}

/// Result type shared by the effect operations.
pub type Result<T> = core::result::Result<T, Error>;

} // verus!
