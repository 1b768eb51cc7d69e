//! What can go wrong while the daemon starts.

use vstd::prelude::*;

verus! {

/// `std::io::Error`, carried through as the cause of a failure and never
/// inspected.
#[verifier::external_type_specification]
#[verifier::external_body]
pub struct ExIoError(std::io::Error);

/// A failure that keeps the daemon from starting.
#[derive(Debug)]
pub enum Error {
    /// The keyboard device at `path` could not be opened.
    OpenDeviceHandle { io: std::io::Error, path: String },
    /// No input device looks like a keyboard.
    NoKeyboardDevice,
    /// The configuration names a modifier that is not known.
    InvalidModifier(String),
    /// A timeout in the configuration is not an unsigned number.
    InvalidTimeout(String),
    /// The touchpad's fuzz in the configuration is not an unsigned number.
    InvalidFuzz(String),
    /// A line of the configuration is not understood.
    InvalidConfig(String),
    /// The configuration file at `path` could not be read.
    FailedReadingConfig { io: std::io::Error, path: String },
}

/// An [`Error`] as contracts see it: the variant and the text it carries.
pub enum ErrorView {
    OpenDeviceHandle { path: Seq<char> },
    NoKeyboardDevice,
    InvalidModifier(Seq<char>),
    InvalidTimeout(Seq<char>),
    InvalidFuzz(Seq<char>),
    InvalidConfig(Seq<char>),
    FailedReadingConfig { path: Seq<char> },
}

impl View for Error {
    type V = ErrorView;

    open spec fn view(&self) -> ErrorView {
        match self {
            Error::OpenDeviceHandle { io, path } => ErrorView::OpenDeviceHandle { path: path@ },
            Error::NoKeyboardDevice => ErrorView::NoKeyboardDevice,
            Error::InvalidModifier(name) => ErrorView::InvalidModifier(name@),
            Error::InvalidTimeout(text) => ErrorView::InvalidTimeout(text@),
            Error::InvalidFuzz(text) => ErrorView::InvalidFuzz(text@),
            Error::InvalidConfig(line) => ErrorView::InvalidConfig(line@),
            Error::FailedReadingConfig { io, path } => ErrorView::FailedReadingConfig {
                path: path@,
            },
        }
    }
}

} // verus!
