//! The library's error type.
use vstd::prelude::*;
use crate::utils::text::owned;

verus! {

/// Why a conversion failed.
#[derive(Debug, PartialEq, Eq)]
pub enum CoreRsError {
    UnsupportedFeature(String),
    InvalidMarkdown(String),
    InvalidHwpx(String),
    InvalidOption(String),
    Zip(String),
    Io(String),
}

/// The error kinds, without their payload.
#[derive(Debug, Clone, Copy, PartialEq, Eq)]
pub enum ErrorKind {
    UnsupportedFeature,
    InvalidMarkdown,
    InvalidHwpx,
    InvalidOption,
    Zip,
    Io,
}

/// An error as a kind and its detail text.
pub struct ErrorV {
    pub kind: ErrorKind,
    pub detail: Seq<char>,
}

impl View for CoreRsError {
    type V = ErrorV;

    open spec fn view(&self) -> ErrorV {
        match self {
            CoreRsError::UnsupportedFeature(s) => ErrorV { kind: ErrorKind::UnsupportedFeature, detail: s@ },
            CoreRsError::InvalidMarkdown(s) => ErrorV { kind: ErrorKind::InvalidMarkdown, detail: s@ },
            CoreRsError::InvalidHwpx(s) => ErrorV { kind: ErrorKind::InvalidHwpx, detail: s@ },
            CoreRsError::InvalidOption(s) => ErrorV { kind: ErrorKind::InvalidOption, detail: s@ },
            CoreRsError::Zip(s) => ErrorV { kind: ErrorKind::Zip, detail: s@ },
            CoreRsError::Io(s) => ErrorV { kind: ErrorKind::Io, detail: s@ },
        }
    }
}

pub open spec fn err(kind: ErrorKind, detail: Seq<char>) -> ErrorV {
    ErrorV { kind, detail }
}

/// The prefix that the message of each kind of error starts with.
pub open spec fn kind_prefix(kind: ErrorKind) -> Seq<char> {
    match kind {
        ErrorKind::UnsupportedFeature => "unsupported feature: "@,
        ErrorKind::InvalidMarkdown => "invalid markdown: "@,
        ErrorKind::InvalidHwpx => "invalid HWPX: "@,
        ErrorKind::InvalidOption => "invalid option: "@,
        ErrorKind::Zip => "zip packaging failed: "@,
        ErrorKind::Io => "io failure: "@,
    }
}

/// The human readable message of an error.
pub open spec fn spec_error_message(e: ErrorV) -> Seq<char> {
    kind_prefix(e.kind) + e.detail
}

impl CoreRsError {
    /// Builds an error of the given kind.
    pub fn new(kind: ErrorKind, detail: String) -> (e: CoreRsError)
        ensures
            e@ == err(kind, detail@),
    {
        match kind {
            ErrorKind::UnsupportedFeature => CoreRsError::UnsupportedFeature(detail),
            ErrorKind::InvalidMarkdown => CoreRsError::InvalidMarkdown(detail),
            ErrorKind::InvalidHwpx => CoreRsError::InvalidHwpx(detail),
            ErrorKind::InvalidOption => CoreRsError::InvalidOption(detail),
            ErrorKind::Zip => CoreRsError::Zip(detail),
            ErrorKind::Io => CoreRsError::Io(detail),
        }
    }

    /// Builds an error of the given kind from a string slice.
    pub fn from_str_detail(kind: ErrorKind, detail: &str) -> (e: CoreRsError)
        ensures
            e@ == err(kind, detail@),
    {
        CoreRsError::new(kind, owned(detail))
    }

    /// The kind of this error.
    pub fn kind(&self) -> (k: ErrorKind)
        ensures
            k == self@.kind,
    {
        match self {
            CoreRsError::UnsupportedFeature(_) => ErrorKind::UnsupportedFeature,
            CoreRsError::InvalidMarkdown(_) => ErrorKind::InvalidMarkdown,
            CoreRsError::InvalidHwpx(_) => ErrorKind::InvalidHwpx,
            CoreRsError::InvalidOption(_) => ErrorKind::InvalidOption,
            CoreRsError::Zip(_) => ErrorKind::Zip,
            CoreRsError::Io(_) => ErrorKind::Io,
        }
    }

    /// The detail text of this error.
    pub fn detail(&self) -> (d: &str)
        ensures
            d@ == self@.detail,
    {
        match self {
            CoreRsError::UnsupportedFeature(s) => s.as_str(),
            CoreRsError::InvalidMarkdown(s) => s.as_str(),
            CoreRsError::InvalidHwpx(s) => s.as_str(),
            CoreRsError::InvalidOption(s) => s.as_str(),
            CoreRsError::Zip(s) => s.as_str(),
            CoreRsError::Io(s) => s.as_str(),
        }
    }

    /// The human readable message of this error.
    pub fn message(&self) -> (m: String)
        ensures
            m@ == spec_error_message(self@),
    {
        let mut m = match self.kind() {
            ErrorKind::UnsupportedFeature => owned("unsupported feature: "),
            ErrorKind::InvalidMarkdown => owned("invalid markdown: "),
            ErrorKind::InvalidHwpx => owned("invalid HWPX: "),
            ErrorKind::InvalidOption => owned("invalid option: "),
            ErrorKind::Zip => owned("zip packaging failed: "),
            ErrorKind::Io => owned("io failure: "),
        };
        m.append(self.detail());
        m
    }
}

} // verus!
