//! The errors of the service and the HTTP status each one answers with.

use crate::text::join2;
use vstd::prelude::*;

verus! {

/// What went wrong. Each variant carries its detail as text; for the last two
/// it is the text of the failure that a lower layer reported.
#[derive(Debug)]
pub enum PanelsError {
    /// The identifier names no strip, or the endpoint no series.
    NotFound(String),
    /// The identifier is no calendar date.
    InvalidDate(String),
    /// The identifier is malformed in some other way.
    InvalidParam(String),
    /// The provider could not be read.
    ScrapeFailed(String),
    /// The HTTP layer failed.
    HttpError(String),
    /// Anything else.
    Internal(String),
}

/// The variants of `PanelsError`, without their detail.
#[derive(Clone, Copy, Debug, PartialEq, Eq, Structural)]
pub enum ErrorKind {
    NotFound,
    InvalidDate,
    InvalidParam,
    ScrapeFailed,
    HttpError,
    Internal,
}

/// An error as plain values.
pub struct ErrorView {
    pub kind: ErrorKind,
    pub detail: Seq<char>,
}

/// The HTTP status that answers an error of kind `kind`.
pub open spec fn status_of(kind: ErrorKind) -> u16 {
    match kind {
        ErrorKind::NotFound => 404,
        ErrorKind::InvalidDate => 400,
        ErrorKind::InvalidParam => 400,
        ErrorKind::ScrapeFailed => 502,
        ErrorKind::HttpError => 502,
        ErrorKind::Internal => 500,
    }
}

/// The words that introduce an error of kind `kind`.
pub open spec fn label_of(kind: ErrorKind) -> Seq<char> {
    match kind {
        ErrorKind::NotFound => "not found: "@,
        ErrorKind::InvalidDate => "invalid date: "@,
        ErrorKind::InvalidParam => "invalid parameter: "@,
        ErrorKind::ScrapeFailed => "scrape failed: "@,
        ErrorKind::HttpError => "http error: "@,
        ErrorKind::Internal => "internal error: "@,
    }
}

impl View for PanelsError {
    type V = ErrorView;

    open spec fn view(&self) -> ErrorView {
        match self {
            PanelsError::NotFound(m) => ErrorView { kind: ErrorKind::NotFound, detail: m@ },
            PanelsError::InvalidDate(m) => ErrorView { kind: ErrorKind::InvalidDate, detail: m@ },
            PanelsError::InvalidParam(m) => ErrorView { kind: ErrorKind::InvalidParam, detail: m@ },
            PanelsError::ScrapeFailed(m) => ErrorView { kind: ErrorKind::ScrapeFailed, detail: m@ },
            PanelsError::HttpError(m) => ErrorView { kind: ErrorKind::HttpError, detail: m@ },
            PanelsError::Internal(m) => ErrorView { kind: ErrorKind::Internal, detail: m@ },
        }
    }
}

impl PanelsError {
    /// Which variant this is.
    pub fn kind(&self) -> (r: ErrorKind)
        ensures
            r == self@.kind,
    {
        match self {
            PanelsError::NotFound(_) => ErrorKind::NotFound,
            PanelsError::InvalidDate(_) => ErrorKind::InvalidDate,
            PanelsError::InvalidParam(_) => ErrorKind::InvalidParam,
            PanelsError::ScrapeFailed(_) => ErrorKind::ScrapeFailed,
            PanelsError::HttpError(_) => ErrorKind::HttpError,
            PanelsError::Internal(_) => ErrorKind::Internal,
        }
    }

    /// The detail that the error carries: the text of the response body.
    pub fn message(&self) -> (r: &String)
        ensures
            r@ == self@.detail,
    {
        match self {
            PanelsError::NotFound(m) => m,
            PanelsError::InvalidDate(m) => m,
            PanelsError::InvalidParam(m) => m,
            PanelsError::ScrapeFailed(m) => m,
            PanelsError::HttpError(m) => m,
            PanelsError::Internal(m) => m,
        }
    }

    /// The HTTP status that answers this error: 404 where nothing was found,
    /// 400 for a malformed identifier, 502 where the provider failed, 500
    /// otherwise.
    pub fn status_code(&self) -> (r: u16)
        ensures
            r == status_of(self@.kind),
    {
        match self {
            PanelsError::NotFound(_) => 404,
            PanelsError::InvalidDate(_) => 400,
            PanelsError::InvalidParam(_) => 400,
            PanelsError::ScrapeFailed(_) => 502,
            PanelsError::HttpError(_) => 502,
            PanelsError::Internal(_) => 500,
        }
    }

    /// The error in words: what kind it is, then its detail.
    pub fn to_text(&self) -> (r: String)
        ensures
            r@ == label_of(self@.kind) + self@.detail,
    {
        match self {
            PanelsError::NotFound(m) => join2("not found: ", m.as_str()),
            PanelsError::InvalidDate(m) => join2("invalid date: ", m.as_str()),
            PanelsError::InvalidParam(m) => join2("invalid parameter: ", m.as_str()),
            PanelsError::ScrapeFailed(m) => join2("scrape failed: ", m.as_str()),
            PanelsError::HttpError(m) => join2("http error: ", m.as_str()),
            PanelsError::Internal(m) => join2("internal error: ", m.as_str()),
        }
    }
}

} // verus!
