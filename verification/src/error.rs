//! What can go wrong while an answer of the service is decoded.

use vstd::prelude::*;
use crate::code::Code;
use crate::info::{TaxInfo, TaxInfoView};

verus! {

/// Why a response body could not be turned into a tax result.
///
/// Each field of an answer has a diagnostic of its own, so that a caller can
/// tell which part of the body the service got wrong.
#[derive(Copy, Clone, Debug, PartialEq, Eq, Structural)]
pub enum DecodeError {
    /// The body is not a document with a `response` element at its root, or
    /// the document breaks off or is malformed inside that element.
    Markup,
    /// The location code is absent or is not an integer.
    Location,
    /// The combined rate is absent or is not a decimal number.
    Rate,
    /// The result code is absent or is not a small integer.
    Code,
    /// The result code is an integer that the service has not documented.
    InvalidCode,
    /// The local rate is absent or is not a decimal number.
    LocalRate,
    /// A numeric attribute of the address echo is not a number.
    Address,
    /// The rate breakdown lacks an attribute or holds a rate that is not a
    /// decimal number.
    Breakdown,
}

impl DecodeError {
    /// A short diagnostic in words.
    pub fn message(&self) -> (text: &'static str)
        ensures
            text@ == self.spec_message(),
    {
        match self {
            DecodeError::Markup => "response is not a well-formed document",
            DecodeError::Location => "location code is missing or not an integer",
            DecodeError::Rate => "rate is missing or not a decimal number",
            DecodeError::Code => "did not use integer as code",
            DecodeError::InvalidCode => "code provided not valid",
            DecodeError::LocalRate => "local rate is missing or not a decimal number",
            DecodeError::Address => "address echo holds a malformed number",
            DecodeError::Breakdown => "rate breakdown is incomplete or malformed",
        }
    }

    /// The text that [`DecodeError::message`] returns.
    pub open spec fn spec_message(&self) -> Seq<char> {
        match self {
            DecodeError::Markup => "response is not a well-formed document"@,
            DecodeError::Location => "location code is missing or not an integer"@,
            DecodeError::Rate => "rate is missing or not a decimal number"@,
            DecodeError::Code => "did not use integer as code"@,
            DecodeError::InvalidCode => "code provided not valid"@,
            DecodeError::LocalRate => "local rate is missing or not a decimal number"@,
            DecodeError::Address => "address echo holds a malformed number"@,
            DecodeError::Breakdown => "rate breakdown is incomplete or malformed"@,
        }
    }
}

/// Why a lookup gave no tax result.
#[derive(Debug, PartialEq)]
pub enum TaxInfoError {
    /// The request failed on its way. Where the failure came with an answer
    /// of the server, its HTTP status is kept.
    Http(Option<u16>),
    /// The service answered with a code that means an error. The answer is
    /// kept whole in case the caller would like to inspect it.
    Dor((Code, TaxInfo)),
    /// The answer of the service could not be decoded.
    Internal(DecodeError),
    /// Every attempt that was allowed has been made.
    NoMoreRetries,
}

/// A [`TaxInfoError`] with the tax result that it may hold as its view.
pub enum TaxInfoErrorView {
    Http(Option<u16>),
    Dor(Code, TaxInfoView),
    Internal(DecodeError),
    NoMoreRetries,
}

impl View for TaxInfoError {
    type V = TaxInfoErrorView;

    open spec fn view(&self) -> TaxInfoErrorView {
        match *self {
            TaxInfoError::Http(status) => TaxInfoErrorView::Http(status),
            TaxInfoError::Dor((code, info)) => TaxInfoErrorView::Dor(code, info@),
            TaxInfoError::Internal(e) => TaxInfoErrorView::Internal(e),
            TaxInfoError::NoMoreRetries => TaxInfoErrorView::NoMoreRetries,
        }
    }
}

impl TaxInfoError {
    /// Whether another attempt may succeed: after an internal error of the
    /// service, after a failure on the way that came without a status, and
    /// after one with a status from 500 to 599.
    pub open spec fn spec_retryable(&self) -> bool {
        match *self {
            TaxInfoError::NoMoreRetries => false,
            TaxInfoError::Dor((code, _)) => code.spec_retryable(),
            TaxInfoError::Http(Some(status)) => 500 <= status < 600,
            TaxInfoError::Http(None) => true,
            TaxInfoError::Internal(_) => false,
        }
    }

    /// Whether the failure may have passed by the next attempt.
    #[verifier::when_used_as_spec(spec_retryable)]
    pub fn retryable(&self) -> (again: bool)
        ensures
            again == self.spec_retryable(),
    {
        match self {
            TaxInfoError::NoMoreRetries => false,
            TaxInfoError::Dor((code, _)) => code.retryable(),
            TaxInfoError::Http(Some(status)) => 500 <= *status && *status < 600,
            TaxInfoError::Http(None) => true,
            TaxInfoError::Internal(_) => false,
        }
    }
}

} // verus!
