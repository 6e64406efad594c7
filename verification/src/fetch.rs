//! One attempt at a lookup, as far as it is a matter of rules: what the body
//! that came back decodes to, and what that amounts to.

use vstd::prelude::*;
use crate::error::{DecodeError, TaxInfoError, TaxInfoErrorView};
use crate::info::{decoded_view, TaxInfo, TaxInfoView};
use crate::markup::{decode_xml, token_decoding};
use crate::request::Format;
use crate::text::{decode_text, line_decoding};
use crate::tokens::document_tokens;

verus! {

/// What a body in the encoding `format` decodes to.
pub open spec fn decoding(format: Format, body: Seq<char>) -> Result<TaxInfoView, DecodeError> {
    match format {
        Format::Xml => token_decoding(document_tokens(body)),
        Format::Text => line_decoding(body),
    }
}

/// What a lookup makes of a decoding: an answer with a good code is the
/// result, an answer whose code means an error is handed back inside
/// [`TaxInfoError::Dor`] together with that code, and a body that does not
/// decode is [`TaxInfoError::Internal`] with the reason.
pub open spec fn settled(decoding: Result<TaxInfoView, DecodeError>) -> Result<
    TaxInfoView,
    TaxInfoErrorView,
> {
    match decoding {
        Ok(info) => if info.code.spec_is_error() {
            Err(TaxInfoErrorView::Dor(info.code, info))
        } else {
            Ok(info)
        },
        Err(e) => Err(TaxInfoErrorView::Internal(e)),
    }
}

/// The outcome of an attempt with the tax result that it holds, if any, as
/// its view.
pub open spec fn outcome_view(outcome: Result<TaxInfo, TaxInfoError>) -> Result<
    TaxInfoView,
    TaxInfoErrorView,
> {
    match outcome {
        Ok(info) => Ok(info@),
        Err(e) => Err(e@),
    }
}

/// Decodes a body in the encoding `format`.
pub fn decode(format: Format, body: &str) -> (outcome: Result<TaxInfo, DecodeError>)
    ensures
        decoded_view(outcome) == decoding(format, body@),
{
    match format {
        Format::Xml => decode_xml(body),
        Format::Text => decode_text(body),
    }
}

/// Says what a decoded answer amounts to.
///
/// A tax result is handed on as a success only where its code is no
/// error; with a code that is one, the same result comes back as
/// [`TaxInfoError::Dor`].
pub fn settle(decoded: Result<TaxInfo, DecodeError>) -> (outcome: Result<TaxInfo, TaxInfoError>)
    ensures
        outcome == match decoded {
            Ok(info) => if info.code.spec_is_error() {
                Err(TaxInfoError::Dor((info.code, info)))
            } else {
                Ok(info)
            },
            Err(e) => Err(TaxInfoError::Internal(e)),
        },
        outcome_view(outcome) == settled(decoded_view(decoded)),
{
    match decoded {
        Ok(info) => {
            if info.code.is_error() {
                Err(TaxInfoError::Dor((info.code, info)))
            } else {
                Ok(info)
            }
        },
        Err(e) => Err(TaxInfoError::Internal(e)),
    }
}

/// Says what the body of an answer in the encoding `format` amounts to:
/// the part of one attempt that follows the request.
///
/// A tax result comes back as a success only with a code that is no
/// error, and a failure is worth another attempt only where the service
/// reported an error of its own.
pub fn interpret(format: Format, body: &str) -> (outcome: Result<TaxInfo, TaxInfoError>)
    ensures
        outcome_view(outcome) == settled(decoding(format, body@)),
        outcome matches Ok(info) ==> !info.code.spec_is_error(),
        outcome matches Err(e) ==> (e.spec_retryable() <==> (decoding(format, body@) matches Ok(
            view,
        ) && view.code.spec_retryable())),
{
    settle(decode(format, body))
}

/// An attempt has no memory: whatever two attempts make of the same body
/// in the same encoding is the same, down to the last character.
pub proof fn interpretation_is_repeatable(
    format: Format,
    body: Seq<char>,
    first: Result<TaxInfo, TaxInfoError>,
    second: Result<TaxInfo, TaxInfoError>,
)
    requires
        outcome_view(first) == settled(decoding(format, body)),
        outcome_view(second) == settled(decoding(format, body)),
    ensures
        outcome_view(first) == outcome_view(second),
        first is Ok <==> second is Ok,
        first matches Ok(info) ==> decoding(format, body) == Ok::<TaxInfoView, DecodeError>(info@)
            && !info.code.spec_is_error(),
{
}

} // verus!
