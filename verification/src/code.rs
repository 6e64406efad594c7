//! The result codes of the service and what each of them means.

use vstd::prelude::*;
use vstd::std_specs::convert::TryFromSpecImpl;
use crate::chars::chars_of;
use crate::error::DecodeError;
use crate::numeral::{parse_u8, u8_of};

verus! {

/// The outcome that the service reports with every answer.
#[derive(Copy, Clone, Debug, PartialEq, Eq, Structural)]
pub enum Code {
    /// The address was found.
    AddrFound,
    /// The address was not found, but the ZIP+4 was.
    AddrNotFoundZipFound,
    /// The address was updated and found; the caller should validate it.
    AdrrUpdatedAndFoundValidate,
    /// The address was updated and the ZIP+4 found; the caller should
    /// validate it.
    AddrUpdatedAndZipFoundValidate,
    /// The address was corrected and found; the caller should validate it.
    AddrCorrectedAndFoundValidate,
    /// Neither the address nor the ZIP+4 was found, but the 5-digit ZIP was.
    Zip5FoundNoAddrOrZip4,
    /// Neither the address nor any ZIP was found.
    NoAddrNoZips,
    /// The coordinates given were invalid.
    InvalidLongLat,
    /// The service failed internally.
    InternalError,
}

/// The code that the service writes as `value`, if it writes any so.
pub open spec fn classify(value: u8) -> Option<Code> {
    if value == 0 {
        Some(Code::AddrFound)
    } else if value == 1 {
        Some(Code::AddrNotFoundZipFound)
    } else if value == 2 {
        Some(Code::AdrrUpdatedAndFoundValidate)
    } else if value == 3 {
        Some(Code::AddrUpdatedAndZipFoundValidate)
    } else if value == 4 {
        Some(Code::AddrCorrectedAndFoundValidate)
    } else if value == 5 {
        Some(Code::Zip5FoundNoAddrOrZip4)
    } else if value == 6 {
        Some(Code::NoAddrNoZips)
    } else if value == 7 {
        Some(Code::InvalidLongLat)
    } else if value == 9 {
        Some(Code::InternalError)
    } else {
        None
    }
}

/// The code that the text `s` writes: `s` must be an integer below 256, and
/// that integer a documented number.
pub open spec fn code_of_text(s: Seq<char>) -> Result<Code, DecodeError> {
    match u8_of(s) {
        None => Err(DecodeError::Code),
        Some(value) => match classify(value) {
            Some(code) => Ok(code),
            None => Err(DecodeError::InvalidCode),
        },
    }
}

impl Code {
    /// The number that the service writes for this code.
    pub open spec fn number(&self) -> u8 {
        match *self {
            Code::AddrFound => 0,
            Code::AddrNotFoundZipFound => 1,
            Code::AdrrUpdatedAndFoundValidate => 2,
            Code::AddrUpdatedAndZipFoundValidate => 3,
            Code::AddrCorrectedAndFoundValidate => 4,
            Code::Zip5FoundNoAddrOrZip4 => 5,
            Code::NoAddrNoZips => 6,
            Code::InvalidLongLat => 7,
            Code::InternalError => 9,
        }
    }

    /// Whether the values that came with this code are not to be trusted.
    pub open spec fn spec_is_error(&self) -> bool {
        *self == Code::NoAddrNoZips || *self == Code::InvalidLongLat || *self
            == Code::InternalError
    }

    /// Whether asking again may give another answer.
    pub open spec fn spec_retryable(&self) -> bool {
        *self == Code::InternalError
    }

    /// True when the values that came with this code are garbage: the rate
    /// may be -1 or the like.
    #[verifier::when_used_as_spec(spec_is_error)]
    pub fn is_error(&self) -> (bad: bool)
        ensures
            bad == self.spec_is_error(),
    {
        match self {
            Code::NoAddrNoZips => true,
            Code::InvalidLongLat => true,
            Code::InternalError => true,
            _ => false,
        }
    }

    /// Reads a code from its number as text: [`DecodeError::Code`] where
    /// the text is no integer below 256, [`DecodeError::InvalidCode`] where
    /// the integer is not a documented number.
    pub fn from_str(s: &str) -> (outcome: Result<Code, DecodeError>)
        ensures
            outcome == code_of_text(s@),
    {
        let text = chars_of(s);
        match parse_u8(text.as_slice()) {
            Some(value) => Code::try_from(value),
            None => Err(DecodeError::Code),
        }
    }

    /// True when the failure is the service's own and may have passed by
    /// the next attempt.
    #[verifier::when_used_as_spec(spec_retryable)]
    pub fn retryable(&self) -> (again: bool)
        ensures
            again == self.spec_retryable(),
    {
        match self {
            Code::InternalError => true,
            _ => false,
        }
    }
}

impl TryFrom<u8> for Code {
    type Error = DecodeError;

    /// Classifies the number of a result code.
    fn try_from(value: u8) -> (outcome: Result<Code, DecodeError>)
        ensures
            outcome == match classify(value) {
                Some(code) => Ok::<Code, DecodeError>(code),
                None => Err(DecodeError::InvalidCode),
            },
    {
        match value {
            0 => Ok(Code::AddrFound),
            1 => Ok(Code::AddrNotFoundZipFound),
            2 => Ok(Code::AdrrUpdatedAndFoundValidate),
            3 => Ok(Code::AddrUpdatedAndZipFoundValidate),
            4 => Ok(Code::AddrCorrectedAndFoundValidate),
            5 => Ok(Code::Zip5FoundNoAddrOrZip4),
            6 => Ok(Code::NoAddrNoZips),
            7 => Ok(Code::InvalidLongLat),
            9 => Ok(Code::InternalError),
            _ => Err(DecodeError::InvalidCode),
        }
    }
}

impl TryFromSpecImpl<u8> for Code {
    open spec fn obeys_try_from_spec() -> bool {
        true
    }

    open spec fn try_from_spec(value: u8) -> Result<Code, DecodeError> {
        match classify(value) {
            Some(code) => Ok(code),
            None => Err(DecodeError::InvalidCode),
        }
    }
}

/// Every documented number is classified as the code it stands for, and
/// classification and [`Code::number`] undo each other; no number above 9,
/// and not 8, is classified at all.
pub proof fn classification_is_exact(value: u8)
    ensures
        value == 0 ==> classify(value) == Some(Code::AddrFound),
        value == 1 ==> classify(value) == Some(Code::AddrNotFoundZipFound),
        value == 2 ==> classify(value) == Some(Code::AdrrUpdatedAndFoundValidate),
        value == 3 ==> classify(value) == Some(Code::AddrUpdatedAndZipFoundValidate),
        value == 4 ==> classify(value) == Some(Code::AddrCorrectedAndFoundValidate),
        value == 5 ==> classify(value) == Some(Code::Zip5FoundNoAddrOrZip4),
        value == 6 ==> classify(value) == Some(Code::NoAddrNoZips),
        value == 7 ==> classify(value) == Some(Code::InvalidLongLat),
        value == 9 ==> classify(value) == Some(Code::InternalError),
        value == 8 || value > 9 ==> classify(value) is None,
        classify(value) matches Some(code) ==> code.number() == value,
{
}

/// A code is an error exactly when its number is 6, 7 or 9, and worth
/// another attempt exactly when its number is 9.
pub proof fn error_codes_are_six_seven_nine(code: Code)
    ensures
        code.spec_is_error() <==> (code.number() == 6 || code.number() == 7 || code.number() == 9),
        code.spec_retryable() <==> code.number() == 9,
        code.spec_retryable() ==> code.spec_is_error(),
        classify(code.number()) == Some(code),
{
}

} // verus!
