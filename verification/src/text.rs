//! The line encoding of an answer:
//! `LocationCode=<digits> Rate=.<digits> ResultCode=<digits>`.

use vstd::prelude::*;
use vstd::slice::slice_subrange;
use crate::chars::{chars_of, word_end};
use crate::code::{classify, Code};
use crate::error::DecodeError;
use crate::info::{decoded_view, TaxInfo, TaxInfoView};
use crate::numeral::{
    all_digits, decimal_of, digit_run, digits_end, is_digit, lemma_decimal_of_fraction,
    lemma_digit_run_before, natural_of, number_value, parse_decimal, parse_natural, Decimal,
};

verus! {

/// The three numbers that a line holds, or the field at which it stops
/// being a line of the service.
///
/// The line starts with `LocationCode=` and the digits of a location code
/// that fits a signed 32-bit integer. One space and `Rate=.` follow, then
/// the digits after the rate's decimal point. One space and `ResultCode=`
/// follow, then the digits of a number below 256. Each run of digits is as
/// long as it can be, and what comes after the last one is not looked at.
pub open spec fn line_fields(line: Seq<char>) -> Result<(i32, Decimal, u8), DecodeError> {
    let key = "LocationCode="@;
    let digits = line.skip(key.len() as int);
    let run = digits.take(digit_run(digits) as int);
    if !key.is_prefix_of(line) {
        Err(DecodeError::Location)
    } else {
        match natural_of(run, 0x7fff_ffff) {
            None => Err(DecodeError::Location),
            Some(loccode) => match rate_and_code(digits.skip(run.len() as int)) {
                Ok((rate, code)) => Ok((loccode as i32, rate, code)),
                Err(e) => Err(e),
            },
        }
    }
}

/// The rate and the code in what follows the location code.
pub open spec fn rate_and_code(rest: Seq<char>) -> Result<(Decimal, u8), DecodeError> {
    let key = " Rate=."@;
    let digits = rest.skip(key.len() as int);
    let run = digits.take(digit_run(digits) as int);
    if !key.is_prefix_of(rest) || run.len() == 0 {
        Err(DecodeError::Rate)
    } else {
        match decimal_of(seq!['.'] + run) {
            None => Err(DecodeError::Rate),
            Some(rate) => match code_number(digits.skip(run.len() as int)) {
                Ok(code) => Ok((rate, code)),
                Err(e) => Err(e),
            },
        }
    }
}

/// The number of the result code in what follows the rate.
pub open spec fn code_number(rest: Seq<char>) -> Result<u8, DecodeError> {
    let key = " ResultCode="@;
    let digits = rest.skip(key.len() as int);
    let run = digits.take(digit_run(digits) as int);
    if !key.is_prefix_of(rest) {
        Err(DecodeError::Code)
    } else {
        match natural_of(run, 0xff) {
            None => Err(DecodeError::Code),
            Some(number) => Ok(number as u8),
        }
    }
}

/// What a line of the service decodes to: its three fields, with the code
/// classified, and nothing else.
pub open spec fn line_decoding(line: Seq<char>) -> Result<TaxInfoView, DecodeError> {
    match line_fields(line) {
        Err(e) => Err(e),
        Ok((loccode, rate, number)) => match classify(number) {
            None => Err(DecodeError::InvalidCode),
            Some(code) => Ok(
                TaxInfoView {
                    loccode,
                    rate,
                    code,
                    localrate: None,
                    debughint: None,
                    address: None,
                    taxrate: None,
                },
            ),
        },
    }
}

/// A line of the service's shape decodes to the numbers that it writes:
/// wherever the three runs of digits are numbers of their kinds, and what
/// follows the last run is no digit, the location code is the first number,
/// the rate the second as a fraction, and the code the third. The line
/// decodes to a tax result where that third number is a documented code,
/// and fails with [`DecodeError::InvalidCode`] where it is not.
pub proof fn well_formed_line_has_its_fields(
    location: Seq<char>,
    rate: Seq<char>,
    code: Seq<char>,
    rest: Seq<char>,
)
    requires
        location.len() > 0 && all_digits(location) && number_value(location) <= 0x7fff_ffff,
        rate.len() > 0 && all_digits(rate) && number_value(rate) <= u64::MAX,
        code.len() > 0 && all_digits(code) && number_value(code) <= 0xff,
        rest.len() > 0 ==> !is_digit(rest[0]),
    ensures
        line_fields(
            "LocationCode="@ + location + " Rate=."@ + rate + " ResultCode="@ + code + rest,
        ) == Ok::<(i32, Decimal, u8), DecodeError>(
            (
                number_value(location) as i32,
                Decimal {
                    negative: false,
                    unscaled: number_value(rate) as u64,
                    scale: rate.len() as usize,
                },
                number_value(code) as u8,
            ),
        ),
        line_decoding(
            "LocationCode="@ + location + " Rate=."@ + rate + " ResultCode="@ + code + rest,
        ) == match classify(number_value(code) as u8) {
            Some(known) => Ok::<TaxInfoView, DecodeError>(
                TaxInfoView {
                    loccode: number_value(location) as i32,
                    rate: Decimal {
                        negative: false,
                        unscaled: number_value(rate) as u64,
                        scale: rate.len() as usize,
                    },
                    code: known,
                    localrate: None,
                    debughint: None,
                    address: None,
                    taxrate: None,
                },
            ),
            None => Err::<TaxInfoView, DecodeError>(DecodeError::InvalidCode),
        },
{
    let code_part = " ResultCode="@ + (code + rest);
    let rate_part = " Rate=."@ + (rate + code_part);
    let line = "LocationCode="@ + location + " Rate=."@ + rate + " ResultCode="@ + code + rest;
    assert(line =~= "LocationCode="@ + (location + rate_part));
    lemma_code_field(code, rest);
    lemma_rate_field(rate, code_part);
    lemma_location_field(location, rate_part);
}

/// A line with a location code and a rate that goes on with anything but
/// the code field fails at the code.
pub proof fn line_without_code_fails_at_the_code(
    location: Seq<char>,
    rate: Seq<char>,
    tail: Seq<char>,
)
    requires
        location.len() > 0 && all_digits(location) && number_value(location) <= 0x7fff_ffff,
        rate.len() > 0 && all_digits(rate) && number_value(rate) <= u64::MAX,
        tail.len() > 0 ==> !is_digit(tail[0]),
        !" ResultCode="@.is_prefix_of(tail),
    ensures
        line_decoding("LocationCode="@ + location + " Rate=."@ + rate + tail) == Err::<
            TaxInfoView,
            DecodeError,
        >(DecodeError::Code),
{
    let rate_part = " Rate=."@ + (rate + tail);
    let line = "LocationCode="@ + location + " Rate=."@ + rate + tail;
    assert(line =~= "LocationCode="@ + (location + rate_part));
    lemma_rate_field(rate, tail);
    lemma_location_field(location, rate_part);
}

/// The code field of a line, followed by `rest`.
proof fn lemma_code_field(code: Seq<char>, rest: Seq<char>)
    requires
        code.len() > 0 && all_digits(code) && number_value(code) <= 0xff,
        rest.len() > 0 ==> !is_digit(rest[0]),
    ensures
        code_number(" ResultCode="@ + (code + rest)) == Ok::<u8, DecodeError>(
            number_value(code) as u8,
        ),
        (" ResultCode="@ + (code + rest))[0] == ' ',
{
    reveal_strlit(" ResultCode=");
    let key = " ResultCode="@;
    let part = key + (code + rest);
    assert(part.subrange(0, key.len() as int) =~= key);
    assert(part.skip(key.len() as int) =~= code + rest);
    lemma_digit_run_before(code, rest);
}

/// The rate field of a line, followed by `tail`.
proof fn lemma_rate_field(rate: Seq<char>, tail: Seq<char>)
    requires
        rate.len() > 0 && all_digits(rate) && number_value(rate) <= u64::MAX,
        tail.len() > 0 ==> !is_digit(tail[0]),
    ensures
        rate_and_code(" Rate=."@ + (rate + tail)) == match code_number(tail) {
            Ok(code) => Ok::<(Decimal, u8), DecodeError>(
                (
                    Decimal {
                        negative: false,
                        unscaled: number_value(rate) as u64,
                        scale: rate.len() as usize,
                    },
                    code,
                ),
            ),
            Err(e) => Err(e),
        },
        (" Rate=."@ + (rate + tail))[0] == ' ',
{
    reveal_strlit(" Rate=.");
    let key = " Rate=."@;
    let part = key + (rate + tail);
    assert(part.subrange(0, key.len() as int) =~= key);
    assert(part.skip(key.len() as int) =~= rate + tail);
    lemma_digit_run_before(rate, tail);
    lemma_decimal_of_fraction(rate);
}

/// The location field of a line, followed by `tail`.
proof fn lemma_location_field(location: Seq<char>, tail: Seq<char>)
    requires
        location.len() > 0 && all_digits(location) && number_value(location) <= 0x7fff_ffff,
        tail.len() > 0 ==> !is_digit(tail[0]),
    ensures
        line_fields("LocationCode="@ + (location + tail)) == match rate_and_code(tail) {
            Ok((rate, code)) => Ok::<(i32, Decimal, u8), DecodeError>(
                (number_value(location) as i32, rate, code),
            ),
            Err(e) => Err(e),
        },
{
    reveal_strlit("LocationCode=");
    let key = "LocationCode="@;
    let line = key + (location + tail);
    assert(line.subrange(0, key.len() as int) =~= key);
    assert(line.skip(key.len() as int) =~= location + tail);
    lemma_digit_run_before(location, tail);
}

/// Reads the result code's number from `text` at `at`.
fn read_code_number(text: &[char], at: usize) -> (outcome: Result<u8, DecodeError>)
    requires
        at <= text.len(),
    ensures
        outcome == code_number(text@.skip(at as int)),
{
    let start = match word_end(text, at, " ResultCode=") {
        Some(start) => start,
        None => {
            return Err(DecodeError::Code);
        },
    };
    let end = digits_end(text, start);
    proof {
        let rest = text@.skip(at as int);
        let digits = rest.skip(" ResultCode="@.len() as int);
        assert(digits =~= text@.skip(start as int));
        assert(digits.take(digit_run(digits) as int) =~= text@.subrange(start as int, end as int));
    }
    match parse_natural(slice_subrange(text, start, end), 0xff) {
        Some(number) => Ok(number as u8),
        None => Err(DecodeError::Code),
    }
}

/// Reads the rate and the result code's number from `text` at `at`.
fn read_rate_and_code(text: &[char], at: usize) -> (outcome: Result<(Decimal, u8), DecodeError>)
    requires
        at <= text.len(),
    ensures
        outcome == rate_and_code(text@.skip(at as int)),
{
    let start = match word_end(text, at, " Rate=.") {
        Some(start) => start,
        None => {
            return Err(DecodeError::Rate);
        },
    };
    let end = digits_end(text, start);
    proof {
        reveal_strlit(" Rate=.");
        let rest = text@.skip(at as int);
        let digits = rest.skip(" Rate=."@.len() as int);
        assert(digits =~= text@.skip(start as int));
        assert(digits.take(digit_run(digits) as int) =~= text@.subrange(start as int, end as int));
        assert(digits.skip(end - start) =~= text@.skip(end as int));
        assert(" Rate=."@.is_prefix_of(rest));
        assert(rest.subrange(0, 7)[6] == " Rate=."@[6]);
        assert(rest[6] == '.');
        assert(text@[start - 1] == rest[6]);
        assert(seq!['.'] + text@.subrange(start as int, end as int) =~= text@.subrange(
            start - 1,
            end as int,
        ));
    }
    if end == start {
        return Err(DecodeError::Rate);
    }
    let rate = match parse_decimal(slice_subrange(text, start - 1, end)) {
        Some(rate) => rate,
        None => {
            return Err(DecodeError::Rate);
        },
    };
    match read_code_number(text, end) {
        Ok(number) => Ok((rate, number)),
        Err(e) => Err(e),
    }
}

/// Reads the three fields of a line.
fn read_line_fields(text: &[char]) -> (outcome: Result<(i32, Decimal, u8), DecodeError>)
    ensures
        outcome == line_fields(text@),
{
    let start = match word_end(text, 0, "LocationCode=") {
        Some(start) => start,
        None => {
            proof {
                assert(text@.skip(0) =~= text@);
            }
            return Err(DecodeError::Location);
        },
    };
    let end = digits_end(text, start);
    proof {
        assert(text@.skip(0) =~= text@);
        let digits = text@.skip("LocationCode="@.len() as int);
        assert(digits.take(digit_run(digits) as int) =~= text@.subrange(start as int, end as int));
        assert(digits.skip(end - start) =~= text@.skip(end as int));
    }
    let loccode = match parse_natural(slice_subrange(text, start, end), 0x7fff_ffff) {
        Some(loccode) => loccode as i32,
        None => {
            return Err(DecodeError::Location);
        },
    };
    match read_rate_and_code(text, end) {
        Ok((rate, number)) => Ok((loccode, rate, number)),
        Err(e) => Err(e),
    }
}

/// Decodes an answer in the line encoding.
///
/// A line that lacks a field, or holds one that is no number of its kind,
/// fails with that field's error; a line whose result code is a number that
/// the service has not documented fails with
/// [`DecodeError::InvalidCode`]. The result holds the three fields and
/// nothing else.
pub fn decode_text(body: &str) -> (outcome: Result<TaxInfo, DecodeError>)
    ensures
        decoded_view(outcome) == line_decoding(body@),
        outcome matches Ok(info) ==> info.localrate is None && info.debughint is None
            && info.address is None && info.taxrate is None,
{
    let chars = chars_of(body);
    let (loccode, rate, number) = match read_line_fields(chars.as_slice()) {
        Ok(fields) => fields,
        Err(e) => {
            return Err(e);
        },
    };
    match Code::try_from(number) {
        Ok(code) => Ok(
            TaxInfo {
                loccode,
                rate,
                code,
                localrate: None,
                debughint: None,
                address: None,
                taxrate: None,
            },
        ),
        Err(_) => Err(DecodeError::InvalidCode),
    }
}

} // verus!
