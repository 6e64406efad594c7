//! The address of a request: the service's endpoint with the street
//! address, the city and the ZIP code as its query.

use vstd::prelude::*;
use vstd::utf8::encode_utf8;
use url::form_urlencoded::Serializer;

verus! {

/// The two encodings in which the service answers.
#[derive(Copy, Clone, Debug, PartialEq, Eq, Structural)]
pub enum Format {
    /// A document with a `response` element.
    Xml,
    /// One line of three fields.
    Text,
}

/// Whether a byte stands for itself in a query: a letter or digit of ASCII,
/// or one of `*`, `-`, `.` and `_`.
pub open spec fn is_plain_byte(byte: u8) -> bool {
    ||| 0x30 <= byte <= 0x39
    ||| 0x41 <= byte <= 0x5a
    ||| 0x61 <= byte <= 0x7a
    ||| byte == 0x2a
    ||| byte == 0x2d
    ||| byte == 0x2e
    ||| byte == 0x5f
}

/// The digit of base sixteen for a number below sixteen, in upper case.
pub open spec fn hex_digit(n: int) -> char
    recommends
        0 <= n < 16,
{
    if n < 10 {
        (0x30 + n) as char
    } else {
        (0x41 + n - 10) as char
    }
}

/// How one byte is written in a query: as itself where it is plain, a
/// space as `+`, and any other byte as `%` and its two digits of base
/// sixteen.
pub open spec fn encoded_byte(byte: u8) -> Seq<char> {
    if is_plain_byte(byte) {
        seq![byte as char]
    } else if byte == 0x20 {
        seq!['+']
    } else {
        seq!['%', hex_digit(byte as int / 16), hex_digit(byte as int % 16)]
    }
}

/// How a run of bytes is written in a query: byte by byte.
pub open spec fn encoded_bytes(bytes: Seq<u8>) -> Seq<char>
    decreases bytes.len(),
{
    if bytes.len() == 0 {
        Seq::empty()
    } else {
        encoded_bytes(bytes.drop_last()) + encoded_byte(bytes.last())
    }
}

/// The query `target` with the pair of `name` and `value` added: an `&`
/// where the query was not empty, then the name and the value, each as the
/// bytes of its UTF-8 form are written in a query, with `=` between them.
pub open spec fn with_pair(target: Seq<char>, name: Seq<char>, value: Seq<char>) -> Seq<char> {
    let separator = if target.len() > 0 {
        seq!['&']
    } else {
        Seq::empty()
    };
    target + separator + encoded_bytes(encode_utf8(name)) + seq!['='] + encoded_bytes(
        encode_utf8(value),
    )
}

/// The endpoint of the service for answers in the encoding `format`.
pub open spec fn endpoint(format: Format) -> Seq<char> {
    match format {
        Format::Xml => "https://webgis.dor.wa.gov/webapi/AddressRates.aspx?output=xml"@,
        Format::Text => "https://webgis.dor.wa.gov/webapi/AddressRates.aspx?output=text"@,
    }
}

/// The address of the request for a street address, a city and a ZIP code.
pub open spec fn request_address(
    format: Format,
    addr: Seq<char>,
    city: Seq<char>,
    zip: Seq<char>,
) -> Seq<char> {
    with_pair(
        with_pair(with_pair(endpoint(format), "addr"@, addr), "city"@, city),
        "zip"@,
        zip,
    )
}

/// Adds one pair to a query.
///
/// This is `Serializer::append_pair` of the `url` crate's `form_urlencoded`,
/// on a serializer made for `target` by `Serializer::new` and ended by
/// `Serializer::finish`. The contract says what those write: the separator
/// where `target` already holds something, and the name and the value in
/// the `application/x-www-form-urlencoded` byte serialization.
#[verifier::external_body]
fn append_pair(target: String, name: &str, value: &str) -> (query: String)
    ensures
        query@ == with_pair(target@, name@, value@),
{
    Serializer::new(target).append_pair(name, value).finish()
}

/// Writes the address of the request for a street address, a city and a
/// ZIP code, to be answered in the encoding `format`.
pub fn request_url(format: Format, addr: &str, city: &str, zip: &str) -> (url: String)
    ensures
        url@ == request_address(format, addr@, city@, zip@),
{
    let base = match format {
        Format::Xml => "https://webgis.dor.wa.gov/webapi/AddressRates.aspx?output=xml",
        Format::Text => "https://webgis.dor.wa.gov/webapi/AddressRates.aspx?output=text",
    };
    let url = append_pair(base.to_owned(), "addr", addr);
    let url = append_pair(url, "city", city);
    append_pair(url, "zip", zip)
}

} // verus!
