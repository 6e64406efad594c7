//! Sales-tax rates for street addresses in Washington State.
//!
//! The state's Department of Revenue answers an address with a location
//! code, a combined tax rate and a result code. This library holds
//! everything about that exchange that is a matter of rules rather than of
//! input and output: how the request address is written, how an answer in
//! either of the two encodings is decoded, what each result code means, and
//! when a failed attempt is worth repeating.

pub mod chars;
pub mod code;
pub mod error;
pub mod fetch;
pub mod info;
pub mod markup;
pub mod numeral;
pub mod request;
pub mod retry;
pub mod text;
pub mod tokens;

pub use code::Code;
pub use error::{DecodeError, TaxInfoError};
pub use fetch::{decode, interpret, settle};
pub use info::{Address, TaxInfo, TaxRate};
pub use markup::{decode_tokens, decode_xml};
pub use numeral::Decimal;
pub use request::{request_url, Format};
pub use retry::{Attempt, Retry, Step, DEFAULT_TIMEOUT_MILLIS, MAX_ATTEMPTS};
pub use text::decode_text;
pub use tokens::{scan, XmlToken};
