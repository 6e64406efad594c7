//! What the service says about an address.

use vstd::prelude::*;
use crate::code::Code;
use crate::error::DecodeError;
use crate::numeral::Decimal;

verus! {

/// The address as the service resolved it, returned as part of a
/// [`TaxInfo`]. The service may leave out any of these.
#[derive(Clone, Debug, PartialEq)]
pub struct Address {
    pub househigh: Option<u32>,
    pub houselow: Option<u32>,
    pub evenodd: Option<String>,
    pub street: Option<String>,
    pub zip: Option<u32>,
    pub plus4: Option<u32>,
    pub period: Option<String>,
    pub rta: Option<String>,
    pub ptba: Option<String>,
    pub cez: Option<String>,
}

/// How a rate divides into the state's part and the local part, returned as
/// part of a [`TaxInfo`].
#[derive(Clone, Debug, PartialEq)]
pub struct TaxRate {
    pub name: String,
    pub code: String,
    pub localrate: Decimal,
    pub staterate: Decimal,
}

/// The answer of the service for one address.
///
/// The line encoding carries the location code, the rate and the result
/// code only; the document encoding always carries the local rate too, and
/// may carry a hint, an address echo and a rate breakdown.
#[derive(Clone, Debug, PartialEq)]
pub struct TaxInfo {
    pub loccode: i32,
    pub rate: Decimal,
    pub code: Code,
    pub localrate: Option<Decimal>,
    pub debughint: Option<String>,
    pub address: Option<Address>,
    pub taxrate: Option<TaxRate>,
}

/// The characters of a text that may be absent.
pub open spec fn text_view(text: Option<String>) -> Option<Seq<char>> {
    match text {
        Some(s) => Some(s@),
        None => None,
    }
}

/// An [`Address`] with each text as its characters.
pub struct AddressView {
    pub househigh: Option<u32>,
    pub houselow: Option<u32>,
    pub evenodd: Option<Seq<char>>,
    pub street: Option<Seq<char>>,
    pub zip: Option<u32>,
    pub plus4: Option<u32>,
    pub period: Option<Seq<char>>,
    pub rta: Option<Seq<char>>,
    pub ptba: Option<Seq<char>>,
    pub cez: Option<Seq<char>>,
}

/// A [`TaxRate`] with each text as its characters.
pub struct TaxRateView {
    pub name: Seq<char>,
    pub code: Seq<char>,
    pub localrate: Decimal,
    pub staterate: Decimal,
}

/// A [`TaxInfo`] with each text as its characters.
pub struct TaxInfoView {
    pub loccode: i32,
    pub rate: Decimal,
    pub code: Code,
    pub localrate: Option<Decimal>,
    pub debughint: Option<Seq<char>>,
    pub address: Option<AddressView>,
    pub taxrate: Option<TaxRateView>,
}

impl View for Address {
    type V = AddressView;

    open spec fn view(&self) -> AddressView {
        AddressView {
            househigh: self.househigh,
            houselow: self.houselow,
            evenodd: text_view(self.evenodd),
            street: text_view(self.street),
            zip: self.zip,
            plus4: self.plus4,
            period: text_view(self.period),
            rta: text_view(self.rta),
            ptba: text_view(self.ptba),
            cez: text_view(self.cez),
        }
    }
}

impl View for TaxRate {
    type V = TaxRateView;

    open spec fn view(&self) -> TaxRateView {
        TaxRateView {
            name: self.name@,
            code: self.code@,
            localrate: self.localrate,
            staterate: self.staterate,
        }
    }
}

impl View for TaxInfo {
    type V = TaxInfoView;

    open spec fn view(&self) -> TaxInfoView {
        TaxInfoView {
            loccode: self.loccode,
            rate: self.rate,
            code: self.code,
            localrate: self.localrate,
            debughint: text_view(self.debughint),
            address: match self.address {
                Some(address) => Some(address@),
                None => None,
            },
            taxrate: match self.taxrate {
                Some(taxrate) => Some(taxrate@),
                None => None,
            },
        }
    }
}

/// The outcome of a decoding with the tax result, if there is one, as its
/// view.
pub open spec fn decoded_view(outcome: Result<TaxInfo, DecodeError>) -> Result<
    TaxInfoView,
    DecodeError,
> {
    match outcome {
        Ok(info) => Ok(info@),
        Err(e) => Err(e),
    }
}

} // verus!
