//! The document encoding of an answer: a `response` element with the
//! numbers as attributes and, inside it, an optional `addressline` element
//! and an optional `rate` element.

use vstd::prelude::*;
use crate::chars::{chars_of, is_word};
use crate::code::{code_of_text, Code};
use crate::error::DecodeError;
use crate::info::{
    decoded_view, text_view, Address, AddressView, TaxInfo, TaxInfoView, TaxRate, TaxRateView,
};
use crate::numeral::{decimal_of, i32_of, parse_decimal, parse_i32, parse_u32, u32_of, Decimal};
use crate::tokens::{document_tokens, scan, XmlToken};

verus! {

/// What has been read of a `response` element so far.
pub struct Draft {
    pub loccode: Option<i32>,
    pub rate: Option<Decimal>,
    pub code: Option<Code>,
    pub localrate: Option<Decimal>,
    pub debughint: Option<Seq<char>>,
    pub address: Option<AddressView>,
    pub taxrate: Option<TaxRateView>,
}

/// What has been read of a `rate` element so far.
pub struct BreakdownDraft {
    pub name: Option<Seq<char>>,
    pub code: Option<Seq<char>>,
    pub localrate: Option<Decimal>,
    pub staterate: Option<Decimal>,
}

/// A response of which nothing has been read.
pub open spec fn blank_draft() -> Draft {
    Draft {
        loccode: None,
        rate: None,
        code: None,
        localrate: None,
        debughint: None,
        address: None,
        taxrate: None,
    }
}

/// An address echo of which nothing has been read.
pub open spec fn blank_address() -> AddressView {
    AddressView {
        househigh: None,
        houselow: None,
        evenodd: None,
        street: None,
        zip: None,
        plus4: None,
        period: None,
        rta: None,
        ptba: None,
        cez: None,
    }
}

/// A rate breakdown of which nothing has been read.
pub open spec fn blank_breakdown() -> BreakdownDraft {
    BreakdownDraft { name: None, code: None, localrate: None, staterate: None }
}

/// Where the tokens that may stand before the root element end: the index
/// of the first token from `i` on that is not [`XmlToken::Other`].
pub open spec fn prolog_end(tokens: Seq<XmlToken>, i: int) -> int
    decreases tokens.len() - i,
{
    if 0 <= i < tokens.len() && tokens[i] is Other {
        prolog_end(tokens, i + 1)
    } else {
        i
    }
}

/// Whether `token` starts an element with the plain name `name`.
pub open spec fn starts_element(token: XmlToken, name: Seq<char>) -> bool {
    token matches XmlToken::ElementStart(prefix, local) && prefix@.len() == 0 && local@ == name
}

/// The draft after one attribute of the `response` element. An attribute
/// with a prefix or with a name that the element does not have is passed
/// over; one that is written twice counts as it was written last.
pub open spec fn with_response_attribute(
    draft: Draft,
    prefix: Seq<char>,
    local: Seq<char>,
    value: Seq<char>,
) -> Result<Draft, DecodeError> {
    if prefix.len() != 0 {
        Ok(draft)
    } else if local == "loccode"@ {
        match i32_of(value) {
            Some(loccode) => Ok(Draft { loccode: Some(loccode), ..draft }),
            None => Err(DecodeError::Location),
        }
    } else if local == "rate"@ {
        match decimal_of(value) {
            Some(rate) => Ok(Draft { rate: Some(rate), ..draft }),
            None => Err(DecodeError::Rate),
        }
    } else if local == "code"@ {
        match code_of_text(value) {
            Ok(code) => Ok(Draft { code: Some(code), ..draft }),
            Err(e) => Err(e),
        }
    } else if local == "localrate"@ {
        match decimal_of(value) {
            Some(rate) => Ok(Draft { localrate: Some(rate), ..draft }),
            None => Err(DecodeError::LocalRate),
        }
    } else if local == "debughint"@ {
        Ok(Draft { debughint: Some(value), ..draft })
    } else {
        Ok(draft)
    }
}

/// The draft after the attributes that stand at `i` and after it, and the
/// index of the first token behind them.
pub open spec fn response_attributes(tokens: Seq<XmlToken>, i: int, draft: Draft) -> Result<
    (Draft, int),
    DecodeError,
>
    decreases tokens.len() - i,
{
    if 0 <= i < tokens.len() && tokens[i] is Attribute {
        match with_response_attribute(
            draft,
            tokens[i]->Attribute_0@,
            tokens[i]->Attribute_1@,
            tokens[i]->Attribute_2@,
        ) {
            Ok(next) => response_attributes(tokens, i + 1, next),
            Err(e) => Err(e),
        }
    } else {
        Ok((draft, i))
    }
}

/// The address echo after one attribute of the `addressline` element.
pub open spec fn with_address_attribute(
    address: AddressView,
    prefix: Seq<char>,
    local: Seq<char>,
    value: Seq<char>,
) -> Result<AddressView, DecodeError> {
    if prefix.len() != 0 {
        Ok(address)
    } else if local == "househigh"@ {
        match u32_of(value) {
            Some(number) => Ok(AddressView { househigh: Some(number), ..address }),
            None => Err(DecodeError::Address),
        }
    } else if local == "houselow"@ {
        match u32_of(value) {
            Some(number) => Ok(AddressView { houselow: Some(number), ..address }),
            None => Err(DecodeError::Address),
        }
    } else if local == "evenodd"@ {
        Ok(AddressView { evenodd: Some(value), ..address })
    } else if local == "street"@ {
        Ok(AddressView { street: Some(value), ..address })
    } else if local == "zip"@ {
        match u32_of(value) {
            Some(number) => Ok(AddressView { zip: Some(number), ..address }),
            None => Err(DecodeError::Address),
        }
    } else if local == "plus4"@ {
        match u32_of(value) {
            Some(number) => Ok(AddressView { plus4: Some(number), ..address }),
            None => Err(DecodeError::Address),
        }
    } else if local == "period"@ {
        Ok(AddressView { period: Some(value), ..address })
    } else if local == "rta"@ {
        Ok(AddressView { rta: Some(value), ..address })
    } else if local == "ptba"@ {
        Ok(AddressView { ptba: Some(value), ..address })
    } else if local == "cez"@ {
        Ok(AddressView { cez: Some(value), ..address })
    } else {
        Ok(address)
    }
}

/// The address echo after the attributes that stand at `i` and after it,
/// and the index of the first token behind them.
pub open spec fn address_attributes(tokens: Seq<XmlToken>, i: int, address: AddressView) -> Result<
    (AddressView, int),
    DecodeError,
>
    decreases tokens.len() - i,
{
    if 0 <= i < tokens.len() && tokens[i] is Attribute {
        match with_address_attribute(
            address,
            tokens[i]->Attribute_0@,
            tokens[i]->Attribute_1@,
            tokens[i]->Attribute_2@,
        ) {
            Ok(next) => address_attributes(tokens, i + 1, next),
            Err(e) => Err(e),
        }
    } else {
        Ok((address, i))
    }
}

/// The rate breakdown after one attribute of the `rate` element.
pub open spec fn with_breakdown_attribute(
    breakdown: BreakdownDraft,
    prefix: Seq<char>,
    local: Seq<char>,
    value: Seq<char>,
) -> Result<BreakdownDraft, DecodeError> {
    if prefix.len() != 0 {
        Ok(breakdown)
    } else if local == "name"@ {
        Ok(BreakdownDraft { name: Some(value), ..breakdown })
    } else if local == "code"@ {
        Ok(BreakdownDraft { code: Some(value), ..breakdown })
    } else if local == "localrate"@ {
        match decimal_of(value) {
            Some(rate) => Ok(BreakdownDraft { localrate: Some(rate), ..breakdown }),
            None => Err(DecodeError::Breakdown),
        }
    } else if local == "staterate"@ {
        match decimal_of(value) {
            Some(rate) => Ok(BreakdownDraft { staterate: Some(rate), ..breakdown }),
            None => Err(DecodeError::Breakdown),
        }
    } else {
        Ok(breakdown)
    }
}

/// The rate breakdown after the attributes that stand at `i` and after it,
/// and the index of the first token behind them.
pub open spec fn breakdown_attributes(
    tokens: Seq<XmlToken>,
    i: int,
    breakdown: BreakdownDraft,
) -> Result<(BreakdownDraft, int), DecodeError>
    decreases tokens.len() - i,
{
    if 0 <= i < tokens.len() && tokens[i] is Attribute {
        match with_breakdown_attribute(
            breakdown,
            tokens[i]->Attribute_0@,
            tokens[i]->Attribute_1@,
            tokens[i]->Attribute_2@,
        ) {
            Ok(next) => breakdown_attributes(tokens, i + 1, next),
            Err(e) => Err(e),
        }
    } else {
        Ok((breakdown, i))
    }
}

/// Whether an opening tag ends at `i`, with `>` or with `/>`.
pub open spec fn tag_ends(tokens: Seq<XmlToken>, i: int) -> bool {
    0 <= i < tokens.len() && (tokens[i] is HeadEnd || tokens[i] is EmptyEnd)
}

/// The address echo that the `addressline` element gives whose attributes
/// start at `i`: its attributes must be in order, and its tag must end
/// behind them.
pub open spec fn address_element(tokens: Seq<XmlToken>, i: int) -> Result<
    AddressView,
    DecodeError,
> {
    match address_attributes(tokens, i, blank_address()) {
        Ok((address, end)) => if tag_ends(tokens, end) {
            Ok(address)
        } else {
            Err(DecodeError::Markup)
        },
        Err(e) => Err(e),
    }
}

/// The rate breakdown that the `rate` element gives whose attributes start
/// at `i`: its attributes must be in order, its tag must end behind them,
/// and all four attributes must have been there.
pub open spec fn breakdown_element(tokens: Seq<XmlToken>, i: int) -> Result<
    TaxRateView,
    DecodeError,
> {
    match breakdown_attributes(tokens, i, blank_breakdown()) {
        Ok((breakdown, end)) => if tag_ends(tokens, end) {
            finished_breakdown(breakdown)
        } else {
            Err(DecodeError::Markup)
        },
        Err(e) => Err(e),
    }
}

/// The rate breakdown that a draft with all four attributes makes.
pub open spec fn finished_breakdown(breakdown: BreakdownDraft) -> Result<
    TaxRateView,
    DecodeError,
> {
    if breakdown.name is Some && breakdown.code is Some && breakdown.localrate is Some
        && breakdown.staterate is Some {
        Ok(
            TaxRateView {
                name: breakdown.name->0,
                code: breakdown.code->0,
                localrate: breakdown.localrate->0,
                staterate: breakdown.staterate->0,
            },
        )
    } else {
        Err(DecodeError::Breakdown)
    }
}

/// The draft after the content of the `response` element from token `i`
/// on, where `depth` opening tags have not been closed yet, that of
/// `response` among them.
///
/// Elements are matched by depth alone. An `addressline` or a `rate`
/// element directly inside `response` is read from its attributes, and
/// where there are several the last one counts; everything else inside
/// `response` is passed over. The content ends with the closing tag that
/// brings the depth to nothing; a document that ends before it, or stops
/// being well formed, has no decoding.
pub open spec fn content(tokens: Seq<XmlToken>, i: int, depth: nat, draft: Draft) -> Result<
    Draft,
    DecodeError,
>
    decreases tokens.len() - i,
{
    if !(0 <= i < tokens.len()) {
        Err(DecodeError::Markup)
    } else if tokens[i] is Invalid {
        Err(DecodeError::Markup)
    } else if tokens[i] is ElementClose {
        if depth <= 1 {
            Ok(draft)
        } else {
            content(tokens, i + 1, (depth - 1) as nat, draft)
        }
    } else if tokens[i] is HeadEnd {
        content(tokens, i + 1, depth + 1, draft)
    } else if depth == 1 && starts_element(tokens[i], "addressline"@) {
        match address_element(tokens, i + 1) {
            Ok(address) => content(tokens, i + 1, depth, Draft { address: Some(address), ..draft }),
            Err(e) => Err(e),
        }
    } else if depth == 1 && starts_element(tokens[i], "rate"@) {
        match breakdown_element(tokens, i + 1) {
            Ok(taxrate) => content(tokens, i + 1, depth, Draft { taxrate: Some(taxrate), ..draft }),
            Err(e) => Err(e),
        }
    } else {
        content(tokens, i + 1, depth, draft)
    }
}

/// The tax result that a draft makes: the location code, the rate, the
/// result code and the local rate must have been read, and are asked for in
/// this order.
pub open spec fn finished(draft: Draft) -> Result<TaxInfoView, DecodeError> {
    if draft.loccode is None {
        Err(DecodeError::Location)
    } else if draft.rate is None {
        Err(DecodeError::Rate)
    } else if draft.code is None {
        Err(DecodeError::Code)
    } else if draft.localrate is None {
        Err(DecodeError::LocalRate)
    } else {
        Ok(
            TaxInfoView {
                loccode: draft.loccode->0,
                rate: draft.rate->0,
                code: draft.code->0,
                localrate: draft.localrate,
                debughint: draft.debughint,
                address: draft.address,
                taxrate: draft.taxrate,
            },
        )
    }
}

/// What the tokens of a document decode to.
///
/// Before the root element nothing may stand but what
/// [`XmlToken::Other`] covers, and the root element must be `response`.
/// Its attributes are read first, then its content if it has any, and at
/// the end the draft must be complete. The first thing that goes wrong
/// decides the error.
pub open spec fn token_decoding(tokens: Seq<XmlToken>) -> Result<TaxInfoView, DecodeError> {
    let start = prolog_end(tokens, 0);
    if start < tokens.len() && starts_element(tokens[start], "response"@) {
        match response_attributes(tokens, start + 1, blank_draft()) {
            Err(e) => Err(e),
            Ok((draft, end)) => {
                if !tag_ends(tokens, end) {
                    Err(DecodeError::Markup)
                } else if tokens[end] is EmptyEnd {
                    finished(draft)
                } else {
                    match content(tokens, end + 1, 1, draft) {
                        Ok(full) => finished(full),
                        Err(e) => Err(e),
                    }
                }
            },
        }
    } else {
        Err(DecodeError::Markup)
    }
}

/// Whether `token` is an attribute with the plain name `name`.
pub open spec fn is_attribute(token: XmlToken, name: Seq<char>) -> bool {
    token matches XmlToken::Attribute(prefix, local, _) && prefix@.len() == 0 && local@ == name
}

/// A `response` element without content that has the four numbers as its
/// attributes, in the order in which the service writes them, decodes to
/// those numbers and to nothing else, wherever each of them is a number of
/// its kind.
pub proof fn plain_response_decodes(tokens: Seq<XmlToken>)
    requires
        tokens.len() == 6,
        starts_element(tokens[0], "response"@),
        is_attribute(tokens[1], "loccode"@),
        is_attribute(tokens[2], "localrate"@),
        is_attribute(tokens[3], "rate"@),
        is_attribute(tokens[4], "code"@),
        tokens[5] is EmptyEnd,
        i32_of(tokens[1]->Attribute_2@) is Some,
        decimal_of(tokens[2]->Attribute_2@) is Some,
        decimal_of(tokens[3]->Attribute_2@) is Some,
        code_of_text(tokens[4]->Attribute_2@) is Ok,
    ensures
        token_decoding(tokens) == Ok::<TaxInfoView, DecodeError>(
            TaxInfoView {
                loccode: i32_of(tokens[1]->Attribute_2@)->0,
                rate: decimal_of(tokens[3]->Attribute_2@)->0,
                code: code_of_text(tokens[4]->Attribute_2@)->Ok_0,
                localrate: decimal_of(tokens[2]->Attribute_2@),
                debughint: None,
                address: None,
                taxrate: None,
            },
        ),
{
    reveal_strlit("loccode");
    reveal_strlit("localrate");
    reveal_strlit("rate");
    reveal_strlit("code");
    reveal_with_fuel(response_attributes, 5);
    assert("localrate"@.len() == 9 && "loccode"@.len() == 7 && "rate"@.len() == 4 && "code"@.len()
        == 4);
    assert("rate"@[0] != "code"@[0]);
    assert(prolog_end(tokens, 0) == 0);
    let first = Draft { loccode: i32_of(tokens[1]->Attribute_2@), ..blank_draft() };
    let second = Draft { localrate: decimal_of(tokens[2]->Attribute_2@), ..first };
    let third = Draft { rate: decimal_of(tokens[3]->Attribute_2@), ..second };
    let fourth = Draft { code: Some(code_of_text(tokens[4]->Attribute_2@)->Ok_0), ..third };
    assert(response_attributes(tokens, 5, fourth) == Ok::<(Draft, int), DecodeError>((fourth, 5)));
    assert(response_attributes(tokens, 4, third) == Ok::<(Draft, int), DecodeError>((fourth, 5)));
    assert(response_attributes(tokens, 3, second) == Ok::<(Draft, int), DecodeError>((fourth, 5)));
    assert(response_attributes(tokens, 2, first) == Ok::<(Draft, int), DecodeError>((fourth, 5)));
    assert(response_attributes(tokens, 1, blank_draft()) == Ok::<(Draft, int), DecodeError>(
        (fourth, 5),
    ));
}

/// The outcome of a step with what it gave, if anything, as its view.
pub open spec fn viewed<T: View>(outcome: Result<T, DecodeError>) -> Result<T::V, DecodeError> {
    match outcome {
        Ok(value) => Ok(value@),
        Err(e) => Err(e),
    }
}

/// A response as far as it has been read.
struct Fields {
    loccode: Option<i32>,
    rate: Option<Decimal>,
    code: Option<Code>,
    localrate: Option<Decimal>,
    debughint: Option<String>,
    address: Option<Address>,
    taxrate: Option<TaxRate>,
}

impl View for Fields {
    type V = Draft;

    closed spec fn view(&self) -> Draft {
        Draft {
            loccode: self.loccode,
            rate: self.rate,
            code: self.code,
            localrate: self.localrate,
            debughint: text_view(self.debughint),
            address: match self.address {
                Some(address) => Some(address@),
                None => None,
            },
            taxrate: match self.taxrate {
                Some(taxrate) => Some(taxrate@),
                None => None,
            },
        }
    }
}

/// A rate breakdown as far as it has been read.
struct BreakdownFields {
    name: Option<String>,
    code: Option<String>,
    localrate: Option<Decimal>,
    staterate: Option<Decimal>,
}

impl View for BreakdownFields {
    type V = BreakdownDraft;

    closed spec fn view(&self) -> BreakdownDraft {
        BreakdownDraft {
            name: text_view(self.name),
            code: text_view(self.code),
            localrate: self.localrate,
            staterate: self.staterate,
        }
    }
}

/// Whether `token` is one that may stand before the root element.
fn is_other(token: &XmlToken) -> (other: bool)
    ensures
        other == (*token is Other),
{
    match token {
        XmlToken::Other => true,
        _ => false,
    }
}

/// Takes one attribute of the `response` element into the draft.
fn read_response_attribute(fields: Fields, prefix: &String, local: &String, value: &String) -> (outcome:
    Result<Fields, DecodeError>)
    ensures
        viewed(outcome) == with_response_attribute(fields@, prefix@, local@, value@),
{
    if !prefix.as_str().is_empty() {
        return Ok(fields);
    }
    let name = chars_of(local.as_str());
    let text = chars_of(value.as_str());
    if is_word(name.as_slice(), "loccode") {
        match parse_i32(text.as_slice()) {
            Some(loccode) => Ok(Fields { loccode: Some(loccode), ..fields }),
            None => Err(DecodeError::Location),
        }
    } else if is_word(name.as_slice(), "rate") {
        match parse_decimal(text.as_slice()) {
            Some(rate) => Ok(Fields { rate: Some(rate), ..fields }),
            None => Err(DecodeError::Rate),
        }
    } else if is_word(name.as_slice(), "code") {
        match Code::from_str(value.as_str()) {
            Ok(code) => Ok(Fields { code: Some(code), ..fields }),
            Err(e) => Err(e),
        }
    } else if is_word(name.as_slice(), "localrate") {
        match parse_decimal(text.as_slice()) {
            Some(rate) => Ok(Fields { localrate: Some(rate), ..fields }),
            None => Err(DecodeError::LocalRate),
        }
    } else if is_word(name.as_slice(), "debughint") {
        Ok(Fields { debughint: Some(value.clone()), ..fields })
    } else {
        Ok(fields)
    }
}

/// Reads the attributes of the `response` element, which start at `from`.
fn read_response_attributes(tokens: &Vec<XmlToken>, from: usize) -> (outcome: Result<
    (Fields, usize),
    DecodeError,
>)
    requires
        from <= tokens.len(),
    ensures
        match outcome {
            Ok((fields, end)) => from <= end <= tokens.len() && response_attributes(
                tokens@,
                from as int,
                blank_draft(),
            ) == Ok::<(Draft, int), DecodeError>((fields@, end as int)),
            Err(e) => response_attributes(tokens@, from as int, blank_draft()) == Err::<
                (Draft, int),
                DecodeError,
            >(e),
        },
{
    let mut fields = Fields {
        loccode: None,
        rate: None,
        code: None,
        localrate: None,
        debughint: None,
        address: None,
        taxrate: None,
    };
    let mut i: usize = from;
    while i < tokens.len()
        invariant
            from <= i <= tokens.len(),
            response_attributes(tokens@, from as int, blank_draft()) == response_attributes(
                tokens@,
                i as int,
                fields@,
            ),
        decreases tokens.len() - i,
    {
        match &tokens[i] {
            XmlToken::Attribute(prefix, local, value) => {
                match read_response_attribute(fields, prefix, local, value) {
                    Ok(next) => {
                        fields = next;
                    },
                    Err(e) => {
                        return Err(e);
                    },
                }
            },
            _ => {
                return Ok((fields, i));
            },
        }
        i += 1;
    }
    Ok((fields, i))
}

/// Takes one attribute of the `addressline` element into the address.
fn read_address_attribute(address: Address, prefix: &String, local: &String, value: &String) -> (outcome:
    Result<Address, DecodeError>)
    ensures
        viewed(outcome) == with_address_attribute(address@, prefix@, local@, value@),
{
    if !prefix.as_str().is_empty() {
        return Ok(address);
    }
    let name = chars_of(local.as_str());
    let text = chars_of(value.as_str());
    if is_word(name.as_slice(), "househigh") {
        match parse_u32(text.as_slice()) {
            Some(number) => Ok(Address { househigh: Some(number), ..address }),
            None => Err(DecodeError::Address),
        }
    } else if is_word(name.as_slice(), "houselow") {
        match parse_u32(text.as_slice()) {
            Some(number) => Ok(Address { houselow: Some(number), ..address }),
            None => Err(DecodeError::Address),
        }
    } else if is_word(name.as_slice(), "evenodd") {
        Ok(Address { evenodd: Some(value.clone()), ..address })
    } else if is_word(name.as_slice(), "street") {
        Ok(Address { street: Some(value.clone()), ..address })
    } else if is_word(name.as_slice(), "zip") {
        match parse_u32(text.as_slice()) {
            Some(number) => Ok(Address { zip: Some(number), ..address }),
            None => Err(DecodeError::Address),
        }
    } else if is_word(name.as_slice(), "plus4") {
        match parse_u32(text.as_slice()) {
            Some(number) => Ok(Address { plus4: Some(number), ..address }),
            None => Err(DecodeError::Address),
        }
    } else if is_word(name.as_slice(), "period") {
        Ok(Address { period: Some(value.clone()), ..address })
    } else if is_word(name.as_slice(), "rta") {
        Ok(Address { rta: Some(value.clone()), ..address })
    } else if is_word(name.as_slice(), "ptba") {
        Ok(Address { ptba: Some(value.clone()), ..address })
    } else if is_word(name.as_slice(), "cez") {
        Ok(Address { cez: Some(value.clone()), ..address })
    } else {
        Ok(address)
    }
}

/// Whether an opening tag ends at `at`.
fn is_tag_end(tokens: &Vec<XmlToken>, at: usize) -> (ends: bool)
    ensures
        ends == tag_ends(tokens@, at as int),
{
    if at >= tokens.len() {
        return false;
    }
    match &tokens[at] {
        XmlToken::HeadEnd => true,
        XmlToken::EmptyEnd => true,
        _ => false,
    }
}

/// Reads an `addressline` element from its attributes, which start at
/// `from`.
fn read_address(tokens: &Vec<XmlToken>, from: usize) -> (outcome: Result<Address, DecodeError>)
    requires
        from <= tokens.len(),
    ensures
        viewed(outcome) == address_element(tokens@, from as int),
{
    let mut address = Address {
        househigh: None,
        houselow: None,
        evenodd: None,
        street: None,
        zip: None,
        plus4: None,
        period: None,
        rta: None,
        ptba: None,
        cez: None,
    };
    let mut i: usize = from;
    while i < tokens.len()
        invariant
            from <= i <= tokens.len(),
            address_attributes(tokens@, from as int, blank_address()) == address_attributes(
                tokens@,
                i as int,
                address@,
            ),
        ensures
            address_attributes(tokens@, from as int, blank_address()) == Ok::<
                (AddressView, int),
                DecodeError,
            >((address@, i as int)),
        decreases tokens.len() - i,
    {
        match &tokens[i] {
            XmlToken::Attribute(prefix, local, value) => {
                match read_address_attribute(address, prefix, local, value) {
                    Ok(next) => {
                        address = next;
                    },
                    Err(e) => {
                        return Err(e);
                    },
                }
            },
            _ => {
                break ;
            },
        }
        i += 1;
    }
    if is_tag_end(tokens, i) {
        Ok(address)
    } else {
        Err(DecodeError::Markup)
    }
}

/// Takes one attribute of the `rate` element into the breakdown.
fn read_breakdown_attribute(
    breakdown: BreakdownFields,
    prefix: &String,
    local: &String,
    value: &String,
) -> (outcome: Result<BreakdownFields, DecodeError>)
    ensures
        viewed(outcome) == with_breakdown_attribute(breakdown@, prefix@, local@, value@),
{
    if !prefix.as_str().is_empty() {
        return Ok(breakdown);
    }
    let name = chars_of(local.as_str());
    let text = chars_of(value.as_str());
    if is_word(name.as_slice(), "name") {
        Ok(BreakdownFields { name: Some(value.clone()), ..breakdown })
    } else if is_word(name.as_slice(), "code") {
        Ok(BreakdownFields { code: Some(value.clone()), ..breakdown })
    } else if is_word(name.as_slice(), "localrate") {
        match parse_decimal(text.as_slice()) {
            Some(rate) => Ok(BreakdownFields { localrate: Some(rate), ..breakdown }),
            None => Err(DecodeError::Breakdown),
        }
    } else if is_word(name.as_slice(), "staterate") {
        match parse_decimal(text.as_slice()) {
            Some(rate) => Ok(BreakdownFields { staterate: Some(rate), ..breakdown }),
            None => Err(DecodeError::Breakdown),
        }
    } else {
        Ok(breakdown)
    }
}

/// Makes the rate breakdown of a draft.
fn finish_breakdown(breakdown: BreakdownFields) -> (outcome: Result<TaxRate, DecodeError>)
    ensures
        viewed(outcome) == finished_breakdown(breakdown@),
{
    match breakdown {
        BreakdownFields {
            name: Some(name),
            code: Some(code),
            localrate: Some(localrate),
            staterate: Some(staterate),
        } => Ok(TaxRate { name, code, localrate, staterate }),
        _ => Err(DecodeError::Breakdown),
    }
}

/// Reads a `rate` element from its attributes, which start at `from`.
fn read_breakdown(tokens: &Vec<XmlToken>, from: usize) -> (outcome: Result<TaxRate, DecodeError>)
    requires
        from <= tokens.len(),
    ensures
        viewed(outcome) == breakdown_element(tokens@, from as int),
{
    let mut breakdown = BreakdownFields { name: None, code: None, localrate: None, staterate: None };
    let mut i: usize = from;
    while i < tokens.len()
        invariant
            from <= i <= tokens.len(),
            breakdown_attributes(tokens@, from as int, blank_breakdown()) == breakdown_attributes(
                tokens@,
                i as int,
                breakdown@,
            ),
        ensures
            breakdown_attributes(tokens@, from as int, blank_breakdown()) == Ok::<
                (BreakdownDraft, int),
                DecodeError,
            >((breakdown@, i as int)),
        decreases tokens.len() - i,
    {
        match &tokens[i] {
            XmlToken::Attribute(prefix, local, value) => {
                match read_breakdown_attribute(breakdown, prefix, local, value) {
                    Ok(next) => {
                        breakdown = next;
                    },
                    Err(e) => {
                        return Err(e);
                    },
                }
            },
            _ => {
                break ;
            },
        }
        i += 1;
    }
    if is_tag_end(tokens, i) {
        finish_breakdown(breakdown)
    } else {
        Err(DecodeError::Markup)
    }
}

/// Reads the content of the `response` element, which starts at `from`.
fn read_content(tokens: &Vec<XmlToken>, from: usize, blank: Fields) -> (outcome: Result<
    Fields,
    DecodeError,
>)
    requires
        1 <= from <= tokens.len(),
    ensures
        viewed(outcome) == content(tokens@, from as int, 1, blank@),
{
    let mut fields = blank;
    let mut depth: usize = 1;
    let mut i: usize = from;
    while i < tokens.len()
        invariant
            from <= i <= tokens.len(),
            1 <= depth <= i,
            content(tokens@, from as int, 1, blank@) == content(
                tokens@,
                i as int,
                depth as nat,
                fields@,
            ),
        decreases tokens.len() - i,
    {
        match &tokens[i] {
            XmlToken::Invalid => {
                return Err(DecodeError::Markup);
            },
            XmlToken::ElementClose => {
                if depth <= 1 {
                    return Ok(fields);
                }
                depth -= 1;
            },
            XmlToken::HeadEnd => {
                depth += 1;
            },
            XmlToken::ElementStart(prefix, local) => {
                if depth == 1 && prefix.as_str().is_empty() {
                    let name = chars_of(local.as_str());
                    if is_word(name.as_slice(), "addressline") {
                        match read_address(tokens, i + 1) {
                            Ok(address) => {
                                fields = Fields { address: Some(address), ..fields };
                            },
                            Err(e) => {
                                return Err(e);
                            },
                        }
                    } else if is_word(name.as_slice(), "rate") {
                        match read_breakdown(tokens, i + 1) {
                            Ok(taxrate) => {
                                fields = Fields { taxrate: Some(taxrate), ..fields };
                            },
                            Err(e) => {
                                return Err(e);
                            },
                        }
                    }
                }
            },
            _ => {},
        }
        i += 1;
    }
    Err(DecodeError::Markup)
}

/// Makes the tax result of a draft.
fn finish(fields: Fields) -> (outcome: Result<TaxInfo, DecodeError>)
    ensures
        decoded_view(outcome) == finished(fields@),
{
    let loccode = match fields.loccode {
        Some(loccode) => loccode,
        None => {
            return Err(DecodeError::Location);
        },
    };
    let rate = match fields.rate {
        Some(rate) => rate,
        None => {
            return Err(DecodeError::Rate);
        },
    };
    let code = match fields.code {
        Some(code) => code,
        None => {
            return Err(DecodeError::Code);
        },
    };
    if fields.localrate.is_none() {
        return Err(DecodeError::LocalRate);
    }
    Ok(
        TaxInfo {
            loccode,
            rate,
            code,
            localrate: fields.localrate,
            debughint: fields.debughint,
            address: fields.address,
            taxrate: fields.taxrate,
        },
    )
}

/// Decodes an answer from the tokens of its document.
///
/// The outcome is that of [`token_decoding`], for any tokens whatever:
/// a tax result where the tokens are those of a `response` element with
/// its four numbers, and otherwise the error of the first thing that is
/// wrong with them.
pub fn decode_tokens(tokens: &Vec<XmlToken>) -> (outcome: Result<TaxInfo, DecodeError>)
    ensures
        decoded_view(outcome) == token_decoding(tokens@),
        outcome matches Ok(info) ==> info.localrate is Some,
{
    let mut start: usize = 0;
    while start < tokens.len() && is_other(&tokens[start])
        invariant
            start <= tokens.len(),
            prolog_end(tokens@, 0) == prolog_end(tokens@, start as int),
        decreases tokens.len() - start,
    {
        start += 1;
    }
    if start >= tokens.len() {
        return Err(DecodeError::Markup);
    }
    match &tokens[start] {
        XmlToken::ElementStart(prefix, local) => {
            let name = chars_of(local.as_str());
            if !prefix.as_str().is_empty() || !is_word(name.as_slice(), "response") {
                return Err(DecodeError::Markup);
            }
        },
        _ => {
            return Err(DecodeError::Markup);
        },
    }
    let (fields, end) = match read_response_attributes(tokens, start + 1) {
        Ok(read) => read,
        Err(e) => {
            return Err(e);
        },
    };
    if !is_tag_end(tokens, end) {
        return Err(DecodeError::Markup);
    }
    match &tokens[end] {
        XmlToken::EmptyEnd => finish(fields),
        _ => match read_content(tokens, end + 1, fields) {
            Ok(full) => finish(full),
            Err(e) => Err(e),
        },
    }
}

/// Decodes an answer in the document encoding.
///
/// The document is split into tokens by the tokenizer, and the tokens are
/// decoded by [`decode_tokens`]: the outcome is [`token_decoding`] of
/// [`document_tokens`] of the body.
pub fn decode_xml(body: &str) -> (outcome: Result<TaxInfo, DecodeError>)
    ensures
        decoded_view(outcome) == token_decoding(document_tokens(body@)),
        outcome matches Ok(info) ==> info.localrate is Some,
{
    let tokens = scan(body);
    decode_tokens(&tokens)
}

} // verus!
