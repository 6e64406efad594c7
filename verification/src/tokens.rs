//! The tokens of a document in the document encoding.
//!
//! Splitting a document into tokens is left to the reader of the
//! `strong-xml` crate; everything that is done with the tokens afterwards
//! is this library's own.

use vstd::prelude::*;
use strong_xml::xmlparser::{ElementEnd, Token};
use strong_xml::XmlReader;

verus! {

/// One token of a document, with what the decoder reads of it.
#[derive(Clone, Debug, PartialEq)]
pub enum XmlToken {
    /// The start of an element's opening tag: `<prefix:local`, or `<local`
    /// with an empty prefix.
    ElementStart(String, String),
    /// An attribute inside an opening tag, as prefix, local name and value:
    /// `prefix:local="value"`. The value is as it was written.
    Attribute(String, String, String),
    /// The `>` that ends an opening tag and begins the element's content.
    HeadEnd,
    /// The `/>` that ends the tag of an element without content.
    EmptyEnd,
    /// A closing tag.
    ElementClose,
    /// A declaration, a processing instruction, a comment, a part of a
    /// document type definition, text or a CDATA section.
    Other,
    /// The place where the document stops being well formed. The reader
    /// gives no token after it.
    Invalid,
}

/// The reader of `strong-xml`, which hands out the tokens of a document one
/// by one.
#[verifier::external_type_specification]
#[verifier::external_body]
pub struct ExXmlReader<'a>(XmlReader<'a>);

/// The tokens of the document `text`, in their order.
pub uninterp spec fn document_tokens(text: Seq<char>) -> Seq<XmlToken>;

/// The tokens that `reader` has yet to hand out, in their order.
pub uninterp spec fn pending_tokens(reader: XmlReader<'_>) -> Seq<XmlToken>;

/// Starts reading a document.
///
/// This is `XmlReader::new`. The contract claims only that the tokens
/// which the new reader will hand out are a function of the text;
/// [`document_tokens`] is the name of that function.
#[verifier::external_body]
fn open_reader<'a>(text: &'a str) -> (reader: XmlReader<'a>)
    ensures
        pending_tokens(reader) == document_tokens(text@),
{
    XmlReader::new(text)
}

/// Takes the next token from a reader.
///
/// This is `XmlReader::next`, which gives what the tokenizer of
/// `xmlparser` gives: the next token, an error where the document stops
/// being well formed, and nothing after the last token or after an error.
/// Of a token the names and the value are kept, and of the three ways in
/// which a tag ends their kind; an error becomes [`XmlToken::Invalid`].
#[verifier::external_body]
fn next_token(reader: &mut XmlReader<'_>) -> (token: Option<XmlToken>)
    ensures
        token == if pending_tokens(*old(reader)).len() > 0 {
            Some(pending_tokens(*old(reader))[0])
        } else {
            None
        },
        pending_tokens(*final(reader)) == if pending_tokens(*old(reader)).len() > 0 {
            pending_tokens(*old(reader)).skip(1)
        } else {
            pending_tokens(*old(reader))
        },
{
    Some(match reader.next()? {
        Ok(Token::ElementStart { prefix, local, .. }) => XmlToken::ElementStart(prefix.to_string(), local.to_string()),
        Ok(Token::Attribute { prefix, local, value, .. }) => XmlToken::Attribute(prefix.to_string(), local.to_string(), value.to_string()),
        Ok(Token::ElementEnd { end: ElementEnd::Open, .. }) => XmlToken::HeadEnd,
        Ok(Token::ElementEnd { end: ElementEnd::Empty, .. }) => XmlToken::EmptyEnd,
        Ok(Token::ElementEnd { end: ElementEnd::Close(..), .. }) => XmlToken::ElementClose,
        Ok(_) => XmlToken::Other,
        Err(_) => XmlToken::Invalid,
    })
}

/// Splits a document into its tokens.
pub fn scan(text: &str) -> (tokens: Vec<XmlToken>)
    ensures
        tokens@ == document_tokens(text@),
{
    let mut reader = open_reader(text);
    let mut tokens: Vec<XmlToken> = Vec::new();
    loop
        invariant
            tokens@ + pending_tokens(reader) == document_tokens(text@),
        ensures
            tokens@ == document_tokens(text@),
        decreases pending_tokens(reader).len(),
    {
        let ghost before = pending_tokens(reader);
        match next_token(&mut reader) {
            Some(token) => {
                proof {
                    assert(tokens@.push(token) + before.skip(1) =~= tokens@ + before);
                }
                tokens.push(token);
            },
            None => {
                proof {
                    assert(tokens@ + before =~= tokens@);
                }
                break ;
            },
        }
    }
    tokens
}

} // verus!
