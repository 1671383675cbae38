//! The typed directive model: one value per top-level ledger entry, with the
//! byte span it covers in the original source and its source location.
//!
//! Text fields hold the bytes of the corresponding source slice (or, for
//! scanned currency tokens, synthesized bytes); the pretty-printing engine
//! only ever reads them.

use vstd::prelude::*;

verus! {

/// Byte offsets in the original source; half-open.
#[derive(Debug, Clone, Copy, PartialEq, Eq, Structural)]
pub struct Span {
    pub start: usize,
    pub end: usize,
}

impl Span {
    pub fn from_range(start: usize, end: usize) -> (s: Span)
        ensures
            s.start == start,
            s.end == end,
    {
        Span { start, end }
    }
}

/// Source location info attached to each top-level directive.
#[derive(Debug, Clone, PartialEq, Eq)]
pub struct Meta {
    pub filename: String,
    /// 1-based line number.
    pub line: usize,
    /// 1-based column number.
    pub column: usize,
}

/// A typed representation of top-level ledger directives/entries.
#[derive(Debug, Clone, PartialEq, Eq)]
pub enum Directive {
    Open(Open),
    Close(Close),
    Balance(Balance),
    Pad(Pad),
    Transaction(Transaction),
    Commodity(Commodity),
    Price(Price),
    Event(Event),
    Query(Query),
    Note(Note),
    Document(Document),
    Custom(Custom),
    Option(OptionDirective),
    Include(Include),
    Plugin(Plugin),
    Pushtag(TagDirective),
    Poptag(TagDirective),
    Pushmeta(Pushmeta),
    Popmeta(Popmeta),
    /// Any entry/directive that is not modeled; re-emitted verbatim.
    Raw(Raw),
}

#[derive(Debug, Clone, PartialEq, Eq)]
pub struct Raw {
    pub meta: Meta,
    pub kind: Vec<u8>,
    pub span: Span,
    pub text: Vec<u8>,
}

#[derive(Debug, Clone, PartialEq, Eq)]
pub struct Open {
    pub meta: Meta,
    pub span: Span,
    pub date: Vec<u8>,
    pub account: Vec<u8>,
    pub currencies: Vec<Vec<u8>>,
    pub opt_booking: Option<Vec<u8>>,
    pub comment: Option<Vec<u8>>,
    pub key_values: Vec<KeyValue>,
}

#[derive(Debug, Clone, PartialEq, Eq)]
pub struct Close {
    pub meta: Meta,
    pub span: Span,
    pub date: Vec<u8>,
    pub account: Vec<u8>,
    pub comment: Option<Vec<u8>>,
    pub key_values: Vec<KeyValue>,
}

#[derive(Debug, Clone, PartialEq, Eq)]
pub struct Balance {
    pub meta: Meta,
    pub span: Span,
    pub date: Vec<u8>,
    pub account: Vec<u8>,
    pub amount: Vec<u8>,
    pub comment: Option<Vec<u8>>,
    pub key_values: Vec<KeyValue>,
}

#[derive(Debug, Clone, PartialEq, Eq)]
pub struct Pad {
    pub meta: Meta,
    pub span: Span,
    pub date: Vec<u8>,
    pub account: Vec<u8>,
    pub from_account: Vec<u8>,
    pub comment: Option<Vec<u8>>,
    pub key_values: Vec<KeyValue>,
}

#[derive(Debug, Clone, PartialEq, Eq)]
pub struct Transaction {
    pub meta: Meta,
    pub span: Span,
    pub date: Vec<u8>,
    /// Transaction flag/token (e.g. `*`, `!`) when present.
    pub txn: Option<Vec<u8>>,
    pub payee: Option<Vec<u8>>,
    pub narration: Vec<u8>,
    /// Inline tag/link text on the header line.
    pub tags_links: Option<Vec<u8>>,
    pub comment: Option<Vec<u8>>,
    /// Metadata key/value lines attached to the transaction.
    pub key_values: Vec<KeyValue>,
    /// Postings within the transaction, in source order.
    pub postings: Vec<Posting>,
}

/// A metadata line attached to a directive or posting.
#[derive(Debug, Clone, PartialEq, Eq)]
pub struct KeyValue {
    pub meta: Meta,
    pub span: Span,
    pub key: Vec<u8>,
    pub value: Vec<u8>,
}

#[derive(Debug, Clone, PartialEq, Eq)]
pub struct Posting {
    pub meta: Meta,
    pub span: Span,
    pub opt_flag: Option<Vec<u8>>,
    pub account: Vec<u8>,
    pub amount: Option<Vec<u8>>,
    pub cost_spec: Option<Vec<u8>>,
    /// `@` for a per-unit price, `@@` for a total price.
    pub price_operator: Option<Vec<u8>>,
    pub price_annotation: Option<Vec<u8>>,
    pub comment: Option<Vec<u8>>,
}

#[derive(Debug, Clone, PartialEq, Eq)]
pub struct Commodity {
    pub meta: Meta,
    pub span: Span,
    pub date: Vec<u8>,
    pub currency: Vec<u8>,
    pub comment: Option<Vec<u8>>,
    pub key_values: Vec<KeyValue>,
}

#[derive(Debug, Clone, PartialEq, Eq)]
pub struct Price {
    pub meta: Meta,
    pub span: Span,
    pub date: Vec<u8>,
    pub currency: Vec<u8>,
    pub amount: Vec<u8>,
    pub comment: Option<Vec<u8>>,
    pub key_values: Vec<KeyValue>,
}

#[derive(Debug, Clone, PartialEq, Eq)]
pub struct Event {
    pub meta: Meta,
    pub span: Span,
    pub date: Vec<u8>,
    pub event_type: Vec<u8>,
    pub desc: Vec<u8>,
    pub comment: Option<Vec<u8>>,
    pub key_values: Vec<KeyValue>,
}

#[derive(Debug, Clone, PartialEq, Eq)]
pub struct Query {
    pub meta: Meta,
    pub span: Span,
    pub date: Vec<u8>,
    pub name: Vec<u8>,
    pub query: Vec<u8>,
    pub comment: Option<Vec<u8>>,
    pub key_values: Vec<KeyValue>,
}

#[derive(Debug, Clone, PartialEq, Eq)]
pub struct Note {
    pub meta: Meta,
    pub span: Span,
    pub date: Vec<u8>,
    pub account: Vec<u8>,
    pub note: Vec<u8>,
    pub comment: Option<Vec<u8>>,
    pub key_values: Vec<KeyValue>,
}

#[derive(Debug, Clone, PartialEq, Eq)]
pub struct Document {
    pub meta: Meta,
    pub span: Span,
    pub date: Vec<u8>,
    pub account: Vec<u8>,
    pub filename: Vec<u8>,
    pub tags_links: Option<Vec<u8>>,
    pub comment: Option<Vec<u8>>,
    pub key_values: Vec<KeyValue>,
}

#[derive(Debug, Clone, PartialEq, Eq)]
pub struct Custom {
    pub meta: Meta,
    pub span: Span,
    pub date: Vec<u8>,
    pub name: Vec<u8>,
    pub values: Vec<Vec<u8>>,
    pub comment: Option<Vec<u8>>,
    pub key_values: Vec<KeyValue>,
}

#[derive(Debug, Clone, PartialEq, Eq)]
pub struct OptionDirective {
    pub meta: Meta,
    pub span: Span,
    pub key: Vec<u8>,
    pub value: Vec<u8>,
}

#[derive(Debug, Clone, PartialEq, Eq)]
pub struct Include {
    pub meta: Meta,
    pub span: Span,
    pub filename: Vec<u8>,
}

#[derive(Debug, Clone, PartialEq, Eq)]
pub struct Plugin {
    pub meta: Meta,
    pub span: Span,
    pub name: Vec<u8>,
    pub config: Option<Vec<u8>>,
}

#[derive(Debug, Clone, PartialEq, Eq)]
pub struct TagDirective {
    pub meta: Meta,
    pub span: Span,
    pub tag: Vec<u8>,
}

#[derive(Debug, Clone, PartialEq, Eq)]
pub struct Pushmeta {
    pub meta: Meta,
    pub span: Span,
    pub key_value: Vec<u8>,
}

#[derive(Debug, Clone, PartialEq, Eq)]
pub struct Popmeta {
    pub meta: Meta,
    pub span: Span,
    pub key: Vec<u8>,
}

/// The byte span a directive covers in the original source.
pub open spec fn spec_directive_span(d: Directive) -> Span {
    match d {
        Directive::Open(x) => x.span,
        Directive::Close(x) => x.span,
        Directive::Balance(x) => x.span,
        Directive::Pad(x) => x.span,
        Directive::Transaction(x) => x.span,
        Directive::Commodity(x) => x.span,
        Directive::Price(x) => x.span,
        Directive::Event(x) => x.span,
        Directive::Query(x) => x.span,
        Directive::Note(x) => x.span,
        Directive::Document(x) => x.span,
        Directive::Custom(x) => x.span,
        Directive::Option(x) => x.span,
        Directive::Include(x) => x.span,
        Directive::Plugin(x) => x.span,
        Directive::Pushtag(x) => x.span,
        Directive::Poptag(x) => x.span,
        Directive::Pushmeta(x) => x.span,
        Directive::Popmeta(x) => x.span,
        Directive::Raw(x) => x.span,
    }
}

/// Whether a directive is a transaction; drives the blank-line floor at
/// transaction boundaries.
pub open spec fn spec_is_transaction(d: Directive) -> bool {
    match d {
        Directive::Transaction(_) => true,
        _ => false,
    }
}

} // verus!
