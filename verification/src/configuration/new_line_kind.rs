//! The newline style a formatted file uses.

use vstd::prelude::*;

use crate::text::lower_spec;
use vstd::string::StringSliceAdditionalSpecFns;
use crate::text::to_lower_bytes;
use crate::text::trim_bytes;
use crate::text::trim_spec;

verus! {

/// Newline style accepted by the formatter.
#[derive(Debug, Clone, Copy, PartialEq, Eq, Structural)]
pub enum NewLineKind {
    /// Line feed.
    LF,
    /// Carriage return + line feed.
    CRLF,
}

/// The canonical key under which a newline style is configured, after ASCII
/// lowercasing and trimming.
pub open spec fn newline_key(s: Seq<u8>) -> Seq<u8> {
    trim_spec(lower_spec(s))
}

impl NewLineKind {
    pub fn as_str(&self) -> (r: &'static str)
        ensures
            *self == NewLineKind::LF ==> r@ == "lf"@,
            *self == NewLineKind::CRLF ==> r@ == "crlf"@,
    {
        match self {
            NewLineKind::LF => "lf",
            NewLineKind::CRLF => "crlf",
        }
    }

    /// Parse a newline kind from a string. Accepts case-insensitive "lf" or
    /// "crlf", ignoring surrounding whitespace.
    pub fn parse(text: &str) -> (r: Result<Self, String>)
        ensures
            r == Ok::<NewLineKind, String>(NewLineKind::LF) <==> newline_key(text.spec_bytes())
                == "lf".spec_bytes(),
            r == Ok::<NewLineKind, String>(NewLineKind::CRLF) <==> newline_key(text.spec_bytes())
                == "crlf".spec_bytes(),
            r is Err ==> r->Err_0@ == "Unsupported new_line_kind: "@ + text@,
    {
        proof {
            lemma_lf_crlf_distinct();
        }
        let lowered = to_lower_bytes(text.as_bytes());
        let key = trim_bytes(lowered.as_slice());
        if crate::text::bytes_eq(key.as_slice(), "lf".as_bytes()) {
            Ok(NewLineKind::LF)
        } else if crate::text::bytes_eq(key.as_slice(), "crlf".as_bytes()) {
            Ok(NewLineKind::CRLF)
        } else {
            let mut msg = String::from_str("Unsupported new_line_kind: ");
            msg.append(text);
            Err(msg)
        }
    }
}

proof fn lemma_lf_crlf_distinct()
    ensures
        "lf".spec_bytes() != "crlf".spec_bytes(),
{
    reveal_strlit("lf");
    reveal_strlit("crlf");
    if "lf".spec_bytes() == "crlf".spec_bytes() {
        vstd::utf8::encode_utf8_decode_utf8("lf"@);
        vstd::utf8::encode_utf8_decode_utf8("crlf"@);
        assert("lf"@.len() == "crlf"@.len());
        assert(false);
    }
}

} // verus!
