//! The convenience entry point that reports whether formatting changed the
//! text.

use vstd::prelude::*;

use crate::configuration::Configuration;
use crate::format::content_with_newline;
use crate::format::format_outcome;
use crate::parse::err_located;
use crate::parse::parse_ok;
use crate::text::unicode_trim;
use crate::parse::ParseError;
use vstd::string::StringSliceAdditionalSpecFns;

verus! {

/// What a successful `format_text` run returns: the formatted text when it
/// differs from the original, nothing when formatting leaves it unchanged.
pub open spec fn format_text_outcome(
    text: Seq<char>,
    src: Seq<u8>,
    fname: Seq<char>,
    cfg: Configuration,
    o: Option<String>,
) -> bool {
    exists|s: Seq<char>|
        {
            &&& #[trigger] format_outcome(text, src, fname, cfg, s)
            &&& match o {
                Some(changed) => changed@ == s && s != text,
                None => s == text,
            }
        }
}

/// Formats the provided ledger text and returns the formatted text when the
/// formatter changed it, or nothing when no edits were necessary. It
/// succeeds exactly when `format` does, and forwards `format`'s error.
pub fn format_text(path: Option<&str>, text: &str, config: &Configuration) -> (r: Result<
    Option<String>,
    ParseError,
>)
    ensures
        ({
            let src = text.spec_bytes();
            let fname = match path {
                Some(p) => p@,
                None => "<memory>"@,
            };
            &&& r is Ok <==> (unicode_trim(text@).len() == 0 || parse_ok(
                content_with_newline(src),
            ))
            &&& r matches Ok(o) ==> format_text_outcome(text@, src, fname, *config, o)
            &&& r matches Err(e) ==> e.filename@ == fname && err_located(
                e,
                content_with_newline(src),
                fname,
            )
        }),
{
    let result = match crate::format(path, text, config) {
        Ok(s) => s,
        Err(e) => {
            return Err(e);
        },
    };
    let ghost src = text.spec_bytes();
    let ghost fname = match path {
        Some(p) => p@,
        None => "<memory>"@,
    };
    let ghost rv = result@;
    if crate::text::str_eq(result.as_str(), text) {
        proof {
            assert(format_text_outcome(text@, src, fname, *config, Option::<String>::None)) by {
                assert(format_outcome(text@, src, fname, *config, rv));
            }
        }
        Ok(None)
    } else {
        let ghost out = Some(result);
        proof {
            assert(format_text_outcome(text@, src, fname, *config, out)) by {
                assert(format_outcome(text@, src, fname, *config, rv));
            }
        }
        Ok(Some(result))
    }
}

} // verus!
