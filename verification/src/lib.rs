//! A deterministic source-code formatter for plain-text ledger files.
//!
//! The library parses ledger source through an external grammar, extracts a
//! typed directive model, and re-renders the directives as canonical,
//! whitespace-normalized, column-aligned text that is semantically identical
//! to the input.

pub mod ast;
pub mod configuration;

mod cli;
mod format;
mod format_text;
pub mod laws;
mod parse;
mod text;
mod tree;

pub use cli::is_supported_file;
pub use cli::to_posix_path;
pub use cli::Cli;
pub use cli::PartialConfiguration;
pub use cli::RunOutcome;
pub use format_text::format_text;
pub use parse::err_located;
pub use parse::parse_currencies_from_text;
pub use parse::parse_directives;
pub use parse::parse_source;
pub use parse::ParseError;

use vstd::prelude::*;

use crate::configuration::Configuration;
use crate::format::content_with_newline;
use crate::format::format_outcome;
use vstd::string::StringSliceAdditionalSpecFns;
use vstd::string::StrSliceExecFns;

verus! {

/// Formats a ledger source text under a configuration.
///
/// The path is used only for diagnostics; blank input formats to an empty
/// string; input that the grammar cannot parse cleanly, or whose parse tree
/// holds a construct that cannot be extracted, is an error.
pub fn format(path: Option<&str>, source_text: &str, config: &Configuration) -> (r: Result<
    String,
    crate::parse::ParseError,
>)
    ensures
        ({
            let src = source_text.spec_bytes();
            let fname = match path {
                Some(p) => p@,
                None => "<memory>"@,
            };
            &&& crate::text::unicode_trim(source_text@).len() == 0 ==> (r matches Ok(s)
                && s@.len() == 0)
            &&& crate::text::unicode_trim(source_text@).len() > 0 ==> (r is Ok
                <==> crate::parse::parse_ok(content_with_newline(src)))
            &&& r matches Ok(s) ==> format_outcome(source_text@, src, fname, *config, s@)
            &&& r matches Err(e) ==> e.filename@ == fname && crate::parse::err_located(
                e,
                content_with_newline(src),
                fname,
            )
        }),
{
    let filename: &str = match path {
        Some(p) => p,
        None => "<memory>",
    };
    if crate::text::str_trim(source_text).is_empty() {
        return Ok(String::new());
    }
    let src_bytes = source_text.as_bytes_vec();
    let mut content = src_bytes;
    let has_final_newline = content.len() > 0 && content[content.len() - 1] == crate::text::LF;
    proof {
        if has_final_newline {
            assert(content@.subrange(content@.len() - 1, content@.len() as int) =~= seq![crate::text::LF]);
            assert(crate::text::ends_with(content@, seq![crate::text::LF]));
        } else {
            if crate::text::ends_with(content@, seq![crate::text::LF]) {
                assert(content@[content@.len() - 1] == content@.subrange(
                    content@.len() - 1,
                    content@.len() as int,
                )[0]);
                assert(false);
            }
        }
    }
    if !has_final_newline {
        content.push(crate::text::LF);
    }
    proof {
        assert(content@ == content_with_newline(source_text.spec_bytes()));
    }
    let directives = match crate::parse::parse_source(content.as_slice(), filename) {
        Ok(ds) => ds,
        Err(e) => {
            return Err(e);
        },
    };
    let rendered = crate::format::render_all(&directives, content.as_slice(), config);
    let finalized = crate::format::finalize(rendered.as_slice(), config.new_line_kind);
    let out = crate::text::bytes_to_string(finalized.as_slice());
    proof {
        let src = source_text.spec_bytes();
        let fname = match path {
            Some(p) => p@,
            None => "<memory>"@,
        };
        assert(crate::parse::directives_extracted(directives@, content_with_newline(src), fname));
    }
    Ok(out)
}

} // verus!
