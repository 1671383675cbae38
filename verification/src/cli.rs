//! The plain data the command-line front end hands the library: parsed
//! arguments, overrides, and the outcome of a run.

use vstd::prelude::*;

use crate::configuration::Configuration;
use crate::configuration::NewLineKind;
use crate::text::lower_spec;
use crate::text::to_lower_bytes;
use vstd::string::StringSliceAdditionalSpecFns;

verus! {

/// The command-line arguments, as plain values.
#[derive(Debug, Clone, PartialEq)]
pub struct Cli {
    /// Paths to ledger files or directories containing them.
    pub input: Vec<String>,
    /// Check if files are formatted without modifying them.
    pub check: bool,
    /// Override maximum line width.
    pub line_width: Option<u32>,
    /// Override indent width in spaces.
    pub indent_width: Option<u8>,
    /// Override newline style.
    pub new_line: Option<NewLineKind>,
}

/// The outcome of one formatter run over a set of files.
#[derive(Debug, Clone, Copy, PartialEq, Eq, Structural)]
pub struct RunOutcome {
    pub any_changed: bool,
}

/// Configuration overrides that outrank a configuration file's values.
#[derive(Debug, Clone, PartialEq, Eq, Structural)]
pub struct PartialConfiguration {
    pub line_width: Option<u32>,
    pub indent_width: Option<u8>,
    pub new_line_kind: Option<NewLineKind>,
}

impl Cli {
    /// The overrides this invocation carries.
    pub fn overrides(&self) -> (r: PartialConfiguration)
        ensures
            r.line_width == self.line_width,
            r.indent_width == self.indent_width,
            r.new_line_kind == self.new_line,
    {
        PartialConfiguration {
            line_width: self.line_width,
            indent_width: self.indent_width,
            new_line_kind: self.new_line,
        }
    }
}

impl PartialConfiguration {
    /// Applies the overrides: a present value replaces the configured one.
    pub fn apply(&self, config: &mut Configuration)
        ensures
            final(config).line_width == match self.line_width {
                Some(w) => w,
                None => old(config).line_width,
            },
            final(config).indent_width == match self.indent_width {
                Some(w) => w,
                None => old(config).indent_width,
            },
            final(config).new_line_kind == match self.new_line_kind {
                Some(k) => k,
                None => old(config).new_line_kind,
            },
            final(config).prefix_width == old(config).prefix_width,
            final(config).num_width == old(config).num_width,
            final(config).currency_column == old(config).currency_column,
            final(config).account_amount_spacing == old(config).account_amount_spacing,
            final(config).number_currency_spacing == old(config).number_currency_spacing,
    {
        match self.line_width {
            Some(w) => {
                config.line_width = w;
            },
            None => {},
        }
        match self.indent_width {
            Some(w) => {
                config.indent_width = w;
            },
            None => {},
        }
        match self.new_line_kind {
            Some(k) => {
                config.new_line_kind = k;
            },
            None => {},
        }
    }
}

/// One past the index of the last path separator before `upto`, or 0.
pub open spec fn last_sep(p: Seq<u8>, upto: int) -> int
    decreases upto,
{
    if upto <= 0 {
        0
    } else if 0 <= upto - 1 < p.len() && (p[upto - 1] == 47 || p[upto - 1] == 92) {
        upto
    } else {
        last_sep(p, upto - 1)
    }
}

/// The index of the last period before `upto`, or -1.
pub open spec fn last_dot(p: Seq<u8>, upto: int) -> int
    decreases upto,
{
    if upto <= 0 {
        -1
    } else if 0 <= upto - 1 < p.len() && p[upto - 1] == 46 {
        upto - 1
    } else {
        last_dot(p, upto - 1)
    }
}

/// The extension of a path: the bytes after the last period of its final
/// component, when that period is not the component's first byte.
pub open spec fn extension_of(p: Seq<u8>) -> Option<Seq<u8>> {
    let start = last_sep(p, p.len() as int);
    let dot = last_dot(p, p.len() as int);
    if dot > start {
        Some(p.subrange(dot + 1, p.len() as int))
    } else {
        None
    }
}

/// Whether a path names a file the formatter handles: its extension,
/// lowercased, is one of the supported ledger extensions.
pub open spec fn is_supported_spec(p: Seq<u8>) -> bool {
    match extension_of(p) {
        Some(e) => lower_spec(e) == "beancount".spec_bytes() || lower_spec(e)
            == "bean".spec_bytes(),
        None => false,
    }
}

pub fn is_supported_file(path: &str) -> (r: bool)
    ensures
        r == is_supported_spec(path.spec_bytes()),
{
    let p = path.as_bytes();
    let mut i: usize = p.len();
    while i > 0 && !(p[i - 1] == 47 || p[i - 1] == 92)
        invariant
            i <= p@.len(),
            last_sep(p@, p@.len() as int) == last_sep(p@, i as int),
        decreases i,
    {
        i = i - 1;
    }
    let sep: usize = i;
    proof {
        assert(last_sep(p@, p@.len() as int) == sep as int);
    }
    let mut d: usize = p.len();
    while d > 0 && p[d - 1] != 46
        invariant
            d <= p@.len(),
            last_dot(p@, p@.len() as int) == last_dot(p@, d as int),
        decreases d,
    {
        d = d - 1;
    }
    if d == 0 {
        return false;
    }
    let dot = d - 1;
    proof {
        assert(last_dot(p@, p@.len() as int) == dot as int);
    }
    if !(dot > sep) {
        return false;
    }
    let ext = crate::text::sub_bytes(p, dot + 1, p.len());
    let lowered = to_lower_bytes(ext.as_slice());
    crate::text::bytes_eq(lowered.as_slice(), "beancount".as_bytes()) || crate::text::bytes_eq(
        lowered.as_slice(),
        "bean".as_bytes(),
    )
}

/// Path separators normalized to forward slashes.
pub open spec fn posix_bytes(p: Seq<u8>) -> Seq<u8> {
    p.map_values(
        |b: u8|
            if b == 92 {
                47u8
            } else {
                b
            },
    )
}

/// The path with backslashes replaced by forward slashes, for display.
pub fn to_posix_path(path: &str) -> (r: String)
    ensures
        r@ == crate::text::utf8_lossy(posix_bytes(path.spec_bytes())),
{
    let p = path.as_bytes();
    let mut out: Vec<u8> = Vec::new();
    let mut i: usize = 0;
    while i < p.len()
        invariant
            i <= p@.len(),
            out@ =~= posix_bytes(p@.subrange(0, i as int)),
        decreases p@.len() - i,
    {
        let b = p[i];
        if b == 92 {
            out.push(47);
        } else {
            out.push(b);
        }
        proof {
            assert(p@.subrange(0, i + 1) =~= p@.subrange(0, i as int).push(p@[i as int]));
            assert(out@ =~= posix_bytes(p@.subrange(0, i + 1)));
        }
        i = i + 1;
    }
    proof {
        assert(p@.subrange(0, p@.len() as int) =~= p@);
    }
    crate::text::bytes_to_string(out.as_slice())
}

} // verus!
