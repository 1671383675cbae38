//! The directive extractor: walks the external concrete syntax tree once
//! and produces the ordered sequence of typed directives with their spans.
//!
//! Everything the extractor reads from the tree goes through the trusted
//! node accessors in `tree`; the contracts here relate each produced
//! directive to the node it was built from.

use vstd::prelude::*;

use crate::ast::Meta;
use crate::ast::Span;
use crate::format::slice_clamped_spec;
use crate::text::bytes_eq;
use crate::text::bytes_to_string;
use crate::text::sub_bytes;
use crate::tree::node_end_byte;
use crate::tree::node_end_of;
use crate::tree::node_field;
use crate::tree::node_field_of;
use crate::tree::node_kind;
use crate::tree::node_kind_of;
use crate::tree::node_named_child;
use crate::tree::node_named_child_count;
use crate::tree::node_named_child_of;
use crate::tree::node_named_count_of;
use crate::tree::node_col_of;
use crate::tree::node_row_of;
use crate::tree::node_start_byte;
use crate::tree::node_start_of;
use crate::tree::node_start_point;
use vstd::string::StringSliceAdditionalSpecFns;

verus! {

/// A structured extraction or parse failure, carrying the source location
/// it was found at.
#[derive(Debug, Clone, PartialEq, Eq)]
pub struct ParseError {
    pub filename: String,
    pub line: usize,
    pub column: usize,
    pub message: String,
}

/// Whether an error's location fields point at a node's start position
/// (rows and columns are reported 1-based).
pub open spec fn error_at(e: ParseError, n: tree_sitter::Node, filename: Seq<char>) -> bool {
    &&& e.filename@ == filename
    &&& e.line as int == crate::format::sat_add(node_row_of(n), 1)
    &&& e.column as int == crate::format::sat_add(node_col_of(n), 1)
}

/// Whether a `Meta` describes a node's start position.
pub open spec fn meta_matches(m: Meta, n: tree_sitter::Node, filename: Seq<char>) -> bool {
    &&& m.filename@ == filename
    &&& m.line as int == crate::format::sat_add(node_row_of(n), 1)
    &&& m.column as int == crate::format::sat_add(node_col_of(n), 1)
}

/// Whether a `Span` covers exactly a node's byte range.
pub open spec fn span_matches(s: Span, n: tree_sitter::Node) -> bool {
    s.start as int == node_start_of(n) && s.end as int == node_end_of(n)
}

/// The source bytes a node covers (clamped to the buffer).
pub open spec fn node_text_spec(n: tree_sitter::Node, src: Seq<u8>) -> Seq<u8> {
    slice_clamped_spec(src, node_start_of(n), node_end_of(n))
}

fn meta(node: &tree_sitter::Node, filename: &str) -> (m: Meta)
    ensures
        meta_matches(m, *node, filename@),
{
    let p = node_start_point(node);
    Meta {
        filename: String::from_str(filename),
        line: sat_add_usize(p.0, 1),
        column: sat_add_usize(p.1, 1),
    }
}

fn sat_add_usize(a: usize, b: usize) -> (r: usize)
    ensures
        r as int == crate::format::sat_add(a as int, b as int),
{
    if a > usize::MAX - b {
        usize::MAX
    } else {
        a + b
    }
}

fn parse_error(node: &tree_sitter::Node, filename: &str, message: String) -> (e: ParseError)
    ensures
        error_at(e, *node, filename@),
        e.message == message,
{
    let p = node_start_point(node);
    ParseError {
        filename: String::from_str(filename),
        line: sat_add_usize(p.0, 1),
        column: sat_add_usize(p.1, 1),
        message,
    }
}

fn span(node: &tree_sitter::Node) -> (s: Span)
    ensures
        span_matches(s, *node),
{
    Span::from_range(node_start_byte(node), node_end_byte(node))
}

/// The bytes a node covers in the source, clamped to the buffer.
fn node_text(node: &tree_sitter::Node, source: &[u8]) -> (r: Vec<u8>)
    ensures
        r@ == node_text_spec(*node, source@),
{
    let start = node_start_byte(node);
    let end = node_end_byte(node);
    let e: usize = if end <= source.len() {
        end
    } else {
        source.len()
    };
    let s: usize = if start <= e {
        start
    } else {
        e
    };
    sub_bytes(source, s, e)
}

/// The text of a node's named field, when the grammar exposes it.
pub open spec fn field_text_spec(n: tree_sitter::Node, field: Seq<u8>, src: Seq<u8>) -> Option<
    Seq<u8>,
> {
    match node_field_of(n, field) {
        Some(c) => Some(node_text_spec(c, src)),
        None => None,
    }
}

fn field_text(node: &tree_sitter::Node, field: &str, source: &[u8]) -> (r: Option<Vec<u8>>)
    ensures
        crate::format::opt_view(r) == field_text_spec(*node, field.spec_bytes(), source@),
{
    match node_field(node, field) {
        Some(c) => Some(node_text(&c, source)),
        None => None,
    }
}

fn required_field_text(node: &tree_sitter::Node, field: &str, source: &[u8], filename: &str)
    -> (r: Result<Vec<u8>, ParseError>)
    ensures
        r matches Ok(v) ==> field_text_spec(*node, field.spec_bytes(), source@) == Some(v@),
        r is Ok <==> node_field_of(*node, field.spec_bytes()) is Some,
        r matches Err(e) ==> error_at(e, *node, filename@),
{
    match field_text(node, field, source) {
        Some(v) => Ok(v),
        None => {
            let mut message = String::from_str("missing field `");
            message.append(field);
            message.append("` in `");
            let kind = node_kind(node);
            let kind_text = bytes_to_string(kind.as_slice());
            message.append(kind_text.as_str());
            message.append("`");
            Err(parse_error(node, filename, message))
        },
    }
}

/// The text of a node's first named child, if it has one.
pub open spec fn first_named_child_text_spec(n: tree_sitter::Node, src: Seq<u8>) -> Option<
    Seq<u8>,
> {
    if node_named_count_of(n) > 0 {
        Some(node_text_spec(node_named_child_of(n, 0), src))
    } else {
        None
    }
}

fn first_named_child_text(node: &tree_sitter::Node, source: &[u8]) -> (r: Option<Vec<u8>>)
    ensures
        crate::format::opt_view(r) == first_named_child_text_spec(*node, source@),
{
    let count = node_named_child_count(node);
    if count > 0 {
        match node_named_child(node, 0) {
            Some(c) => Some(node_text(&c, source)),
            None => None,
        }
    } else {
        None
    }
}

/// The index of the first named child at or after `ci` whose kind is
/// `kind`, or the named-child count when none is.
pub open spec fn first_kind_at(n: tree_sitter::Node, kind: Seq<u8>, ci: int) -> int
    decreases node_named_count_of(n) - ci,
{
    if ci < 0 || ci >= node_named_count_of(n) {
        node_named_count_of(n)
    } else if node_kind_of(node_named_child_of(n, ci)) == kind {
        ci
    } else {
        first_kind_at(n, kind, ci + 1)
    }
}

/// The index of the last named child before `ci` whose kind is `kind`, or
/// -1 when none is.
pub open spec fn last_kind_before(n: tree_sitter::Node, kind: Seq<u8>, ci: int) -> int
    decreases ci,
{
    if ci <= 0 {
        -1
    } else if ci - 1 < node_named_count_of(n) && node_kind_of(node_named_child_of(n, ci - 1))
        == kind {
        ci - 1
    } else {
        last_kind_before(n, kind, ci - 1)
    }
}

/// The first named child of the given kind at or after index `from`,
/// together with its index.
fn find_child_of_kind<'a>(node: &tree_sitter::Node<'a>, kind: &str, from: usize) -> (r: Option<
    (usize, tree_sitter::Node<'a>),
>)
    ensures
        ({
            let fi = first_kind_at(*node, kind.spec_bytes(), from as int);
            match r {
                Some(p) => p.0 as int == fi && fi < node_named_count_of(*node) && p.1
                    == node_named_child_of(*node, fi) && node_kind_of(p.1) == kind.spec_bytes(),
                None => fi >= node_named_count_of(*node),
            }
        }),
{
    let count = node_named_child_count(node);
    if from >= count {
        return None;
    }
    let mut ci: usize = from;
    while ci < count
        invariant
            from <= ci <= count,
            count as int == node_named_count_of(*node),
            count <= u32::MAX,
            first_kind_at(*node, kind.spec_bytes(), from as int) == first_kind_at(
                *node,
                kind.spec_bytes(),
                ci as int,
            ),
        decreases count - ci,
    {
        match node_named_child(node, ci) {
            Some(c) => {
                let k = node_kind(&c);
                if bytes_eq(k.as_slice(), kind.as_bytes()) {
                    return Some((ci, c));
                }
            },
            None => {},
        }
        ci = ci + 1;
    }
    None
}

proof fn lemma_last_kind_at_least(n: tree_sitter::Node, kind: Seq<u8>, ci: int, j: int)
    requires
        0 <= j < ci,
        j < node_named_count_of(n),
        node_kind_of(node_named_child_of(n, j)) == kind,
    ensures
        last_kind_before(n, kind, ci) >= j,
    decreases ci,
{
    if ci - 1 != j {
        if !(ci - 1 < node_named_count_of(n) && node_kind_of(node_named_child_of(n, ci - 1))
            == kind) {
            lemma_last_kind_at_least(n, kind, ci - 1, j);
        }
    }
}

/// The last named child of the given kind, if any.
fn last_child_of_kind<'a>(node: &tree_sitter::Node<'a>, kind: &str) -> (r: Option<
    tree_sitter::Node<'a>,
>)
    ensures
        ({
            let li = last_kind_before(*node, kind.spec_bytes(), node_named_count_of(*node));
            match r {
                Some(c) => li >= 0 && c == node_named_child_of(*node, li),
                None => li < 0,
            }
        }),
{
    let count = node_named_child_count(node);
    let mut ci: usize = count;
    while ci > 0
        invariant
            ci <= count,
            count as int == node_named_count_of(*node),
            count <= u32::MAX,
            last_kind_before(*node, kind.spec_bytes(), count as int) == last_kind_before(
                *node,
                kind.spec_bytes(),
                ci as int,
            ),
        decreases ci,
    {
        ci = ci - 1;
        match node_named_child(node, ci) {
            Some(c) => {
                let k = node_kind(&c);
                if bytes_eq(k.as_slice(), kind.as_bytes()) {
                    return Some(c);
                }
            },
            None => {},
        }
    }
    None
}

/// Whether an optional stored text matches an optional source slice.
pub open spec fn opt_text_matches(v: Option<Vec<u8>>, t: Option<Seq<u8>>) -> bool {
    match (v, t) {
        (Some(a), Some(b)) => a@ == b,
        (None, None) => true,
        _ => false,
    }
}

/// Whether a stored metadata line matches a `key_value` node.
pub open spec fn kv_matches(
    kv: crate::ast::KeyValue,
    c: tree_sitter::Node,
    src: Seq<u8>,
    f: Seq<char>,
) -> bool {
    &&& meta_matches(kv.meta, c, f)
    &&& span_matches(kv.span, c)
    &&& match first_named_child_text_spec(c, src) {
        Some(t) => kv.key@ == t,
        None => kv.key@.len() == 0,
    }
    &&& match field_text_spec(c, "value".spec_bytes(), src) {
        Some(t) => kv.value@ == t,
        None => kv.value@.len() == 0,
    }
}

/// Whether `kvs` holds exactly the metadata lines among the first `ci`
/// named children, in order.
pub open spec fn kvs_prefix(
    kvs: Seq<crate::ast::KeyValue>,
    n: tree_sitter::Node,
    src: Seq<u8>,
    f: Seq<char>,
    ci: int,
) -> bool
    decreases ci,
{
    if ci <= 0 {
        kvs.len() == 0
    } else {
        let c = node_named_child_of(n, ci - 1);
        if ci - 1 < node_named_count_of(n) && node_kind_of(c) == "key_value".spec_bytes() {
            &&& kvs.len() > 0
            &&& kv_matches(kvs.last(), c, src, f)
            &&& kvs_prefix(kvs.drop_last(), n, src, f, ci - 1)
        } else {
            kvs_prefix(kvs, n, src, f, ci - 1)
        }
    }
}

/// Collects the metadata lines among a node's named children, in order.
fn collect_key_values(node: &tree_sitter::Node, source: &[u8], filename: &str) -> (r: Vec<
    crate::ast::KeyValue,
>)
    ensures
        kvs_prefix(r@, *node, source@, filename@, node_named_count_of(*node)),
{
    let count = node_named_child_count(node);
    let mut out: Vec<crate::ast::KeyValue> = Vec::new();
    let mut ci: usize = 0;
    while ci < count
        invariant
            ci <= count,
            count as int == node_named_count_of(*node),
            count <= u32::MAX,
            kvs_prefix(out@, *node, source@, filename@, ci as int),
        decreases count - ci,
    {
        match node_named_child(node, ci) {
            Some(c) => {
                let kind = node_kind(&c);
                if bytes_eq(kind.as_slice(), "key_value".as_bytes()) {
                    let key = match first_named_child_text(&c, source) {
                        Some(k) => k,
                        None => Vec::new(),
                    };
                    let value = match field_text(&c, "value", source) {
                        Some(v) => v,
                        None => Vec::new(),
                    };
                    let kv = crate::ast::KeyValue {
                        meta: meta(&c, filename),
                        span: span(&c),
                        key,
                        value,
                    };
                    let ghost pre = out@;
                    out.push(kv);
                    proof {
                        assert(out@.drop_last() =~= pre);
                    }
                }
            },
            None => {},
        }
        ci = ci + 1;
    }
    out
}

/// Whether `ts` holds exactly the texts of the children of kind `kind`
/// among the first `ci` named children, in order.
pub open spec fn texts_prefix(
    ts: Seq<Vec<u8>>,
    n: tree_sitter::Node,
    kind: Seq<u8>,
    src: Seq<u8>,
    ci: int,
) -> bool
    decreases ci,
{
    if ci <= 0 {
        ts.len() == 0
    } else {
        let c = node_named_child_of(n, ci - 1);
        if ci - 1 < node_named_count_of(n) && node_kind_of(c) == kind {
            &&& ts.len() > 0
            &&& ts.last()@ == node_text_spec(c, src)
            &&& texts_prefix(ts.drop_last(), n, kind, src, ci - 1)
        } else {
            texts_prefix(ts, n, kind, src, ci - 1)
        }
    }
}

/// Collects the texts of all named children of one kind, in order.
fn collect_texts_of_kind(node: &tree_sitter::Node, kind: &str, source: &[u8]) -> (r: Vec<Vec<u8>>)
    ensures
        texts_prefix(r@, *node, kind.spec_bytes(), source@, node_named_count_of(*node)),
{
    let count = node_named_child_count(node);
    let mut out: Vec<Vec<u8>> = Vec::new();
    let mut ci: usize = 0;
    while ci < count
        invariant
            ci <= count,
            count as int == node_named_count_of(*node),
            count <= u32::MAX,
            texts_prefix(out@, *node, kind.spec_bytes(), source@, ci as int),
        decreases count - ci,
    {
        match node_named_child(node, ci) {
            Some(c) => {
                let k = node_kind(&c);
                if bytes_eq(k.as_slice(), kind.as_bytes()) {
                    let ghost pre = out@;
                    out.push(node_text(&c, source));
                    proof {
                        assert(out@.drop_last() =~= pre);
                    }
                }
            },
            None => {},
        }
        ci = ci + 1;
    }
    out
}

/// A tag token with its leading hash stripped.
pub open spec fn strip_hash(t: Seq<u8>) -> Seq<u8> {
    if t.len() > 0 && t[0] == crate::format::HASH {
        t.subrange(1, t.len() as int)
    } else {
        t
    }
}

fn strip_hash_bytes(t: Vec<u8>) -> (r: Vec<u8>)
    ensures
        r@ == strip_hash(t@),
{
    if t.len() > 0 && t[0] == crate::format::HASH {
        sub_bytes(t.as_slice(), 1, t.len())
    } else {
        t
    }
}

/// An uppercase ASCII letter.
pub open spec fn is_upper(b: u8) -> bool {
    65 <= b <= 90
}

/// An ASCII digit.
pub open spec fn is_digit_byte(b: u8) -> bool {
    48 <= b <= 57
}

/// A byte that may continue a currency token: uppercase letters, digits,
/// apostrophe, period, underscore, hyphen.
pub open spec fn is_currency_byte(b: u8) -> bool {
    is_upper(b) || is_digit_byte(b) || b == 39 || b == 46 || b == 95 || b == 45
}

fn is_currency_byte_exec(b: u8) -> (r: bool)
    ensures
        r == is_currency_byte(b),
{
    (65 <= b && b <= 90) || (48 <= b && b <= 57) || b == 39 || b == 46 || b == 95 || b == 45
}

/// The end of a currency-byte run starting at `i`.
pub open spec fn currency_run_end(s: Seq<u8>, i: int) -> int
    decreases s.len() - i,
{
    if i < 0 || i >= s.len() {
        s.len() as int
    } else if is_currency_byte(s[i]) {
        currency_run_end(s, i + 1)
    } else {
        i
    }
}

proof fn lemma_currency_run_end_bounds(s: Seq<u8>, i: int)
    requires
        0 <= i <= s.len(),
    ensures
        i <= currency_run_end(s, i) <= s.len(),
    decreases s.len() - i,
{
    if i < s.len() && is_currency_byte(s[i]) {
        lemma_currency_run_end_bounds(s, i + 1);
    }
}

fn currency_run_end_exec(s: &[u8], i: usize) -> (r: usize)
    requires
        i <= s@.len(),
    ensures
        r as int == currency_run_end(s@, i as int),
        i <= r <= s@.len(),
    decreases s@.len() - i,
{
    proof {
        lemma_currency_run_end_bounds(s@, i as int);
    }
    let mut j: usize = i;
    while j < s.len() && is_currency_byte_exec(s[j])
        invariant
            i <= j <= s@.len(),
            currency_run_end(s@, i as int) == currency_run_end(s@, j as int),
        decreases s@.len() - j,
    {
        j = j + 1;
    }
    j
}

/// The largest end in `(i, j]` whose last byte may close a currency token
/// (an uppercase letter or digit), or `i + 1` — the leading letter alone.
pub open spec fn currency_tail_end(s: Seq<u8>, i: int, j: int) -> int
    decreases j - i,
{
    if j <= i + 1 {
        i + 1
    } else if 0 <= j - 1 < s.len() && (is_upper(s[j - 1]) || is_digit_byte(s[j - 1])) {
        j
    } else {
        currency_tail_end(s, i, j - 1)
    }
}

proof fn lemma_currency_tail_bounds(s: Seq<u8>, i: int, j: int)
    requires
        i + 1 <= j,
    ensures
        i + 1 <= currency_tail_end(s, i, j) <= j,
    decreases j - i,
{
    if j > i + 1 && !(0 <= j - 1 < s.len() && (is_upper(s[j - 1]) || is_digit_byte(s[j - 1]))) {
        lemma_currency_tail_bounds(s, i, j - 1);
    }
}

/// The end of the longest currency token starting at `i` (which holds an
/// uppercase letter): up to 22 bytes of the currency class after the
/// leading letter, closed by an uppercase letter or digit — 24 bytes at
/// most — or the leading letter alone.
pub open spec fn currency_token_end(s: Seq<u8>, i: int) -> int {
    let run = currency_run_end(s, i + 1);
    let capped = if run > i + 24 {
        i + 24
    } else {
        run
    };
    currency_tail_end(s, i, capped)
}

proof fn lemma_currency_token_bounds(s: Seq<u8>, i: int)
    requires
        0 <= i < s.len(),
    ensures
        i + 1 <= currency_token_end(s, i) <= s.len(),
{
    lemma_currency_run_end_bounds(s, i + 1);
    let run = currency_run_end(s, i + 1);
    let capped = if run > i + 24 {
        i + 24
    } else {
        run
    };
    lemma_currency_tail_bounds(s, i, capped);
}

fn currency_token_end_exec(s: &[u8], i: usize) -> (r: usize)
    requires
        i < s@.len(),
    ensures
        r as int == currency_token_end(s@, i as int),
        i < r <= s@.len(),
{
    proof {
        lemma_currency_token_bounds(s@, i as int);
    }
    let n = s.len();
    let run = currency_run_end_exec(s, i + 1);
    let capped: usize = if run - i > 24 {
        i + 24
    } else {
        run
    };
    let mut j: usize = capped;
    while j > i + 1 && !((65 <= s[j - 1] && s[j - 1] <= 90) || (48 <= s[j - 1] && s[j - 1] <= 57))
        invariant
            i + 1 <= j <= capped <= s@.len(),
            currency_tail_end(s@, i as int, capped as int) == currency_tail_end(
                s@,
                i as int,
                j as int,
            ),
        decreases j,
    {
        j = j - 1;
    }
    j
}

/// One step of the currency scan: from each uppercase letter, the longest
/// token of the pattern is taken — the leading letter, at most 22 further
/// bytes drawn from uppercase letters, digits, apostrophe, period,
/// underscore and hyphen, closed by an uppercase letter or digit — and the
/// scan resumes right after it, so every match is collected in order.
pub open spec fn currencies_go(s: Seq<u8>, i: int, acc: Seq<Seq<u8>>) -> Seq<Seq<u8>>
    decreases s.len() - i,
    via currencies_go_decreases
{
    if i < 0 || i >= s.len() {
        acc
    } else if !is_upper(s[i]) {
        currencies_go(s, i + 1, acc)
    } else {
        let j = currency_token_end(s, i);
        currencies_go(s, j, acc.push(s.subrange(i, j)))
    }
}

#[via_fn]
proof fn currencies_go_decreases(s: Seq<u8>, i: int, acc: Seq<Seq<u8>>) {
    if 0 <= i < s.len() && is_upper(s[i]) {
        lemma_currency_token_bounds(s, i);
    }
}

/// Every currency token found in a text, in order: the matches of the
/// pattern "an uppercase letter, followed by up to 22 bytes drawn from
/// uppercase letters, digits, apostrophe, period, underscore, hyphen,
/// ending in an uppercase letter or digit", with the single leading letter
/// itself the shortest match.
pub open spec fn currencies_spec(s: Seq<u8>) -> Seq<Seq<u8>> {
    currencies_go(s, 0, Seq::empty())
}

/// Scans currency tokens out of the raw text of a currency list.
pub fn parse_currencies_from_text(text: &[u8]) -> (r: Vec<Vec<u8>>)
    ensures
        crate::format::vecs_views(r@) == currencies_spec(text@),
{
    let mut out: Vec<Vec<u8>> = Vec::new();
    let mut i: usize = 0;
    proof {
        assert(crate::format::vecs_views(out@) =~= Seq::<Seq<u8>>::empty());
    }
    while i < text.len()
        invariant
            i <= text@.len(),
            currencies_spec(text@) == currencies_go(
                text@,
                i as int,
                crate::format::vecs_views(out@),
            ),
        decreases text@.len() - i,
    {
        let b = text[i];
        if !(65 <= b && b <= 90) {
            i = i + 1;
        } else {
            let j = currency_token_end_exec(text, i);
            let tok = sub_bytes(text, i, j);
            let ghost pre = crate::format::vecs_views(out@);
            out.push(tok);
            proof {
                assert(crate::format::vecs_views(out@) =~= pre.push(
                    text@.subrange(i as int, j as int),
                ));
            }
            i = j;
        }
    }
    out
}

/// Whether a stored optional text matches an optional field of a node.
pub open spec fn opt_field_matches(
    v: Option<Vec<u8>>,
    n: tree_sitter::Node,
    field: Seq<u8>,
    src: Seq<u8>,
) -> bool {
    opt_text_matches(v, field_text_spec(n, field, src))
}

pub open spec fn open_ok(n: tree_sitter::Node) -> bool {
    node_field_of(n, "date".spec_bytes()) is Some && node_field_of(
        n,
        "account".spec_bytes(),
    ) is Some
}

pub open spec fn open_matches(
    o: crate::ast::Open,
    n: tree_sitter::Node,
    src: Seq<u8>,
    f: Seq<char>,
) -> bool {
    &&& meta_matches(o.meta, n, f)
    &&& span_matches(o.span, n)
    &&& field_text_spec(n, "date".spec_bytes(), src) == Some(o.date@)
    &&& field_text_spec(n, "account".spec_bytes(), src) == Some(o.account@)
    &&& opt_field_matches(o.opt_booking, n, "opt_booking".spec_bytes(), src)
    &&& opt_field_matches(o.comment, n, "comment".spec_bytes(), src)
    &&& ({
        let fi = first_kind_at(n, "currency".spec_bytes(), 0);
        let li = last_kind_before(n, "currency".spec_bytes(), node_named_count_of(n));
        if fi < node_named_count_of(n) {
            crate::format::vecs_views(o.currencies@) == currencies_spec(
                slice_clamped_spec(
                    src,
                    node_start_of(node_named_child_of(n, fi)),
                    node_end_of(node_named_child_of(n, li)),
                ),
            )
        } else {
            o.currencies@.len() == 0
        }
    })
    &&& kvs_prefix(o.key_values@, n, src, f, node_named_count_of(n))
}

fn parse_open(node: &tree_sitter::Node, source: &[u8], filename: &str) -> (r: Result<
    crate::ast::Directive,
    ParseError,
>)
    ensures
        r is Ok <==> open_ok(*node),
        r matches Ok(d) ==> d matches crate::ast::Directive::Open(o) && open_matches(
            o,
            *node,
            source@,
            filename@,
        ),
        r matches Err(e) ==> error_at(e, *node, filename@),
{
    let date = match required_field_text(node, "date", source, filename) {
        Ok(v) => v,
        Err(e) => {
            return Err(e);
        },
    };
    let account = match required_field_text(node, "account", source, filename) {
        Ok(v) => v,
        Err(e) => {
            return Err(e);
        },
    };
    let opt_booking = field_text(node, "opt_booking", source);
    let comment = field_text(node, "comment", source);
    // the grammar exposes the listed currencies as individual tokens; the
    // span from the first to the last is re-scanned as one text
    let currencies: Vec<Vec<u8>> = match find_child_of_kind(node, "currency", 0) {
        Some(first) => {
            proof {
                lemma_last_kind_at_least(
                    *node,
                    "currency".spec_bytes(),
                    node_named_count_of(*node),
                    first.0 as int,
                );
            }
            let last = last_child_of_kind(node, "currency");
            let start = node_start_byte(&first.1);
            let end = match last {
                Some(l) => node_end_byte(&l),
                None => start,
            };
            let e: usize = if end <= source.len() {
                end
            } else {
                source.len()
            };
            let st: usize = if start <= e {
                start
            } else {
                e
            };
            let text = sub_bytes(source, st, e);
            parse_currencies_from_text(text.as_slice())
        },
        None => Vec::new(),
    };
    proof {
        if first_kind_at(*node, "currency".spec_bytes(), 0) >= node_named_count_of(*node) {
            assert(crate::format::vecs_views(Seq::<Vec<u8>>::empty()) =~= Seq::<Seq<u8>>::empty());
        }
    }
    let key_values = collect_key_values(node, source, filename);
    Ok(
        crate::ast::Directive::Open(
            crate::ast::Open {
                meta: meta(node, filename),
                span: span(node),
                date,
                account,
                currencies,
                opt_booking,
                comment,
                key_values,
            },
        ),
    )
}

pub open spec fn close_ok(n: tree_sitter::Node) -> bool {
    node_field_of(n, "date".spec_bytes()) is Some && node_field_of(
        n,
        "account".spec_bytes(),
    ) is Some
}

pub open spec fn close_matches(
    o: crate::ast::Close,
    n: tree_sitter::Node,
    src: Seq<u8>,
    f: Seq<char>,
) -> bool {
    &&& meta_matches(o.meta, n, f)
    &&& span_matches(o.span, n)
    &&& field_text_spec(n, "date".spec_bytes(), src) == Some(o.date@)
    &&& field_text_spec(n, "account".spec_bytes(), src) == Some(o.account@)
    &&& opt_field_matches(o.comment, n, "comment".spec_bytes(), src)
    &&& kvs_prefix(o.key_values@, n, src, f, node_named_count_of(n))
}

fn parse_close(node: &tree_sitter::Node, source: &[u8], filename: &str) -> (r: Result<
    crate::ast::Directive,
    ParseError,
>)
    ensures
        r is Ok <==> close_ok(*node),
        r matches Ok(d) ==> d matches crate::ast::Directive::Close(o) && close_matches(
            o,
            *node,
            source@,
            filename@,
        ),
        r matches Err(e) ==> error_at(e, *node, filename@),
{
    let date = match required_field_text(node, "date", source, filename) {
        Ok(v) => v,
        Err(e) => {
            return Err(e);
        },
    };
    let account = match required_field_text(node, "account", source, filename) {
        Ok(v) => v,
        Err(e) => {
            return Err(e);
        },
    };
    let comment = field_text(node, "comment", source);
    let key_values = collect_key_values(node, source, filename);
    Ok(
        crate::ast::Directive::Close(
            crate::ast::Close {
                meta: meta(node, filename),
                span: span(node),
                date,
                account,
                comment,
                key_values,
            },
        ),
    )
}

pub open spec fn balance_ok(n: tree_sitter::Node) -> bool {
    &&& node_field_of(n, "date".spec_bytes()) is Some
    &&& node_field_of(n, "account".spec_bytes()) is Some
    &&& (node_field_of(n, "amount".spec_bytes()) is Some || node_named_count_of(n) > 0)
}

pub open spec fn balance_matches(
    o: crate::ast::Balance,
    n: tree_sitter::Node,
    src: Seq<u8>,
    f: Seq<char>,
) -> bool {
    &&& meta_matches(o.meta, n, f)
    &&& span_matches(o.span, n)
    &&& field_text_spec(n, "date".spec_bytes(), src) == Some(o.date@)
    &&& field_text_spec(n, "account".spec_bytes(), src) == Some(o.account@)
    &&& match field_text_spec(n, "amount".spec_bytes(), src) {
        Some(t) => o.amount@ == t,
        None => first_named_child_text_spec(n, src) == Some(o.amount@),
    }
    &&& opt_field_matches(o.comment, n, "comment".spec_bytes(), src)
    &&& kvs_prefix(o.key_values@, n, src, f, node_named_count_of(n))
}

fn parse_balance(node: &tree_sitter::Node, source: &[u8], filename: &str) -> (r: Result<
    crate::ast::Directive,
    ParseError,
>)
    ensures
        r is Ok <==> balance_ok(*node),
        r matches Ok(d) ==> d matches crate::ast::Directive::Balance(o) && balance_matches(
            o,
            *node,
            source@,
            filename@,
        ),
        r matches Err(e) ==> error_at(e, *node, filename@),
{
    let date = match required_field_text(node, "date", source, filename) {
        Ok(v) => v,
        Err(e) => {
            return Err(e);
        },
    };
    let account = match required_field_text(node, "account", source, filename) {
        Ok(v) => v,
        Err(e) => {
            return Err(e);
        },
    };
    let amount = match field_text(node, "amount", source) {
        Some(a) => a,
        None => match first_named_child_text(node, source) {
            Some(a) => a,
            None => {
                return Err(parse_error(node, filename, String::from_str("missing amount")));
            },
        },
    };
    let comment = field_text(node, "comment", source);
    let key_values = collect_key_values(node, source, filename);
    Ok(
        crate::ast::Directive::Balance(
            crate::ast::Balance {
                meta: meta(node, filename),
                span: span(node),
                date,
                account,
                amount,
                comment,
                key_values,
            },
        ),
    )
}

pub open spec fn pad_ok(n: tree_sitter::Node) -> bool {
    &&& node_field_of(n, "date".spec_bytes()) is Some
    &&& node_field_of(n, "account".spec_bytes()) is Some
    &&& node_field_of(n, "from_account".spec_bytes()) is Some
}

pub open spec fn pad_matches(
    o: crate::ast::Pad,
    n: tree_sitter::Node,
    src: Seq<u8>,
    f: Seq<char>,
) -> bool {
    &&& meta_matches(o.meta, n, f)
    &&& span_matches(o.span, n)
    &&& field_text_spec(n, "date".spec_bytes(), src) == Some(o.date@)
    &&& field_text_spec(n, "account".spec_bytes(), src) == Some(o.account@)
    &&& field_text_spec(n, "from_account".spec_bytes(), src) == Some(o.from_account@)
    &&& opt_field_matches(o.comment, n, "comment".spec_bytes(), src)
    &&& kvs_prefix(o.key_values@, n, src, f, node_named_count_of(n))
}

fn parse_pad(node: &tree_sitter::Node, source: &[u8], filename: &str) -> (r: Result<
    crate::ast::Directive,
    ParseError,
>)
    ensures
        r is Ok <==> pad_ok(*node),
        r matches Ok(d) ==> d matches crate::ast::Directive::Pad(o) && pad_matches(
            o,
            *node,
            source@,
            filename@,
        ),
        r matches Err(e) ==> error_at(e, *node, filename@),
{
    let date = match required_field_text(node, "date", source, filename) {
        Ok(v) => v,
        Err(e) => {
            return Err(e);
        },
    };
    let account = match required_field_text(node, "account", source, filename) {
        Ok(v) => v,
        Err(e) => {
            return Err(e);
        },
    };
    let from_account = match required_field_text(node, "from_account", source, filename) {
        Ok(v) => v,
        Err(e) => {
            return Err(e);
        },
    };
    let comment = field_text(node, "comment", source);
    let key_values = collect_key_values(node, source, filename);
    Ok(
        crate::ast::Directive::Pad(
            crate::ast::Pad {
                meta: meta(node, filename),
                span: span(node),
                date,
                account,
                from_account,
                comment,
                key_values,
            },
        ),
    )
}

pub open spec fn commodity_ok(n: tree_sitter::Node) -> bool {
    node_field_of(n, "date".spec_bytes()) is Some && node_field_of(
        n,
        "currency".spec_bytes(),
    ) is Some
}

pub open spec fn commodity_matches(
    o: crate::ast::Commodity,
    n: tree_sitter::Node,
    src: Seq<u8>,
    f: Seq<char>,
) -> bool {
    &&& meta_matches(o.meta, n, f)
    &&& span_matches(o.span, n)
    &&& field_text_spec(n, "date".spec_bytes(), src) == Some(o.date@)
    &&& field_text_spec(n, "currency".spec_bytes(), src) == Some(o.currency@)
    &&& opt_field_matches(o.comment, n, "comment".spec_bytes(), src)
    &&& kvs_prefix(o.key_values@, n, src, f, node_named_count_of(n))
}

fn parse_commodity(node: &tree_sitter::Node, source: &[u8], filename: &str) -> (r: Result<
    crate::ast::Directive,
    ParseError,
>)
    ensures
        r is Ok <==> commodity_ok(*node),
        r matches Ok(d) ==> d matches crate::ast::Directive::Commodity(o) && commodity_matches(
            o,
            *node,
            source@,
            filename@,
        ),
        r matches Err(e) ==> error_at(e, *node, filename@),
{
    let date = match required_field_text(node, "date", source, filename) {
        Ok(v) => v,
        Err(e) => {
            return Err(e);
        },
    };
    let currency = match required_field_text(node, "currency", source, filename) {
        Ok(v) => v,
        Err(e) => {
            return Err(e);
        },
    };
    let comment = field_text(node, "comment", source);
    let key_values = collect_key_values(node, source, filename);
    Ok(
        crate::ast::Directive::Commodity(
            crate::ast::Commodity {
                meta: meta(node, filename),
                span: span(node),
                date,
                currency,
                comment,
                key_values,
            },
        ),
    )
}

pub open spec fn price_ok(n: tree_sitter::Node) -> bool {
    &&& node_field_of(n, "date".spec_bytes()) is Some
    &&& node_field_of(n, "currency".spec_bytes()) is Some
    &&& node_field_of(n, "amount".spec_bytes()) is Some
}

pub open spec fn price_matches(
    o: crate::ast::Price,
    n: tree_sitter::Node,
    src: Seq<u8>,
    f: Seq<char>,
) -> bool {
    &&& meta_matches(o.meta, n, f)
    &&& span_matches(o.span, n)
    &&& field_text_spec(n, "date".spec_bytes(), src) == Some(o.date@)
    &&& field_text_spec(n, "currency".spec_bytes(), src) == Some(o.currency@)
    &&& field_text_spec(n, "amount".spec_bytes(), src) == Some(o.amount@)
    &&& opt_field_matches(o.comment, n, "comment".spec_bytes(), src)
    &&& kvs_prefix(o.key_values@, n, src, f, node_named_count_of(n))
}

fn parse_price(node: &tree_sitter::Node, source: &[u8], filename: &str) -> (r: Result<
    crate::ast::Directive,
    ParseError,
>)
    ensures
        r is Ok <==> price_ok(*node),
        r matches Ok(d) ==> d matches crate::ast::Directive::Price(o) && price_matches(
            o,
            *node,
            source@,
            filename@,
        ),
        r matches Err(e) ==> error_at(e, *node, filename@),
{
    let date = match required_field_text(node, "date", source, filename) {
        Ok(v) => v,
        Err(e) => {
            return Err(e);
        },
    };
    let currency = match required_field_text(node, "currency", source, filename) {
        Ok(v) => v,
        Err(e) => {
            return Err(e);
        },
    };
    let amount = match required_field_text(node, "amount", source, filename) {
        Ok(v) => v,
        Err(e) => {
            return Err(e);
        },
    };
    let comment = field_text(node, "comment", source);
    let key_values = collect_key_values(node, source, filename);
    Ok(
        crate::ast::Directive::Price(
            crate::ast::Price {
                meta: meta(node, filename),
                span: span(node),
                date,
                currency,
                amount,
                comment,
                key_values,
            },
        ),
    )
}

pub open spec fn event_ok(n: tree_sitter::Node) -> bool {
    &&& node_field_of(n, "date".spec_bytes()) is Some
    &&& node_field_of(n, "type".spec_bytes()) is Some
    &&& node_field_of(n, "desc".spec_bytes()) is Some
}

pub open spec fn event_matches(
    o: crate::ast::Event,
    n: tree_sitter::Node,
    src: Seq<u8>,
    f: Seq<char>,
) -> bool {
    &&& meta_matches(o.meta, n, f)
    &&& span_matches(o.span, n)
    &&& field_text_spec(n, "date".spec_bytes(), src) == Some(o.date@)
    &&& field_text_spec(n, "type".spec_bytes(), src) == Some(o.event_type@)
    &&& field_text_spec(n, "desc".spec_bytes(), src) == Some(o.desc@)
    &&& opt_field_matches(o.comment, n, "comment".spec_bytes(), src)
    &&& kvs_prefix(o.key_values@, n, src, f, node_named_count_of(n))
}

fn parse_event(node: &tree_sitter::Node, source: &[u8], filename: &str) -> (r: Result<
    crate::ast::Directive,
    ParseError,
>)
    ensures
        r is Ok <==> event_ok(*node),
        r matches Ok(d) ==> d matches crate::ast::Directive::Event(o) && event_matches(
            o,
            *node,
            source@,
            filename@,
        ),
        r matches Err(e) ==> error_at(e, *node, filename@),
{
    let date = match required_field_text(node, "date", source, filename) {
        Ok(v) => v,
        Err(e) => {
            return Err(e);
        },
    };
    let event_type = match required_field_text(node, "type", source, filename) {
        Ok(v) => v,
        Err(e) => {
            return Err(e);
        },
    };
    let desc = match required_field_text(node, "desc", source, filename) {
        Ok(v) => v,
        Err(e) => {
            return Err(e);
        },
    };
    let comment = field_text(node, "comment", source);
    let key_values = collect_key_values(node, source, filename);
    Ok(
        crate::ast::Directive::Event(
            crate::ast::Event {
                meta: meta(node, filename),
                span: span(node),
                date,
                event_type,
                desc,
                comment,
                key_values,
            },
        ),
    )
}

pub open spec fn query_ok(n: tree_sitter::Node) -> bool {
    &&& node_field_of(n, "date".spec_bytes()) is Some
    &&& node_field_of(n, "name".spec_bytes()) is Some
    &&& node_field_of(n, "query".spec_bytes()) is Some
}

pub open spec fn query_matches(
    o: crate::ast::Query,
    n: tree_sitter::Node,
    src: Seq<u8>,
    f: Seq<char>,
) -> bool {
    &&& meta_matches(o.meta, n, f)
    &&& span_matches(o.span, n)
    &&& field_text_spec(n, "date".spec_bytes(), src) == Some(o.date@)
    &&& field_text_spec(n, "name".spec_bytes(), src) == Some(o.name@)
    &&& field_text_spec(n, "query".spec_bytes(), src) == Some(o.query@)
    &&& opt_field_matches(o.comment, n, "comment".spec_bytes(), src)
    &&& kvs_prefix(o.key_values@, n, src, f, node_named_count_of(n))
}

fn parse_query(node: &tree_sitter::Node, source: &[u8], filename: &str) -> (r: Result<
    crate::ast::Directive,
    ParseError,
>)
    ensures
        r is Ok <==> query_ok(*node),
        r matches Ok(d) ==> d matches crate::ast::Directive::Query(o) && query_matches(
            o,
            *node,
            source@,
            filename@,
        ),
        r matches Err(e) ==> error_at(e, *node, filename@),
{
    let date = match required_field_text(node, "date", source, filename) {
        Ok(v) => v,
        Err(e) => {
            return Err(e);
        },
    };
    let name = match required_field_text(node, "name", source, filename) {
        Ok(v) => v,
        Err(e) => {
            return Err(e);
        },
    };
    let query = match required_field_text(node, "query", source, filename) {
        Ok(v) => v,
        Err(e) => {
            return Err(e);
        },
    };
    let comment = field_text(node, "comment", source);
    let key_values = collect_key_values(node, source, filename);
    Ok(
        crate::ast::Directive::Query(
            crate::ast::Query {
                meta: meta(node, filename),
                span: span(node),
                date,
                name,
                query,
                comment,
                key_values,
            },
        ),
    )
}

pub open spec fn note_ok(n: tree_sitter::Node) -> bool {
    &&& node_field_of(n, "date".spec_bytes()) is Some
    &&& node_field_of(n, "account".spec_bytes()) is Some
    &&& node_field_of(n, "note".spec_bytes()) is Some
}

pub open spec fn note_matches(
    o: crate::ast::Note,
    n: tree_sitter::Node,
    src: Seq<u8>,
    f: Seq<char>,
) -> bool {
    &&& meta_matches(o.meta, n, f)
    &&& span_matches(o.span, n)
    &&& field_text_spec(n, "date".spec_bytes(), src) == Some(o.date@)
    &&& field_text_spec(n, "account".spec_bytes(), src) == Some(o.account@)
    &&& field_text_spec(n, "note".spec_bytes(), src) == Some(o.note@)
    &&& opt_field_matches(o.comment, n, "comment".spec_bytes(), src)
    &&& kvs_prefix(o.key_values@, n, src, f, node_named_count_of(n))
}

fn parse_note(node: &tree_sitter::Node, source: &[u8], filename: &str) -> (r: Result<
    crate::ast::Directive,
    ParseError,
>)
    ensures
        r is Ok <==> note_ok(*node),
        r matches Ok(d) ==> d matches crate::ast::Directive::Note(o) && note_matches(
            o,
            *node,
            source@,
            filename@,
        ),
        r matches Err(e) ==> error_at(e, *node, filename@),
{
    let date = match required_field_text(node, "date", source, filename) {
        Ok(v) => v,
        Err(e) => {
            return Err(e);
        },
    };
    let account = match required_field_text(node, "account", source, filename) {
        Ok(v) => v,
        Err(e) => {
            return Err(e);
        },
    };
    let note = match required_field_text(node, "note", source, filename) {
        Ok(v) => v,
        Err(e) => {
            return Err(e);
        },
    };
    let comment = field_text(node, "comment", source);
    let key_values = collect_key_values(node, source, filename);
    Ok(
        crate::ast::Directive::Note(
            crate::ast::Note {
                meta: meta(node, filename),
                span: span(node),
                date,
                account,
                note,
                comment,
                key_values,
            },
        ),
    )
}

pub open spec fn document_ok(n: tree_sitter::Node) -> bool {
    &&& node_field_of(n, "date".spec_bytes()) is Some
    &&& node_field_of(n, "account".spec_bytes()) is Some
    &&& node_field_of(n, "filename".spec_bytes()) is Some
}

pub open spec fn document_matches(
    o: crate::ast::Document,
    n: tree_sitter::Node,
    src: Seq<u8>,
    f: Seq<char>,
) -> bool {
    &&& meta_matches(o.meta, n, f)
    &&& span_matches(o.span, n)
    &&& field_text_spec(n, "date".spec_bytes(), src) == Some(o.date@)
    &&& field_text_spec(n, "account".spec_bytes(), src) == Some(o.account@)
    &&& field_text_spec(n, "filename".spec_bytes(), src) == Some(o.filename@)
    &&& opt_field_matches(o.tags_links, n, "tags_links".spec_bytes(), src)
    &&& opt_field_matches(o.comment, n, "comment".spec_bytes(), src)
    &&& kvs_prefix(o.key_values@, n, src, f, node_named_count_of(n))
}

fn parse_document(node: &tree_sitter::Node, source: &[u8], filename: &str) -> (r: Result<
    crate::ast::Directive,
    ParseError,
>)
    ensures
        r is Ok <==> document_ok(*node),
        r matches Ok(d) ==> d matches crate::ast::Directive::Document(o) && document_matches(
            o,
            *node,
            source@,
            filename@,
        ),
        r matches Err(e) ==> error_at(e, *node, filename@),
{
    let date = match required_field_text(node, "date", source, filename) {
        Ok(v) => v,
        Err(e) => {
            return Err(e);
        },
    };
    let account = match required_field_text(node, "account", source, filename) {
        Ok(v) => v,
        Err(e) => {
            return Err(e);
        },
    };
    let doc_filename = match required_field_text(node, "filename", source, filename) {
        Ok(v) => v,
        Err(e) => {
            return Err(e);
        },
    };
    let tags_links = field_text(node, "tags_links", source);
    let comment = field_text(node, "comment", source);
    let key_values = collect_key_values(node, source, filename);
    Ok(
        crate::ast::Directive::Document(
            crate::ast::Document {
                meta: meta(node, filename),
                span: span(node),
                date,
                account,
                filename: doc_filename,
                tags_links,
                comment,
                key_values,
            },
        ),
    )
}

pub open spec fn custom_ok(n: tree_sitter::Node) -> bool {
    node_field_of(n, "date".spec_bytes()) is Some && node_field_of(n, "name".spec_bytes()) is Some
}

pub open spec fn custom_matches(
    o: crate::ast::Custom,
    n: tree_sitter::Node,
    src: Seq<u8>,
    f: Seq<char>,
) -> bool {
    &&& meta_matches(o.meta, n, f)
    &&& span_matches(o.span, n)
    &&& field_text_spec(n, "date".spec_bytes(), src) == Some(o.date@)
    &&& field_text_spec(n, "name".spec_bytes(), src) == Some(o.name@)
    &&& texts_prefix(o.values@, n, "custom_value".spec_bytes(), src, node_named_count_of(n))
    &&& opt_field_matches(o.comment, n, "comment".spec_bytes(), src)
    &&& kvs_prefix(o.key_values@, n, src, f, node_named_count_of(n))
}

fn parse_custom(node: &tree_sitter::Node, source: &[u8], filename: &str) -> (r: Result<
    crate::ast::Directive,
    ParseError,
>)
    ensures
        r is Ok <==> custom_ok(*node),
        r matches Ok(d) ==> d matches crate::ast::Directive::Custom(o) && custom_matches(
            o,
            *node,
            source@,
            filename@,
        ),
        r matches Err(e) ==> error_at(e, *node, filename@),
{
    let values = collect_texts_of_kind(node, "custom_value", source);
    let date = match required_field_text(node, "date", source, filename) {
        Ok(v) => v,
        Err(e) => {
            return Err(e);
        },
    };
    let name = match required_field_text(node, "name", source, filename) {
        Ok(v) => v,
        Err(e) => {
            return Err(e);
        },
    };
    let comment = field_text(node, "comment", source);
    let key_values = collect_key_values(node, source, filename);
    Ok(
        crate::ast::Directive::Custom(
            crate::ast::Custom {
                meta: meta(node, filename),
                span: span(node),
                date,
                name,
                values,
                comment,
                key_values,
            },
        ),
    )
}

pub open spec fn option_ok(n: tree_sitter::Node) -> bool {
    node_field_of(n, "key".spec_bytes()) is Some && node_field_of(n, "value".spec_bytes()) is Some
}

pub open spec fn option_matches(
    o: crate::ast::OptionDirective,
    n: tree_sitter::Node,
    src: Seq<u8>,
    f: Seq<char>,
) -> bool {
    &&& meta_matches(o.meta, n, f)
    &&& span_matches(o.span, n)
    &&& field_text_spec(n, "key".spec_bytes(), src) == Some(o.key@)
    &&& field_text_spec(n, "value".spec_bytes(), src) == Some(o.value@)
}

fn parse_option(node: &tree_sitter::Node, source: &[u8], filename: &str) -> (r: Result<
    crate::ast::Directive,
    ParseError,
>)
    ensures
        r is Ok <==> option_ok(*node),
        r matches Ok(d) ==> d matches crate::ast::Directive::Option(o) && option_matches(
            o,
            *node,
            source@,
            filename@,
        ),
        r matches Err(e) ==> error_at(e, *node, filename@),
{
    let key = match required_field_text(node, "key", source, filename) {
        Ok(v) => v,
        Err(e) => {
            return Err(e);
        },
    };
    let value = match required_field_text(node, "value", source, filename) {
        Ok(v) => v,
        Err(e) => {
            return Err(e);
        },
    };
    Ok(
        crate::ast::Directive::Option(
            crate::ast::OptionDirective {
                meta: meta(node, filename),
                span: span(node),
                key,
                value,
            },
        ),
    )
}

pub open spec fn include_ok(n: tree_sitter::Node) -> bool {
    first_kind_at(n, "string".spec_bytes(), 0) < node_named_count_of(n)
}

pub open spec fn include_matches(
    o: crate::ast::Include,
    n: tree_sitter::Node,
    src: Seq<u8>,
    f: Seq<char>,
) -> bool {
    &&& meta_matches(o.meta, n, f)
    &&& span_matches(o.span, n)
    &&& include_ok(n)
    &&& o.filename@ == node_text_spec(
        node_named_child_of(n, first_kind_at(n, "string".spec_bytes(), 0)),
        src,
    )
}

fn parse_include(node: &tree_sitter::Node, source: &[u8], meta_filename: &str) -> (r: Result<
    crate::ast::Directive,
    ParseError,
>)
    ensures
        r is Ok <==> include_ok(*node),
        r matches Ok(d) ==> d matches crate::ast::Directive::Include(o) && include_matches(
            o,
            *node,
            source@,
            meta_filename@,
        ),
        r matches Err(e) ==> error_at(e, *node, meta_filename@),
{
    let filename = match find_child_of_kind(node, "string", 0) {
        Some(p) => node_text(&p.1, source),
        None => {
            return Err(parse_error(node, meta_filename, String::from_str("missing string")));
        },
    };
    Ok(
        crate::ast::Directive::Include(
            crate::ast::Include { meta: meta(node, meta_filename), span: span(node), filename },
        ),
    )
}

pub open spec fn plugin_ok(n: tree_sitter::Node) -> bool {
    first_kind_at(n, "string".spec_bytes(), 0) < node_named_count_of(n)
}

pub open spec fn plugin_matches(
    o: crate::ast::Plugin,
    n: tree_sitter::Node,
    src: Seq<u8>,
    f: Seq<char>,
) -> bool {
    let s1 = first_kind_at(n, "string".spec_bytes(), 0);
    let s2 = first_kind_at(n, "string".spec_bytes(), s1 + 1);
    &&& meta_matches(o.meta, n, f)
    &&& span_matches(o.span, n)
    &&& plugin_ok(n)
    &&& o.name@ == node_text_spec(node_named_child_of(n, s1), src)
    &&& if s2 < node_named_count_of(n) {
        o.config matches Some(c) && c@ == node_text_spec(node_named_child_of(n, s2), src)
    } else {
        o.config is None
    }
}

fn parse_plugin(node: &tree_sitter::Node, source: &[u8], filename: &str) -> (r: Result<
    crate::ast::Directive,
    ParseError,
>)
    ensures
        r is Ok <==> plugin_ok(*node),
        r matches Ok(d) ==> d matches crate::ast::Directive::Plugin(o) && plugin_matches(
            o,
            *node,
            source@,
            filename@,
        ),
        r matches Err(e) ==> error_at(e, *node, filename@),
{
    let count = node_named_child_count(node);
    let first = match find_child_of_kind(node, "string", 0) {
        Some(p) => p,
        None => {
            return Err(parse_error(node, filename, String::from_str("missing plugin name")));
        },
    };
    let name = node_text(&first.1, source);
    let config = match find_child_of_kind(node, "string", first.0 + 1) {
        Some(p) => Some(node_text(&p.1, source)),
        None => None,
    };
    Ok(
        crate::ast::Directive::Plugin(
            crate::ast::Plugin { meta: meta(node, filename), span: span(node), name, config },
        ),
    )
}

pub open spec fn tag_ok(n: tree_sitter::Node) -> bool {
    first_kind_at(n, "tag".spec_bytes(), 0) < node_named_count_of(n)
}

pub open spec fn tag_matches(
    o: crate::ast::TagDirective,
    n: tree_sitter::Node,
    src: Seq<u8>,
    f: Seq<char>,
) -> bool {
    &&& meta_matches(o.meta, n, f)
    &&& span_matches(o.span, n)
    &&& tag_ok(n)
    &&& o.tag@ == strip_hash(
        node_text_spec(node_named_child_of(n, first_kind_at(n, "tag".spec_bytes(), 0)), src),
    )
}

fn parse_tag_directive(node: &tree_sitter::Node, source: &[u8], filename: &str) -> (r: Result<
    crate::ast::TagDirective,
    ParseError,
>)
    ensures
        r is Ok <==> tag_ok(*node),
        r matches Ok(o) ==> tag_matches(o, *node, source@, filename@),
        r matches Err(e) ==> error_at(e, *node, filename@),
{
    let tag = match find_child_of_kind(node, "tag", 0) {
        Some(p) => strip_hash_bytes(node_text(&p.1, source)),
        None => {
            return Err(parse_error(node, filename, String::from_str("missing tag")));
        },
    };
    Ok(crate::ast::TagDirective { meta: meta(node, filename), span: span(node), tag })
}

pub open spec fn pushmeta_ok(n: tree_sitter::Node) -> bool {
    node_named_count_of(n) > 0
}

pub open spec fn pushmeta_matches(
    o: crate::ast::Pushmeta,
    n: tree_sitter::Node,
    src: Seq<u8>,
    f: Seq<char>,
) -> bool {
    &&& meta_matches(o.meta, n, f)
    &&& span_matches(o.span, n)
    &&& first_named_child_text_spec(n, src) == Some(o.key_value@)
}

fn parse_pushmeta(node: &tree_sitter::Node, source: &[u8], filename: &str) -> (r: Result<
    crate::ast::Directive,
    ParseError,
>)
    ensures
        r is Ok <==> pushmeta_ok(*node),
        r matches Ok(d) ==> d matches crate::ast::Directive::Pushmeta(o) && pushmeta_matches(
            o,
            *node,
            source@,
            filename@,
        ),
        r matches Err(e) ==> error_at(e, *node, filename@),
{
    let key_value = match first_named_child_text(node, source) {
        Some(v) => v,
        None => {
            return Err(parse_error(node, filename, String::from_str("missing key_value")));
        },
    };
    Ok(
        crate::ast::Directive::Pushmeta(
            crate::ast::Pushmeta { meta: meta(node, filename), span: span(node), key_value },
        ),
    )
}

pub open spec fn popmeta_ok(n: tree_sitter::Node) -> bool {
    first_kind_at(n, "key".spec_bytes(), 0) < node_named_count_of(n)
}

pub open spec fn popmeta_matches(
    o: crate::ast::Popmeta,
    n: tree_sitter::Node,
    src: Seq<u8>,
    f: Seq<char>,
) -> bool {
    &&& meta_matches(o.meta, n, f)
    &&& span_matches(o.span, n)
    &&& popmeta_ok(n)
    &&& o.key@ == node_text_spec(
        node_named_child_of(n, first_kind_at(n, "key".spec_bytes(), 0)),
        src,
    )
}

fn parse_popmeta(node: &tree_sitter::Node, source: &[u8], filename: &str) -> (r: Result<
    crate::ast::Directive,
    ParseError,
>)
    ensures
        r is Ok <==> popmeta_ok(*node),
        r matches Ok(d) ==> d matches crate::ast::Directive::Popmeta(o) && popmeta_matches(
            o,
            *node,
            source@,
            filename@,
        ),
        r matches Err(e) ==> error_at(e, *node, filename@),
{
    let key = match find_child_of_kind(node, "key", 0) {
        Some(p) => node_text(&p.1, source),
        None => {
            return Err(parse_error(node, filename, String::from_str("missing key")));
        },
    };
    Ok(
        crate::ast::Directive::Popmeta(
            crate::ast::Popmeta { meta: meta(node, filename), span: span(node), key },
        ),
    )
}

pub open spec fn raw_matches(
    x: crate::ast::Raw,
    n: tree_sitter::Node,
    src: Seq<u8>,
    f: Seq<char>,
) -> bool {
    &&& meta_matches(x.meta, n, f)
    &&& span_matches(x.span, n)
    &&& x.kind@ == node_kind_of(n)
    &&& x.text@ == node_text_spec(n, src)
}

fn parse_raw(node: &tree_sitter::Node, source: &[u8], filename: &str) -> (x: crate::ast::Raw)
    ensures
        raw_matches(x, *node, source@, filename@),
{
    crate::ast::Raw {
        meta: meta(node, filename),
        kind: node_kind(node),
        span: span(node),
        text: node_text(node, source),
    }
}

/// The price operator token of a posting: a total-price token wins over a
/// per-unit token.
pub open spec fn price_op_spec(c: tree_sitter::Node, src: Seq<u8>) -> Option<Seq<u8>> {
    let ai = first_kind_at(c, "atat".spec_bytes(), 0);
    let bi = first_kind_at(c, "at".spec_bytes(), 0);
    if ai < node_named_count_of(c) {
        Some(node_text_spec(node_named_child_of(c, ai), src))
    } else if bi < node_named_count_of(c) {
        Some(node_text_spec(node_named_child_of(c, bi), src))
    } else {
        None
    }
}

/// Whether a stored posting matches a `posting` node.
pub open spec fn posting_matches(
    p: crate::ast::Posting,
    c: tree_sitter::Node,
    src: Seq<u8>,
    f: Seq<char>,
) -> bool {
    &&& meta_matches(p.meta, c, f)
    &&& span_matches(p.span, c)
    &&& opt_field_matches(p.opt_flag, c, "optflag".spec_bytes(), src)
    &&& match field_text_spec(c, "account".spec_bytes(), src) {
        Some(t) => p.account@ == t,
        None => p.account@.len() == 0,
    }
    &&& opt_field_matches(p.amount, c, "amount".spec_bytes(), src)
    &&& opt_field_matches(p.cost_spec, c, "cost_spec".spec_bytes(), src)
    &&& opt_text_matches(p.price_operator, price_op_spec(c, src))
    &&& opt_field_matches(p.price_annotation, c, "price_annotation".spec_bytes(), src)
    &&& opt_field_matches(p.comment, c, "comment".spec_bytes(), src)
}

fn build_posting(c: &tree_sitter::Node, source: &[u8], filename: &str) -> (p: crate::ast::Posting)
    ensures
        posting_matches(p, *c, source@, filename@),
{
    let opt_flag = field_text(c, "optflag", source);
    let account = match field_text(c, "account", source) {
        Some(a) => a,
        None => Vec::new(),
    };
    let amount = field_text(c, "amount", source);
    let cost_spec = field_text(c, "cost_spec", source);
    let price_operator: Option<Vec<u8>> = match find_child_of_kind(c, "atat", 0) {
        Some(p) => Some(node_text(&p.1, source)),
        None => match find_child_of_kind(c, "at", 0) {
            Some(p) => Some(node_text(&p.1, source)),
            None => None,
        },
    };
    let price_annotation = field_text(c, "price_annotation", source);
    let comment = field_text(c, "comment", source);
    crate::ast::Posting {
        meta: meta(c, filename),
        span: span(c),
        opt_flag,
        account,
        amount,
        cost_spec,
        price_operator,
        price_annotation,
        comment,
    }
}

/// Whether `ps` holds exactly the postings among the first `ci` named
/// children, in order.
pub open spec fn postings_prefix(
    ps: Seq<crate::ast::Posting>,
    n: tree_sitter::Node,
    src: Seq<u8>,
    f: Seq<char>,
    ci: int,
) -> bool
    decreases ci,
{
    if ci <= 0 {
        ps.len() == 0
    } else {
        let c = node_named_child_of(n, ci - 1);
        if ci - 1 < node_named_count_of(n) && node_kind_of(c) == "posting".spec_bytes() {
            &&& ps.len() > 0
            &&& posting_matches(ps.last(), c, src, f)
            &&& postings_prefix(ps.drop_last(), n, src, f, ci - 1)
        } else {
            postings_prefix(ps, n, src, f, ci - 1)
        }
    }
}

/// Collects the postings among a node's named children, in order.
fn collect_postings(node: &tree_sitter::Node, source: &[u8], filename: &str) -> (r: Vec<
    crate::ast::Posting,
>)
    ensures
        postings_prefix(r@, *node, source@, filename@, node_named_count_of(*node)),
{
    let count = node_named_child_count(node);
    let mut out: Vec<crate::ast::Posting> = Vec::new();
    let mut ci: usize = 0;
    while ci < count
        invariant
            ci <= count,
            count as int == node_named_count_of(*node),
            count <= u32::MAX,
            postings_prefix(out@, *node, source@, filename@, ci as int),
        decreases count - ci,
    {
        match node_named_child(node, ci) {
            Some(c) => {
                let kind = node_kind(&c);
                if bytes_eq(kind.as_slice(), "posting".as_bytes()) {
                    let p = build_posting(&c, source, filename);
                    let ghost pre = out@;
                    out.push(p);
                    proof {
                        assert(out@.drop_last() =~= pre);
                    }
                }
            },
            None => {},
        }
        ci = ci + 1;
    }
    out
}

/// The transaction flag token, looked up by field and then by kind.
pub open spec fn txn_flag_spec(n: tree_sitter::Node, src: Seq<u8>) -> Option<Seq<u8>> {
    match field_text_spec(n, "txn".spec_bytes(), src) {
        Some(t) => Some(t),
        None => match field_text_spec(n, "flag".spec_bytes(), src) {
            Some(t) => Some(t),
            None => {
                let fi = first_kind_at(n, "txn".spec_bytes(), 0);
                if fi < node_named_count_of(n) {
                    Some(node_text_spec(node_named_child_of(n, fi), src))
                } else {
                    None
                }
            },
        },
    }
}

/// The transaction date, looked up by field and then by kind.
pub open spec fn txn_date_spec(n: tree_sitter::Node, src: Seq<u8>) -> Option<Seq<u8>> {
    match field_text_spec(n, "date".spec_bytes(), src) {
        Some(t) => Some(t),
        None => {
            let di = first_kind_at(n, "date".spec_bytes(), 0);
            if di < node_named_count_of(n) {
                Some(node_text_spec(node_named_child_of(n, di), src))
            } else {
                None
            }
        },
    }
}

/// The payee/narration pair: named fields when the grammar exposes them,
/// otherwise the string-literal children in order (one is narration only,
/// two are payee then narration); anything else fails.
pub open spec fn txn_payee_narration_spec(n: tree_sitter::Node, src: Seq<u8>) -> Option<
    (Option<Seq<u8>>, Seq<u8>),
> {
    match field_text_spec(n, "narration".spec_bytes(), src) {
        Some(nt) => Some((field_text_spec(n, "payee".spec_bytes(), src), nt)),
        None => {
            if field_text_spec(n, "payee".spec_bytes(), src) is Some {
                None
            } else {
                let s1 = first_kind_at(n, "string".spec_bytes(), 0);
                if s1 >= node_named_count_of(n) {
                    None
                } else {
                    let s2 = first_kind_at(n, "string".spec_bytes(), s1 + 1);
                    if s2 >= node_named_count_of(n) {
                        Some((None, node_text_spec(node_named_child_of(n, s1), src)))
                    } else {
                        let s3 = first_kind_at(n, "string".spec_bytes(), s2 + 1);
                        if s3 >= node_named_count_of(n) {
                            Some(
                                (
                                    Some(node_text_spec(node_named_child_of(n, s1), src)),
                                    node_text_spec(node_named_child_of(n, s2), src),
                                ),
                            )
                        } else {
                            None
                        }
                    }
                }
            }
        },
    }
}

pub open spec fn transaction_ok(n: tree_sitter::Node, src: Seq<u8>) -> bool {
    txn_date_spec(n, src) is Some && txn_payee_narration_spec(n, src) is Some
}

pub open spec fn transaction_matches(
    t: crate::ast::Transaction,
    n: tree_sitter::Node,
    src: Seq<u8>,
    f: Seq<char>,
) -> bool {
    &&& meta_matches(t.meta, n, f)
    &&& span_matches(t.span, n)
    &&& txn_date_spec(n, src) == Some(t.date@)
    &&& opt_text_matches(t.txn, txn_flag_spec(n, src))
    &&& match txn_payee_narration_spec(n, src) {
        Some(pn) => opt_text_matches(t.payee, pn.0) && t.narration@ == pn.1,
        None => false,
    }
    &&& opt_field_matches(t.tags_links, n, "tags_links".spec_bytes(), src)
    &&& opt_field_matches(t.comment, n, "comment".spec_bytes(), src)
    &&& kvs_prefix(t.key_values@, n, src, f, node_named_count_of(n))
    &&& postings_prefix(t.postings@, n, src, f, node_named_count_of(n))
}

fn parse_transaction(node: &tree_sitter::Node, source: &[u8], filename: &str) -> (r: Result<
    crate::ast::Directive,
    ParseError,
>)
    ensures
        r is Ok <==> transaction_ok(*node, source@),
        r matches Ok(d) ==> d matches crate::ast::Directive::Transaction(t)
            && transaction_matches(t, *node, source@, filename@),
        r matches Err(e) ==> error_at(e, *node, filename@),
{
    let count = node_named_child_count(node);
    let date = match field_text(node, "date", source) {
        Some(d) => d,
        None => match find_child_of_kind(node, "date", 0) {
            Some(p) => node_text(&p.1, source),
            None => {
                return Err(parse_error(node, filename, String::from_str("missing date")));
            },
        },
    };
    let txn = match field_text(node, "txn", source) {
        Some(t) => Some(t),
        None => match field_text(node, "flag", source) {
            Some(t) => Some(t),
            None => match find_child_of_kind(node, "txn", 0) {
                Some(p) => Some(node_text(&p.1, source)),
                None => None,
            },
        },
    };
    let narration_field = field_text(node, "narration", source);
    let payee_field = field_text(node, "payee", source);
    let pair: (Option<Vec<u8>>, Vec<u8>) = match narration_field {
        Some(nt) => (payee_field, nt),
        None => {
            if payee_field.is_some() {
                return Err(parse_error(node, filename, String::from_str("missing narration")));
            }
            let first = match find_child_of_kind(node, "string", 0) {
                Some(p) => p,
                None => {
                    return Err(
                        parse_error(node, filename, String::from_str("missing narration")),
                    );
                },
            };
            match find_child_of_kind(node, "string", first.0 + 1) {
                Some(second) => {
                    match find_child_of_kind(node, "string", second.0 + 1) {
                        Some(_) => {
                            return Err(
                                parse_error(
                                    node,
                                    filename,
                                    String::from_str("missing narration"),
                                ),
                            );
                        },
                        None => (
                            Some(node_text(&first.1, source)),
                            node_text(&second.1, source),
                        ),
                    }
                },
                None => (None, node_text(&first.1, source)),
            }
        },
    };
    let tags_links = field_text(node, "tags_links", source);
    let comment = field_text(node, "comment", source);
    let key_values = collect_key_values(node, source, filename);
    let postings = collect_postings(node, source, filename);
    Ok(
        crate::ast::Directive::Transaction(
            crate::ast::Transaction {
                meta: meta(node, filename),
                span: span(node),
                date,
                txn,
                payee: pair.0,
                narration: pair.1,
                tags_links,
                comment,
                key_values,
                postings,
            },
        ),
    )
}

/// Whether a top-level node can be extracted into a directive.
pub open spec fn top_level_ok(n: tree_sitter::Node, src: Seq<u8>) -> bool {
    let k = node_kind_of(n);
    if k == "open".spec_bytes() {
        open_ok(n)
    } else if k == "close".spec_bytes() {
        close_ok(n)
    } else if k == "balance".spec_bytes() {
        balance_ok(n)
    } else if k == "pad".spec_bytes() {
        pad_ok(n)
    } else if k == "transaction".spec_bytes() {
        transaction_ok(n, src)
    } else if k == "document".spec_bytes() {
        document_ok(n)
    } else if k == "note".spec_bytes() {
        note_ok(n)
    } else if k == "event".spec_bytes() {
        event_ok(n)
    } else if k == "price".spec_bytes() {
        price_ok(n)
    } else if k == "commodity".spec_bytes() {
        commodity_ok(n)
    } else if k == "query".spec_bytes() {
        query_ok(n)
    } else if k == "custom".spec_bytes() {
        custom_ok(n)
    } else if k == "option".spec_bytes() {
        option_ok(n)
    } else if k == "include".spec_bytes() {
        include_ok(n)
    } else if k == "plugin".spec_bytes() {
        plugin_ok(n)
    } else if k == "pushtag".spec_bytes() {
        tag_ok(n)
    } else if k == "poptag".spec_bytes() {
        tag_ok(n)
    } else if k == "pushmeta".spec_bytes() {
        pushmeta_ok(n)
    } else if k == "popmeta".spec_bytes() {
        popmeta_ok(n)
    } else if k == "section".spec_bytes() || k == "comment".spec_bytes() {
        true
    } else {
        false
    }
}

/// The top-level node kinds the extractor recognizes: the directive kinds
/// plus the two pass-through kinds. Any other kind is an extraction error.
pub open spec fn is_known_top_level_kind(k: Seq<u8>) -> bool {
    ||| k == "open".spec_bytes()
    ||| k == "close".spec_bytes()
    ||| k == "balance".spec_bytes()
    ||| k == "pad".spec_bytes()
    ||| k == "transaction".spec_bytes()
    ||| k == "document".spec_bytes()
    ||| k == "note".spec_bytes()
    ||| k == "event".spec_bytes()
    ||| k == "price".spec_bytes()
    ||| k == "commodity".spec_bytes()
    ||| k == "query".spec_bytes()
    ||| k == "custom".spec_bytes()
    ||| k == "option".spec_bytes()
    ||| k == "include".spec_bytes()
    ||| k == "plugin".spec_bytes()
    ||| k == "pushtag".spec_bytes()
    ||| k == "poptag".spec_bytes()
    ||| k == "pushmeta".spec_bytes()
    ||| k == "popmeta".spec_bytes()
    ||| k == "section".spec_bytes()
    ||| k == "comment".spec_bytes()
}

/// Whether a directive is exactly what extraction of a node yields.
pub open spec fn directive_matches(
    d: crate::ast::Directive,
    n: tree_sitter::Node,
    src: Seq<u8>,
    f: Seq<char>,
) -> bool {
    let k = node_kind_of(n);
    match d {
        crate::ast::Directive::Open(o) => k == "open".spec_bytes() && open_matches(o, n, src, f),
        crate::ast::Directive::Close(o) => k == "close".spec_bytes() && close_matches(
            o,
            n,
            src,
            f,
        ),
        crate::ast::Directive::Balance(o) => k == "balance".spec_bytes() && balance_matches(
            o,
            n,
            src,
            f,
        ),
        crate::ast::Directive::Pad(o) => k == "pad".spec_bytes() && pad_matches(o, n, src, f),
        crate::ast::Directive::Transaction(t) => k == "transaction".spec_bytes()
            && transaction_matches(t, n, src, f),
        crate::ast::Directive::Commodity(o) => k == "commodity".spec_bytes() && commodity_matches(
            o,
            n,
            src,
            f,
        ),
        crate::ast::Directive::Price(o) => k == "price".spec_bytes() && price_matches(
            o,
            n,
            src,
            f,
        ),
        crate::ast::Directive::Event(o) => k == "event".spec_bytes() && event_matches(
            o,
            n,
            src,
            f,
        ),
        crate::ast::Directive::Query(o) => k == "query".spec_bytes() && query_matches(
            o,
            n,
            src,
            f,
        ),
        crate::ast::Directive::Note(o) => k == "note".spec_bytes() && note_matches(o, n, src, f),
        crate::ast::Directive::Document(o) => k == "document".spec_bytes() && document_matches(
            o,
            n,
            src,
            f,
        ),
        crate::ast::Directive::Custom(o) => k == "custom".spec_bytes() && custom_matches(
            o,
            n,
            src,
            f,
        ),
        crate::ast::Directive::Option(o) => k == "option".spec_bytes() && option_matches(
            o,
            n,
            src,
            f,
        ),
        crate::ast::Directive::Include(o) => k == "include".spec_bytes() && include_matches(
            o,
            n,
            src,
            f,
        ),
        crate::ast::Directive::Plugin(o) => k == "plugin".spec_bytes() && plugin_matches(
            o,
            n,
            src,
            f,
        ),
        crate::ast::Directive::Pushtag(o) => k == "pushtag".spec_bytes() && tag_matches(
            o,
            n,
            src,
            f,
        ),
        crate::ast::Directive::Poptag(o) => k == "poptag".spec_bytes() && tag_matches(
            o,
            n,
            src,
            f,
        ),
        crate::ast::Directive::Pushmeta(o) => k == "pushmeta".spec_bytes() && pushmeta_matches(
            o,
            n,
            src,
            f,
        ),
        crate::ast::Directive::Popmeta(o) => k == "popmeta".spec_bytes() && popmeta_matches(
            o,
            n,
            src,
            f,
        ),
        crate::ast::Directive::Raw(x) => (k == "section".spec_bytes() || k
            == "comment".spec_bytes()) && raw_matches(x, n, src, f),
    }
}

/// Extracts one top-level node, dispatching on its kind; a node that is
/// neither a directive nor a known pass-through kind is an extraction
/// error.
#[verifier::rlimit(60)]
fn parse_top_level(node: &tree_sitter::Node, source: &[u8], filename: &str) -> (r: Result<
    crate::ast::Directive,
    ParseError,
>)
    ensures
        r is Ok <==> top_level_ok(*node, source@),
        r matches Ok(d) ==> directive_matches(d, *node, source@, filename@),
        r matches Err(e) ==> error_at(e, *node, filename@),
        (r is Err && !is_known_top_level_kind(node_kind_of(*node))) ==> r->Err_0.message@
            == "unknown directive node kind `"@ + crate::text::utf8_lossy(node_kind_of(*node))
            + "`"@,
{
    let kind = node_kind(node);
    let k = kind.as_slice();
    if bytes_eq(k, "open".as_bytes()) {
        parse_open(node, source, filename)
    } else if bytes_eq(k, "close".as_bytes()) {
        parse_close(node, source, filename)
    } else if bytes_eq(k, "balance".as_bytes()) {
        parse_balance(node, source, filename)
    } else if bytes_eq(k, "pad".as_bytes()) {
        parse_pad(node, source, filename)
    } else if bytes_eq(k, "transaction".as_bytes()) {
        parse_transaction(node, source, filename)
    } else if bytes_eq(k, "document".as_bytes()) {
        parse_document(node, source, filename)
    } else if bytes_eq(k, "note".as_bytes()) {
        parse_note(node, source, filename)
    } else if bytes_eq(k, "event".as_bytes()) {
        parse_event(node, source, filename)
    } else if bytes_eq(k, "price".as_bytes()) {
        parse_price(node, source, filename)
    } else if bytes_eq(k, "commodity".as_bytes()) {
        parse_commodity(node, source, filename)
    } else if bytes_eq(k, "query".as_bytes()) {
        parse_query(node, source, filename)
    } else if bytes_eq(k, "custom".as_bytes()) {
        parse_custom(node, source, filename)
    } else if bytes_eq(k, "option".as_bytes()) {
        parse_option(node, source, filename)
    } else if bytes_eq(k, "include".as_bytes()) {
        parse_include(node, source, filename)
    } else if bytes_eq(k, "plugin".as_bytes()) {
        parse_plugin(node, source, filename)
    } else if bytes_eq(k, "pushtag".as_bytes()) {
        match parse_tag_directive(node, source, filename) {
            Ok(t) => Ok(crate::ast::Directive::Pushtag(t)),
            Err(e) => Err(e),
        }
    } else if bytes_eq(k, "poptag".as_bytes()) {
        match parse_tag_directive(node, source, filename) {
            Ok(t) => Ok(crate::ast::Directive::Poptag(t)),
            Err(e) => Err(e),
        }
    } else if bytes_eq(k, "pushmeta".as_bytes()) {
        parse_pushmeta(node, source, filename)
    } else if bytes_eq(k, "popmeta".as_bytes()) {
        parse_popmeta(node, source, filename)
    } else if bytes_eq(k, "section".as_bytes()) || bytes_eq(k, "comment".as_bytes()) {
        Ok(crate::ast::Directive::Raw(parse_raw(node, source, filename)))
    } else {
        let mut message = String::from_str("unknown directive node kind `");
        let kind_text = bytes_to_string(kind.as_slice());
        message.append(kind_text.as_str());
        message.append("`");
        Err(parse_error(node, filename, message))
    }
}

/// Extracts every top-level directive of a file node, in source order.
///
/// The root must be the grammar's file-level node; otherwise a structured
/// error carrying the mismatched node's location is returned.
pub fn parse_directives(root: &tree_sitter::Node, source: &[u8], filename: &str) -> (r: Result<
    Vec<crate::ast::Directive>,
    ParseError,
>)
    ensures
        node_kind_of(*root) != "file".spec_bytes() ==> (r matches Err(e) && error_at(
            e,
            *root,
            filename@,
        ) && e.message@ == "expected root node kind `file`, got `"@ + crate::text::utf8_lossy(
            node_kind_of(*root),
        ) + "`"@),
        node_kind_of(*root) == "file".spec_bytes() ==> (r is Ok <==> forall|i: int|
            0 <= i < node_named_count_of(*root) ==> top_level_ok(
                #[trigger] node_named_child_of(*root, i),
                source@,
            )),
        r matches Ok(ds) ==> node_kind_of(*root) == "file".spec_bytes() && ds@.len()
            == node_named_count_of(*root) && forall|i: int|
            0 <= i < ds@.len() ==> directive_matches(
                ds@[i],
                #[trigger] node_named_child_of(*root, i),
                source@,
                filename@,
            ),
        r matches Err(e) ==> (node_kind_of(*root) == "file".spec_bytes() ==> exists|i: int|
            0 <= i < node_named_count_of(*root) && !top_level_ok(
                #[trigger] node_named_child_of(*root, i),
                source@,
            ) && error_at(e, node_named_child_of(*root, i), filename@)),
        r matches Err(e) ==> e.filename@ == filename@,
{
    let kind = node_kind(root);
    if !bytes_eq(kind.as_slice(), "file".as_bytes()) {
        let mut message = String::from_str("expected root node kind `file`, got `");
        let kind_text = bytes_to_string(kind.as_slice());
        message.append(kind_text.as_str());
        message.append("`");
        proof {
            assert(message@ =~= "expected root node kind `file`, got `"@
                + crate::text::utf8_lossy(node_kind_of(*root)) + "`"@);
        }
        return Err(parse_error(root, filename, message));
    }
    let count = node_named_child_count(root);
    let mut out: Vec<crate::ast::Directive> = Vec::new();
    let mut i: usize = 0;
    while i < count
        invariant
            i <= count,
            node_kind_of(*root) == "file".spec_bytes(),
            count as int == node_named_count_of(*root),
            count <= u32::MAX,
            out@.len() == i,
            forall|j: int|
                0 <= j < i ==> top_level_ok(#[trigger] node_named_child_of(*root, j), source@),
            forall|j: int|
                0 <= j < i ==> directive_matches(
                    out@[j],
                    #[trigger] node_named_child_of(*root, j),
                    source@,
                    filename@,
                ),
        decreases count - i,
    {
        match node_named_child(root, i) {
            Some(child) => {
                match parse_top_level(&child, source, filename) {
                    Ok(d) => {
                        out.push(d);
                    },
                    Err(e) => {
                        proof {
                            assert(!top_level_ok(node_named_child_of(*root, i as int), source@));
                            assert(error_at(e, node_named_child_of(*root, i as int), filename@));
                        }
                        return Err(e);
                    },
                }
            },
            None => {
                proof {
                    assert(false);
                }
            },
        }
        i = i + 1;
    }
    Ok(out)
}

/// Whether the grammar parses a text into a clean file tree whose every
/// top-level node can be extracted.
pub open spec fn parse_ok(content: Seq<u8>) -> bool {
    match crate::tree::parse_result_of(content) {
        Some(t) => {
            let root = crate::tree::tree_root_of(&t);
            &&& !crate::tree::node_has_error_of(root)
            &&& node_kind_of(root) == "file".spec_bytes()
            &&& forall|i: int|
                0 <= i < node_named_count_of(root) ==> top_level_ok(
                    #[trigger] node_named_child_of(root, i),
                    content,
                )
        },
        None => false,
    }
}

/// Whether `ds` is exactly the directive sequence extracted from a text.
pub open spec fn directives_extracted(
    ds: Seq<crate::ast::Directive>,
    content: Seq<u8>,
    f: Seq<char>,
) -> bool {
    match crate::tree::parse_result_of(content) {
        Some(t) => {
            let root = crate::tree::tree_root_of(&t);
            &&& ds.len() == node_named_count_of(root)
            &&& forall|i: int|
                0 <= i < ds.len() ==> directive_matches(
                    ds[i],
                    #[trigger] node_named_child_of(root, i),
                    content,
                    f,
                )
        },
        None => false,
    }
}

/// Aggregates the error and missing nodes under an erroneous tree into one
/// structured error, best effort within a fixed node budget: the error
/// carries the first error or missing node's 1-based position (the root's
/// when none is found within the budget).
fn collect_syntax_errors(root: tree_sitter::Node, filename: &str) -> (e: ParseError)
    ensures
        e.filename@ == filename@,
        error_at(e, root, filename@) || exists|n: tree_sitter::Node|
            {
                &&& crate::tree::node_is_error_of(n) || crate::tree::node_is_missing_of(n)
                &&& #[trigger] error_at(e, n, filename@)
            },
{
    let ghost root0 = root;
    let rp = node_start_point(&root);
    let mut line = sat_add_usize(rp.0, 1);
    let mut column = sat_add_usize(rp.1, 1);
    let mut found = false;
    let ghost mut witness: tree_sitter::Node = root;
    let mut message = String::from_str("syntax error");
    let mut stack: Vec<tree_sitter::Node> = Vec::new();
    stack.push(root);
    let mut budget: usize = 1048576;
    while budget > 0 && stack.len() > 0
        invariant
            !found ==> line as int == crate::format::sat_add(node_row_of(root0), 1)
                && column as int == crate::format::sat_add(node_col_of(root0), 1),
            found ==> (crate::tree::node_is_error_of(witness)
                || crate::tree::node_is_missing_of(witness)) && line as int
                == crate::format::sat_add(node_row_of(witness), 1) && column as int
                == crate::format::sat_add(node_col_of(witness), 1),
        decreases budget,
    {
        budget = budget - 1;
        let n = match stack.pop() {
            Some(n) => n,
            None => {
                break ;
            },
        };
        if crate::tree::node_is_error(&n) || crate::tree::node_is_missing(&n) {
            let p = node_start_point(&n);
            if !found {
                line = sat_add_usize(p.0, 1);
                column = sat_add_usize(p.1, 1);
                found = true;
                proof {
                    witness = n;
                }
            }
            message.append(" at ");
            let lt = crate::text::u64_to_string(sat_add_usize(p.0, 1) as u64);
            message.append(lt.as_str());
            message.append(":");
            let ct = crate::text::u64_to_string(sat_add_usize(p.1, 1) as u64);
            message.append(ct.as_str());
        } else if crate::tree::node_has_error(&n) {
            let cc = crate::tree::node_child_count(&n);
            let mut i: usize = 0;
            while i < cc
                invariant
                    cc as int == crate::tree::node_child_count_of(n),
                    cc <= u32::MAX,
                    i <= cc,
                decreases cc - i,
            {
                match crate::tree::node_child(&n, i) {
                    Some(c) => {
                        stack.push(c);
                    },
                    None => {},
                }
                i = i + 1;
            }
        }
    }
    let e = ParseError { filename: String::from_str(filename), line, column, message };
    proof {
        if found {
            assert(error_at(e, witness, filename@));
        } else {
            assert(error_at(e, root0, filename@));
        }
    }
    e
}

/// Where a parse or extraction failure points: a text the grammar cannot
/// parse at all is reported at 1:1; a tree with syntax errors at an error
/// or missing node (the root as fallback); a non-file root at the root,
/// with the mismatch named; an extraction failure at the failing top-level
/// node.
pub open spec fn err_located(e: ParseError, content: Seq<u8>, f: Seq<char>) -> bool {
    match crate::tree::parse_result_of(content) {
        None => e.filename@ == f && e.line == 1 && e.column == 1,
        Some(t) => {
            let root = crate::tree::tree_root_of(&t);
            if crate::tree::node_has_error_of(root) {
                e.filename@ == f && (error_at(e, root, f) || exists|n: tree_sitter::Node|
                    {
                        &&& crate::tree::node_is_error_of(n) || crate::tree::node_is_missing_of(
                            n,
                        )
                        &&& #[trigger] error_at(e, n, f)
                    })
            } else if node_kind_of(root) != "file".spec_bytes() {
                error_at(e, root, f) && e.message@ == "expected root node kind `file`, got `"@
                    + crate::text::utf8_lossy(node_kind_of(root)) + "`"@
            } else {
                exists|i: int|
                    0 <= i < node_named_count_of(root) && !top_level_ok(
                        #[trigger] node_named_child_of(root, i),
                        content,
                    ) && error_at(e, node_named_child_of(root, i), f)
            }
        },
    }
}

/// Parses a source text and extracts its directives; a text the grammar
/// reports errors for is a structured error carrying the first error
/// node's location.
pub fn parse_source(content: &[u8], filename: &str) -> (r: Result<
    Vec<crate::ast::Directive>,
    ParseError,
>)
    ensures
        r is Ok <==> parse_ok(content@),
        r matches Ok(ds) ==> directives_extracted(ds@, content@, filename@),
        r matches Err(e) ==> e.filename@ == filename@ && err_located(e, content@, filename@),
{
    match crate::tree::parse_tree(content) {
        Some(tree) => {
            let root = crate::tree::tree_root(&tree);
            if crate::tree::node_has_error(&root) {
                Err(collect_syntax_errors(root, filename))
            } else {
                parse_directives(&root, content, filename)
            }
        },
        None => Err(
            ParseError {
                filename: String::from_str(filename),
                line: 1,
                column: 1,
                message: String::from_str("failed to parse"),
            },
        ),
    }
}

} // verus!
