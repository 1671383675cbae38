//! The pretty-printing engine: renders the extracted directives back as
//! canonical, whitespace-normalized, column-aligned text.

use vstd::prelude::*;

use crate::ast::Directive;
use crate::ast::KeyValue;
use crate::ast::Open;
use crate::ast::Posting;
use crate::ast::Span;
use crate::ast::Transaction;
use crate::configuration::Configuration;
use crate::configuration::NewLineKind;
use crate::text::compact_ws;
use crate::text::crlf_to_lf;
use crate::text::crlf_to_lf_spec;
use crate::text::join_lines_spec;
use crate::text::normalize_line_spec;
use crate::text::split_lines_spec;
use crate::text::compact_ws_spec;
use crate::text::count_newlines_up_to;
use crate::text::count_nl_prefix;
use crate::text::is_ws;
use crate::text::normalize_indentation;
use crate::text::normalize_indentation_spec;
use crate::text::push_all;
use crate::text::spaces;
use crate::text::spaces_spec;
use crate::text::sub_bytes;
use crate::text::trim_bytes;
use crate::text::trim_end_bytes;
use crate::text::trim_end_spec;
use crate::text::trim_spec;
use crate::text::trim_start_spec;
use crate::text::LF;
use crate::text::SP;
use crate::text::TAB;
use vstd::string::StringSliceAdditionalSpecFns;

verus! {

/// The semicolon byte that opens a comment.
pub const SEMI: u8 = 59;

/// Saturating addition within `usize` range, on mathematical integers.
pub open spec fn sat_add(a: int, b: int) -> int {
    if a + b > usize::MAX {
        usize::MAX as int
    } else {
        a + b
    }
}

/// Saturating subtraction, on mathematical integers.
pub open spec fn sat_sub(a: int, b: int) -> int {
    if a - b < 0 {
        0
    } else {
        a - b
    }
}

fn usize_sat_add(a: usize, b: usize) -> (r: usize)
    ensures
        r == sat_add(a as int, b as int),
{
    if a > usize::MAX - b {
        usize::MAX
    } else {
        a + b
    }
}

fn usize_sat_sub(a: usize, b: usize) -> (r: usize)
    ensures
        r == sat_sub(a as int, b as int),
{
    if a >= b {
        a - b
    } else {
        0
    }
}

/// Two rendered parts joined by a single space; an empty part disappears.
pub open spec fn sp_join(a: Seq<u8>, b: Seq<u8>) -> Seq<u8> {
    if a.len() == 0 {
        b
    } else if b.len() == 0 {
        a
    } else {
        a + seq![SP] + b
    }
}

/// Appends `part` to `line`, separated by one space when both are
/// non-empty.
fn push_part(line: &mut Vec<u8>, part: &[u8])
    ensures
        final(line)@ == sp_join(old(line)@, part@),
{
    if part.len() == 0 {
        return ;
    }
    if line.len() > 0 {
        line.push(SP);
        push_all(line, part);
        proof {
            assert(line@ =~= old(line)@ + seq![SP] + part@);
        }
    } else {
        push_all(line, part);
        proof {
            assert(line@ =~= part@);
        }
    }
}

/// A comment token made canonical: `;` alone when empty, otherwise `"; "`
/// before the text with its leading semicolon and whitespace stripped.
pub open spec fn format_comment_spec(raw: Seq<u8>) -> Seq<u8> {
    let t = trim_spec(raw);
    let body = if t.len() > 0 && t[0] == SEMI {
        trim_start_spec(t.drop_first())
    } else {
        t
    };
    if body.len() == 0 {
        seq![SEMI]
    } else {
        seq![SEMI, SP] + body
    }
}

fn format_comment(raw: &[u8]) -> (r: Vec<u8>)
    ensures
        r@ == format_comment_spec(raw@),
{
    let t = trim_bytes(raw);
    let body: Vec<u8> = if t.len() > 0 && t[0] == SEMI {
        let rest = sub_bytes(t.as_slice(), 1, t.len());
        proof {
            assert(t@.drop_first() =~= t@.subrange(1, t@.len() as int));
        }
        let body = trim_bytes(rest.as_slice());
        proof {
            crate::text::lemma_trim_no_trailing_ws(raw@);
            if rest@.len() > 0 {
                assert(rest@.last() == t@.last());
                assert(trim_end_spec(rest@) == rest@);
            } else {
                assert(trim_end_spec(rest@) == rest@);
            }
        }
        body
    } else {
        t
    };
    let mut out: Vec<u8> = Vec::new();
    out.push(SEMI);
    if body.len() > 0 {
        out.push(SP);
        push_all(&mut out, body.as_slice());
        proof {
            assert(out@ =~= seq![SEMI, SP] + body@);
        }
    } else {
        proof {
            assert(out@ =~= seq![SEMI]);
        }
    }
    out
}

/// An amount made canonical: interior whitespace collapsed.
pub open spec fn format_amount_spec(raw: Seq<u8>) -> Seq<u8> {
    compact_ws_spec(raw)
}

fn format_amount(raw: &[u8]) -> (r: Vec<u8>)
    ensures
        r@ == format_amount_spec(raw@),
{
    compact_ws(raw)
}

/// The views of a list of byte strings (such as currency tokens).
pub open spec fn vecs_views(v: Seq<Vec<u8>>) -> Seq<Seq<u8>> {
    v.map_values(|x: Vec<u8>| x@)
}

/// Currency tokens joined by single spaces, each trimmed.
pub open spec fn currencies_join(cs: Seq<Seq<u8>>, i: int, acc: Seq<u8>) -> Seq<u8>
    decreases cs.len() - i,
{
    if i < 0 || i >= cs.len() {
        acc
    } else {
        currencies_join(cs, i + 1, sp_join(acc, trim_spec(cs[i])))
    }
}

/// The rendered currency list of an `open` directive, absent when there are
/// no currencies.
pub open spec fn format_currencies_spec(cs: Seq<Seq<u8>>) -> Option<Seq<u8>> {
    if cs.len() == 0 {
        None
    } else {
        Some(currencies_join(cs, 0, Seq::empty()))
    }
}

fn format_currencies(currencies: &Vec<Vec<u8>>) -> (r: Option<Vec<u8>>)
    ensures
        match r {
            Some(v) => format_currencies_spec(vecs_views(currencies@)) == Some(v@),
            None => format_currencies_spec(vecs_views(currencies@)) is None,
        },
{
    if currencies.len() == 0 {
        return None;
    }
    let ghost cs = vecs_views(currencies@);
    let mut acc: Vec<u8> = Vec::new();
    let mut i: usize = 0;
    while i < currencies.len()
        invariant
            i <= currencies@.len(),
            cs == vecs_views(currencies@),
            cs.len() == currencies@.len(),
            currencies_join(cs, 0, Seq::empty()) == currencies_join(cs, i as int, acc@),
        decreases currencies@.len() - i,
    {
        proof {
            assert(cs[i as int] == currencies@[i as int]@);
        }
        let t = trim_bytes(currencies[i].as_slice());
        push_part(&mut acc, t.as_slice());
        i = i + 1;
    }
    Some(acc)
}

/// Right-justifies a trailing value so its last character lands two columns
/// short of `comment_col`, but never earlier than one space past the base.
pub open spec fn align_trailing_spec(
    base: Seq<u8>,
    trailing: Option<Seq<u8>>,
    comment_col: int,
) -> Seq<u8> {
    match trailing {
        None => base,
        Some(v) => {
            let target_end = sat_sub(comment_col, 2);
            let desired_start = sat_sub(target_end, sat_sub(v.len() as int, 1));
            let start = if desired_start > sat_add(base.len() as int, 1) {
                desired_start
            } else {
                sat_add(base.len() as int, 1)
            };
            base + spaces_spec(start - base.len()) + v
        },
    }
}

fn align_trailing(base: Vec<u8>, trailing: Option<Vec<u8>>, comment_col: usize) -> (r: Vec<u8>)
    ensures
        r@ == align_trailing_spec(base@, match trailing {
            Some(v) => Some(v@),
            None => None,
        }, comment_col as int),
{
    match trailing {
        None => base,
        Some(value) => {
            let mut base = base;
            let target_end = usize_sat_sub(comment_col, 2);
            let desired_start = usize_sat_sub(target_end, usize_sat_sub(value.len(), 1));
            let floor = usize_sat_add(base.len(), 1);
            let start = if desired_start > floor {
                desired_start
            } else {
                floor
            };
            let pad = spaces(start - base.len());
            push_all(&mut base, pad.as_slice());
            push_all(&mut base, value.as_slice());
            base
        },
    }
}

/// Appends a canonical comment to a line: trailing whitespace trimmed, the
/// line padded to `line_width` when alignment is requested and the line is
/// shorter, otherwise exactly one separating space.
pub open spec fn append_comment_spec(
    line: Seq<u8>,
    comment: Seq<u8>,
    line_width: int,
    align: bool,
) -> Seq<u8> {
    let trimmed = trim_end_spec(line);
    let padded = if align && trimmed.len() < line_width {
        trimmed + spaces_spec(line_width - trimmed.len())
    } else if !(trimmed.len() > 0 && trimmed.last() == SP) {
        trimmed + seq![SP]
    } else {
        trimmed
    };
    padded + comment
}

fn append_comment(line: Vec<u8>, comment: &[u8], config: &Configuration, align: bool) -> (r: Vec<
    u8,
>)
    ensures
        r@ == append_comment_spec(line@, comment@, config.line_width as int, align),
{
    let mut out = trim_end_bytes(line.as_slice());
    let target = config.line_width as usize;
    if align && out.len() < target {
        let pad = spaces(target - out.len());
        push_all(&mut out, pad.as_slice());
    } else {
        if !(out.len() > 0 && out[out.len() - 1] == SP) {
            out.push(SP);
            proof {
                assert(out@ =~= trim_end_spec(line@) + seq![SP]);
            }
        }
    }
    push_all(&mut out, comment);
    out
}

/// A metadata text made canonical: `key:` alone, or `key: value`, both
/// trimmed, split at the first colon.
pub open spec fn normalize_key_value_spec(text: Seq<u8>) -> Seq<u8> {
    let c = first_colon(text, 0);
    let key = trim_spec(text.take(c));
    let value = if c < text.len() {
        trim_spec(text.subrange(c + 1, text.len() as int))
    } else {
        Seq::empty()
    };
    if value.len() == 0 {
        key + seq![COLON]
    } else {
        key + seq![COLON, SP] + value
    }
}

/// The colon byte.
pub const COLON: u8 = 58;

/// The index of the first colon at or after `i`, or the length when none.
pub open spec fn first_colon(s: Seq<u8>, i: int) -> int
    decreases s.len() - i,
{
    if i < 0 || i >= s.len() {
        s.len() as int
    } else if s[i] == COLON {
        i
    } else {
        first_colon(s, i + 1)
    }
}

proof fn lemma_first_colon_bounds(s: Seq<u8>, i: int)
    requires
        0 <= i <= s.len(),
    ensures
        i <= first_colon(s, i) <= s.len(),
    decreases s.len() - i,
{
    if i < s.len() && s[i] != COLON {
        lemma_first_colon_bounds(s, i + 1);
    }
}

fn normalize_key_value(text: &[u8]) -> (r: Vec<u8>)
    ensures
        r@ == normalize_key_value_spec(text@),
{
    proof {
        lemma_first_colon_bounds(text@, 0);
    }
    let mut c: usize = 0;
    while c < text.len() && text[c] != COLON
        invariant
            c <= text@.len(),
            first_colon(text@, 0) == first_colon(text@, c as int),
        decreases text@.len() - c,
    {
        c = c + 1;
    }
    let key = trim_bytes(vstd::slice::slice_subrange(text, 0, c));
    proof {
        assert(text@.take(c as int) =~= text@.subrange(0, c as int));
    }
    let value: Vec<u8> = if c < text.len() {
        trim_bytes(vstd::slice::slice_subrange(text, c + 1, text.len()))
    } else {
        Vec::new()
    };
    let mut out = key;
    out.push(COLON);
    if value.len() > 0 {
        out.push(SP);
        push_all(&mut out, value.as_slice());
        proof {
            assert(out@ =~= trim_spec(text@.take(first_colon(text@, 0))) + seq![COLON, SP]
                + value@);
        }
    } else {
        proof {
            assert(out@ =~= trim_spec(text@.take(first_colon(text@, 0))) + seq![COLON]);
        }
    }
    out
}

/// The visual width of a line's leading whitespace: spaces count one, tabs
/// count one indent width.
pub open spec fn leading_indent_go(line: Seq<u8>, iw: int, i: int, acc: int) -> int
    decreases line.len() - i,
{
    if i < 0 || i >= line.len() {
        acc
    } else if line[i] == SP {
        leading_indent_go(line, iw, i + 1, sat_add(acc, 1))
    } else if line[i] == TAB {
        leading_indent_go(line, iw, i + 1, sat_add(acc, iw))
    } else {
        acc
    }
}

pub open spec fn leading_indent_spec(line: Seq<u8>, iw: int) -> int {
    leading_indent_go(line, iw, 0, 0)
}

fn leading_indent_width(line: &[u8], indent_width: u8) -> (r: usize)
    ensures
        r == leading_indent_spec(line@, indent_width as int),
{
    let mut width: usize = 0;
    let mut i: usize = 0;
    while i < line.len()
        invariant
            i <= line@.len(),
            leading_indent_spec(line@, indent_width as int) == leading_indent_go(
                line@,
                indent_width as int,
                i as int,
                width as int,
            ),
        decreases line@.len() - i,
    {
        let b = line[i];
        if b == SP {
            width = usize_sat_add(width, 1);
        } else if b == TAB {
            width = usize_sat_add(width, indent_width as usize);
        } else {
            return width;
        }
        i = i + 1;
    }
    width
}

/// The hash byte that prefixes a tag.
pub const HASH: u8 = 35;

/// Simple growable output buffer.
pub struct Writer {
    buf: Vec<u8>,
}

impl View for Writer {
    type V = Seq<u8>;

    closed spec fn view(&self) -> Seq<u8> {
        self.buf@
    }
}

impl Writer {
    pub fn with_capacity(capacity: usize) -> (r: Writer)
        ensures
            r@ == Seq::<u8>::empty(),
    {
        Writer { buf: Vec::with_capacity(capacity) }
    }

    pub fn write_str(&mut self, piece: &[u8])
        ensures
            final(self)@ == old(self)@ + piece@,
    {
        push_all(&mut self.buf, piece);
    }

    pub fn write_byte(&mut self, b: u8)
        ensures
            final(self)@ == old(self)@ + seq![b],
    {
        self.buf.push(b);
        proof {
            assert(self.buf@ =~= old(self)@ + seq![b]);
        }
    }

    pub fn finish(self) -> (r: Vec<u8>)
        ensures
            r@ == self@,
    {
        self.buf
    }
}

/// The bytes `[start, end)` of `src`, clamped to the buffer.
pub open spec fn slice_clamped_spec(src: Seq<u8>, start: int, end: int) -> Seq<u8> {
    let e = if end <= src.len() {
        end
    } else {
        src.len() as int
    };
    let s = if start <= e {
        start
    } else {
        e
    };
    if s < 0 {
        src.subrange(0, e)
    } else {
        src.subrange(s, e)
    }
}

fn slice_clamped(src: &[u8], span: Span) -> (r: Vec<u8>)
    ensures
        r@ == slice_clamped_spec(src@, span.start as int, span.end as int),
{
    let e: usize = if span.end <= src.len() {
        span.end
    } else {
        src.len()
    };
    let s: usize = if span.start <= e {
        span.start
    } else {
        e
    };
    sub_bytes(src, s, e)
}

/// A verbatim span rendered: indentation-normalized, with one trailing line
/// feed dropped if present.
pub open spec fn render_span_spec(span: Span, src: Seq<u8>, iw: int) -> Seq<u8> {
    let t = normalize_indentation_spec(
        slice_clamped_spec(src, span.start as int, span.end as int),
        iw,
    );
    if t.len() > 0 && t.last() == LF {
        t.drop_last()
    } else {
        t
    }
}

fn render_span(span: Span, src: &[u8], indent_width: u8) -> (r: Vec<u8>)
    ensures
        r@ == render_span_spec(span, src@, indent_width as int),
{
    let slice = slice_clamped(src, span);
    let mut t = normalize_indentation(slice.as_slice(), indent_width);
    if t.len() > 0 && t[t.len() - 1] == LF {
        t.pop();
        proof {
            assert(t@ =~= render_span_spec(span, src@, indent_width as int));
        }
    }
    t
}

/// One metadata line rendered: its span's text normalized, one trailing
/// line feed dropped, and the line reindented to exactly one indent level
/// from the parent.
pub open spec fn render_kv_spec(kv: KeyValue, src: Seq<u8>, iw: int) -> Seq<u8> {
    spaces_spec(iw) + trim_start_spec(render_span_spec(kv.span, src, iw))
}

/// The metadata lines of a directive, each on a line of its own.
pub open spec fn render_kvs_spec(kvs: Seq<KeyValue>, src: Seq<u8>, iw: int, i: int) -> Seq<u8>
    decreases kvs.len() - i,
{
    if i < 0 || i >= kvs.len() {
        Seq::empty()
    } else {
        seq![LF] + render_kv_spec(kvs[i], src, iw) + render_kvs_spec(kvs, src, iw, i + 1)
    }
}

fn format_key_values(writer: &mut Writer, key_values: &Vec<KeyValue>, src: &[u8], config:
    &Configuration)
    ensures
        final(writer)@ == old(writer)@ + render_kvs_spec(
            key_values@,
            src@,
            config.indent_width as int,
            0,
        ),
{
    let ghost iw = config.indent_width as int;
    let mut i: usize = 0;
    proof {
        assert(old(writer)@ + Seq::<u8>::empty() =~= old(writer)@);
    }
    while i < key_values.len()
        invariant
            i <= key_values@.len(),
            iw == config.indent_width as int,
            old(writer)@ + render_kvs_spec(key_values@, src@, iw, 0) == writer@ + render_kvs_spec(
                key_values@,
                src@,
                iw,
                i as int,
            ),
        decreases key_values@.len() - i,
    {
        let ghost pre = writer@;
        writer.write_byte(LF);
        let kv = &key_values[i];
        let t = render_span(kv.span, src, config.indent_width);
        let body = crate::text::trim_start_bytes(t.as_slice());
        let indent = spaces(config.indent_width as usize);
        writer.write_str(indent.as_slice());
        writer.write_str(body.as_slice());
        proof {
            assert(writer@ =~= pre + (seq![LF] + render_kv_spec(
                key_values@[i as int],
                src@,
                iw,
            )));
        }
        proof {
            assert(pre + (seq![LF] + render_kv_spec(key_values@[i as int], src@, iw))
                + render_kvs_spec(key_values@, src@, iw, i + 1) =~= pre + render_kvs_spec(
                key_values@,
                src@,
                iw,
                i as int,
            ));
        }
        i = i + 1;
    }
    proof {
        assert(writer@ + Seq::<u8>::empty() =~= writer@);
    }
}


/// The rendered comment suffix of a line, when a comment is present.
pub open spec fn with_comment_spec(
    line: Seq<u8>,
    comment: Option<Vec<u8>>,
    line_width: int,
    align: bool,
) -> Seq<u8> {
    match comment {
        Some(c) => append_comment_spec(line, format_comment_spec(c@), line_width, align),
        None => line,
    }
}

fn with_comment(line: Vec<u8>, comment: &Option<Vec<u8>>, config: &Configuration, align: bool)
    -> (r: Vec<u8>)
    ensures
        r@ == with_comment_spec(line@, *comment, config.line_width as int, align),
{
    match comment {
        Some(c) => {
            let fc = format_comment(c.as_slice());
            append_comment(line, fc.as_slice(), config, align)
        },
        None => line,
    }
}

/// The view of an optional byte string.
pub open spec fn opt_view(v: Option<Vec<u8>>) -> Option<Seq<u8>> {
    match v {
        Some(x) => Some(x@),
        None => None,
    }
}

pub open spec fn render_open_spec(d: Open, cfg: Configuration) -> Seq<u8> {
    let line = sp_join(
        sp_join(trim_spec(d.date@), "open".spec_bytes()),
        trim_spec(d.account@),
    );
    let line = match format_currencies_spec(vecs_views(d.currencies@)) {
        Some(cs) => sp_join(line, cs),
        None => line,
    };
    with_comment_spec(line, d.comment, cfg.line_width as int, true)
}

fn format_open(writer: &mut Writer, d: &Open, config: &Configuration)
    ensures
        final(writer)@ == old(writer)@ + render_open_spec(*d, *config),
{
    let mut line: Vec<u8> = Vec::new();
    let date = trim_bytes(d.date.as_slice());
    push_part(&mut line, date.as_slice());
    push_part(&mut line, "open".as_bytes());
    let account = trim_bytes(d.account.as_slice());
    push_part(&mut line, account.as_slice());
    match format_currencies(&d.currencies) {
        Some(cs) => {
            push_part(&mut line, cs.as_slice());
        },
        None => {},
    }
    let line = with_comment(line, &d.comment, config, true);
    writer.write_str(line.as_slice());
}

pub open spec fn render_close_spec(d: crate::ast::Close, cfg: Configuration) -> Seq<u8> {
    let line = sp_join(
        sp_join(trim_spec(d.date@), "close".spec_bytes()),
        trim_spec(d.account@),
    );
    with_comment_spec(line, d.comment, cfg.line_width as int, false)
}

fn format_close(writer: &mut Writer, d: &crate::ast::Close, config: &Configuration)
    ensures
        final(writer)@ == old(writer)@ + render_close_spec(*d, *config),
{
    let mut line: Vec<u8> = Vec::new();
    let date = trim_bytes(d.date.as_slice());
    push_part(&mut line, date.as_slice());
    push_part(&mut line, "close".as_bytes());
    let account = trim_bytes(d.account.as_slice());
    push_part(&mut line, account.as_slice());
    let line = with_comment(line, &d.comment, config, false);
    writer.write_str(line.as_slice());
}

pub open spec fn render_balance_spec(d: crate::ast::Balance, cfg: Configuration) -> Seq<u8> {
    let line = sp_join(
        sp_join(trim_spec(d.date@), "balance".spec_bytes()),
        trim_spec(d.account@),
    );
    let line = align_trailing_spec(
        line,
        Some(format_amount_spec(d.amount@)),
        cfg.line_width as int,
    );
    with_comment_spec(line, d.comment, cfg.line_width as int, true)
}

fn format_balance(writer: &mut Writer, d: &crate::ast::Balance, config: &Configuration)
    ensures
        final(writer)@ == old(writer)@ + render_balance_spec(*d, *config),
{
    let mut line: Vec<u8> = Vec::new();
    let date = trim_bytes(d.date.as_slice());
    push_part(&mut line, date.as_slice());
    push_part(&mut line, "balance".as_bytes());
    let account = trim_bytes(d.account.as_slice());
    push_part(&mut line, account.as_slice());
    let trailing = format_amount(d.amount.as_slice());
    let line = align_trailing(line, Some(trailing), config.line_width as usize);
    let line = with_comment(line, &d.comment, config, true);
    writer.write_str(line.as_slice());
}

pub open spec fn render_pad_spec(d: crate::ast::Pad, cfg: Configuration) -> Seq<u8> {
    let line = sp_join(
        sp_join(
            sp_join(trim_spec(d.date@), "pad".spec_bytes()),
            trim_spec(d.account@),
        ),
        trim_spec(d.from_account@),
    );
    with_comment_spec(line, d.comment, cfg.line_width as int, false)
}

fn format_pad(writer: &mut Writer, d: &crate::ast::Pad, config: &Configuration)
    ensures
        final(writer)@ == old(writer)@ + render_pad_spec(*d, *config),
{
    let mut line: Vec<u8> = Vec::new();
    let date = trim_bytes(d.date.as_slice());
    push_part(&mut line, date.as_slice());
    push_part(&mut line, "pad".as_bytes());
    let account = trim_bytes(d.account.as_slice());
    push_part(&mut line, account.as_slice());
    let from_account = trim_bytes(d.from_account.as_slice());
    push_part(&mut line, from_account.as_slice());
    let line = with_comment(line, &d.comment, config, false);
    writer.write_str(line.as_slice());
}

pub open spec fn render_commodity_spec(d: crate::ast::Commodity, cfg: Configuration) -> Seq<u8> {
    let line = sp_join(trim_spec(d.date@), "commodity".spec_bytes());
    let line = align_trailing_spec(line, Some(trim_spec(d.currency@)), cfg.line_width as int);
    with_comment_spec(line, d.comment, cfg.line_width as int, true)
}

fn format_commodity(writer: &mut Writer, d: &crate::ast::Commodity, config: &Configuration)
    ensures
        final(writer)@ == old(writer)@ + render_commodity_spec(*d, *config),
{
    let mut line: Vec<u8> = Vec::new();
    let date = trim_bytes(d.date.as_slice());
    push_part(&mut line, date.as_slice());
    push_part(&mut line, "commodity".as_bytes());
    let currency = trim_bytes(d.currency.as_slice());
    let line = align_trailing(line, Some(currency), config.line_width as usize);
    let line = with_comment(line, &d.comment, config, true);
    writer.write_str(line.as_slice());
}

pub open spec fn render_price_spec(d: crate::ast::Price, cfg: Configuration) -> Seq<u8> {
    let line = sp_join(
        sp_join(trim_spec(d.date@), "price".spec_bytes()),
        trim_spec(d.currency@),
    );
    let line = align_trailing_spec(
        line,
        Some(format_amount_spec(d.amount@)),
        cfg.line_width as int,
    );
    with_comment_spec(line, d.comment, cfg.line_width as int, true)
}

fn format_price(writer: &mut Writer, d: &crate::ast::Price, config: &Configuration)
    ensures
        final(writer)@ == old(writer)@ + render_price_spec(*d, *config),
{
    let mut line: Vec<u8> = Vec::new();
    let date = trim_bytes(d.date.as_slice());
    push_part(&mut line, date.as_slice());
    push_part(&mut line, "price".as_bytes());
    let currency = trim_bytes(d.currency.as_slice());
    push_part(&mut line, currency.as_slice());
    let trailing = format_amount(d.amount.as_slice());
    let line = align_trailing(line, Some(trailing), config.line_width as usize);
    let line = with_comment(line, &d.comment, config, true);
    writer.write_str(line.as_slice());
}

pub open spec fn render_event_spec(d: crate::ast::Event, cfg: Configuration) -> Seq<u8> {
    let line = sp_join(
        sp_join(
            sp_join(trim_spec(d.date@), "event".spec_bytes()),
            trim_spec(d.event_type@),
        ),
        trim_spec(d.desc@),
    );
    with_comment_spec(line, d.comment, cfg.line_width as int, false)
}

fn format_event(writer: &mut Writer, d: &crate::ast::Event, config: &Configuration)
    ensures
        final(writer)@ == old(writer)@ + render_event_spec(*d, *config),
{
    let mut line: Vec<u8> = Vec::new();
    let date = trim_bytes(d.date.as_slice());
    push_part(&mut line, date.as_slice());
    push_part(&mut line, "event".as_bytes());
    let event_type = trim_bytes(d.event_type.as_slice());
    push_part(&mut line, event_type.as_slice());
    let desc = trim_bytes(d.desc.as_slice());
    push_part(&mut line, desc.as_slice());
    let line = with_comment(line, &d.comment, config, false);
    writer.write_str(line.as_slice());
}

pub open spec fn render_query_spec(d: crate::ast::Query, cfg: Configuration) -> Seq<u8> {
    let line = sp_join(
        sp_join(
            sp_join(trim_spec(d.date@), "query".spec_bytes()),
            trim_spec(d.name@),
        ),
        trim_spec(d.query@),
    );
    with_comment_spec(line, d.comment, cfg.line_width as int, false)
}

fn format_query(writer: &mut Writer, d: &crate::ast::Query, config: &Configuration)
    ensures
        final(writer)@ == old(writer)@ + render_query_spec(*d, *config),
{
    let mut line: Vec<u8> = Vec::new();
    let date = trim_bytes(d.date.as_slice());
    push_part(&mut line, date.as_slice());
    push_part(&mut line, "query".as_bytes());
    let name = trim_bytes(d.name.as_slice());
    push_part(&mut line, name.as_slice());
    let query = trim_bytes(d.query.as_slice());
    push_part(&mut line, query.as_slice());
    let line = with_comment(line, &d.comment, config, false);
    writer.write_str(line.as_slice());
}

pub open spec fn render_note_spec(d: crate::ast::Note, cfg: Configuration) -> Seq<u8> {
    let line = sp_join(
        sp_join(
            sp_join(trim_spec(d.date@), "note".spec_bytes()),
            trim_spec(d.account@),
        ),
        trim_spec(d.note@),
    );
    with_comment_spec(line, d.comment, cfg.line_width as int, false)
}

fn format_note(writer: &mut Writer, d: &crate::ast::Note, config: &Configuration)
    ensures
        final(writer)@ == old(writer)@ + render_note_spec(*d, *config),
{
    let mut line: Vec<u8> = Vec::new();
    let date = trim_bytes(d.date.as_slice());
    push_part(&mut line, date.as_slice());
    push_part(&mut line, "note".as_bytes());
    let account = trim_bytes(d.account.as_slice());
    push_part(&mut line, account.as_slice());
    let note = trim_bytes(d.note.as_slice());
    push_part(&mut line, note.as_slice());
    let line = with_comment(line, &d.comment, config, false);
    writer.write_str(line.as_slice());
}

pub open spec fn render_document_spec(d: crate::ast::Document, cfg: Configuration) -> Seq<u8> {
    let line = sp_join(
        sp_join(
            sp_join(
                sp_join(trim_spec(d.date@), "document".spec_bytes()),
                trim_spec(d.account@),
            ),
            trim_spec(d.filename@),
        ),
        match d.tags_links {
            Some(t) => trim_spec(t@),
            None => Seq::empty(),
        },
    );
    with_comment_spec(line, d.comment, cfg.line_width as int, false)
}

fn format_document(writer: &mut Writer, d: &crate::ast::Document, config: &Configuration)
    ensures
        final(writer)@ == old(writer)@ + render_document_spec(*d, *config),
{
    let mut line: Vec<u8> = Vec::new();
    let date = trim_bytes(d.date.as_slice());
    push_part(&mut line, date.as_slice());
    push_part(&mut line, "document".as_bytes());
    let account = trim_bytes(d.account.as_slice());
    push_part(&mut line, account.as_slice());
    let filename = trim_bytes(d.filename.as_slice());
    push_part(&mut line, filename.as_slice());
    match &d.tags_links {
        Some(t) => {
            let tt = trim_bytes(t.as_slice());
            push_part(&mut line, tt.as_slice());
        },
        None => {
            proof {
                assert(sp_join(line@, Seq::empty()) == line@);
            }
        },
    }
    let line = with_comment(line, &d.comment, config, false);
    writer.write_str(line.as_slice());
}

/// Custom directive values joined by single spaces, each trimmed.
pub open spec fn custom_values_join(vs: Seq<Seq<u8>>, i: int, acc: Seq<u8>) -> Seq<u8>
    decreases vs.len() - i,
{
    if i < 0 || i >= vs.len() {
        acc
    } else {
        custom_values_join(vs, i + 1, sp_join(acc, trim_spec(vs[i])))
    }
}

pub open spec fn render_custom_spec(d: crate::ast::Custom, cfg: Configuration) -> Seq<u8> {
    let line = sp_join(
        sp_join(
            sp_join(trim_spec(d.date@), "custom".spec_bytes()),
            trim_spec(d.name@),
        ),
        custom_values_join(vecs_views(d.values@), 0, Seq::empty()),
    );
    with_comment_spec(line, d.comment, cfg.line_width as int, false)
}

fn format_custom(writer: &mut Writer, d: &crate::ast::Custom, config: &Configuration)
    ensures
        final(writer)@ == old(writer)@ + render_custom_spec(*d, *config),
{
    let mut line: Vec<u8> = Vec::new();
    let date = trim_bytes(d.date.as_slice());
    push_part(&mut line, date.as_slice());
    push_part(&mut line, "custom".as_bytes());
    let name = trim_bytes(d.name.as_slice());
    push_part(&mut line, name.as_slice());
    let ghost vs = vecs_views(d.values@);
    let mut joined: Vec<u8> = Vec::new();
    let mut i: usize = 0;
    while i < d.values.len()
        invariant
            i <= d.values@.len(),
            vs == vecs_views(d.values@),
            vs.len() == d.values@.len(),
            custom_values_join(vs, 0, Seq::empty()) == custom_values_join(vs, i as int, joined@),
        decreases d.values@.len() - i,
    {
        proof {
            assert(vs[i as int] == d.values@[i as int]@);
        }
        let t = trim_bytes(d.values[i].as_slice());
        push_part(&mut joined, t.as_slice());
        i = i + 1;
    }
    push_part(&mut line, joined.as_slice());
    let line = with_comment(line, &d.comment, config, false);
    writer.write_str(line.as_slice());
}

pub open spec fn render_option_spec(d: crate::ast::OptionDirective) -> Seq<u8> {
    sp_join(
        sp_join("option".spec_bytes(), trim_spec(d.key@)),
        trim_spec(d.value@),
    )
}

fn format_option(writer: &mut Writer, d: &crate::ast::OptionDirective)
    ensures
        final(writer)@ == old(writer)@ + render_option_spec(*d),
{
    let mut line: Vec<u8> = Vec::new();
    push_part(&mut line, "option".as_bytes());
    let key = trim_bytes(d.key.as_slice());
    push_part(&mut line, key.as_slice());
    let value = trim_bytes(d.value.as_slice());
    push_part(&mut line, value.as_slice());
    writer.write_str(line.as_slice());
}

pub open spec fn render_include_spec(d: crate::ast::Include) -> Seq<u8> {
    sp_join("include".spec_bytes(), trim_spec(d.filename@))
}

fn format_include(writer: &mut Writer, d: &crate::ast::Include)
    ensures
        final(writer)@ == old(writer)@ + render_include_spec(*d),
{
    let mut line: Vec<u8> = Vec::new();
    push_part(&mut line, "include".as_bytes());
    let filename = trim_bytes(d.filename.as_slice());
    push_part(&mut line, filename.as_slice());
    writer.write_str(line.as_slice());
}

pub open spec fn render_plugin_spec(d: crate::ast::Plugin) -> Seq<u8> {
    sp_join(
        sp_join("plugin".spec_bytes(), trim_spec(d.name@)),
        match d.config {
            Some(c) => trim_spec(c@),
            None => Seq::empty(),
        },
    )
}

fn format_plugin(writer: &mut Writer, d: &crate::ast::Plugin)
    ensures
        final(writer)@ == old(writer)@ + render_plugin_spec(*d),
{
    let mut line: Vec<u8> = Vec::new();
    push_part(&mut line, "plugin".as_bytes());
    let name = trim_bytes(d.name.as_slice());
    push_part(&mut line, name.as_slice());
    match &d.config {
        Some(c) => {
            let cc = trim_bytes(c.as_slice());
            push_part(&mut line, cc.as_slice());
        },
        None => {
            proof {
                assert(sp_join(line@, Seq::empty()) == line@);
            }
        },
    }
    writer.write_str(line.as_slice());
}

/// A tag rendered with its hash prefix.
pub open spec fn tag_token_spec(tag: Seq<u8>) -> Seq<u8> {
    seq![HASH] + trim_spec(tag)
}

pub open spec fn render_pushtag_spec(d: crate::ast::TagDirective) -> Seq<u8> {
    sp_join("pushtag".spec_bytes(), tag_token_spec(d.tag@))
}

pub open spec fn render_poptag_spec(d: crate::ast::TagDirective) -> Seq<u8> {
    sp_join("poptag".spec_bytes(), tag_token_spec(d.tag@))
}

fn tag_token(tag: &[u8]) -> (r: Vec<u8>)
    ensures
        r@ == tag_token_spec(tag@),
{
    let mut out: Vec<u8> = Vec::new();
    out.push(HASH);
    let t = trim_bytes(tag);
    push_all(&mut out, t.as_slice());
    proof {
        assert(out@ =~= tag_token_spec(tag@));
    }
    out
}

fn format_pushtag(writer: &mut Writer, d: &crate::ast::TagDirective)
    ensures
        final(writer)@ == old(writer)@ + render_pushtag_spec(*d),
{
    let mut line: Vec<u8> = Vec::new();
    push_part(&mut line, "pushtag".as_bytes());
    let tag = tag_token(d.tag.as_slice());
    push_part(&mut line, tag.as_slice());
    writer.write_str(line.as_slice());
}

fn format_poptag(writer: &mut Writer, d: &crate::ast::TagDirective)
    ensures
        final(writer)@ == old(writer)@ + render_poptag_spec(*d),
{
    let mut line: Vec<u8> = Vec::new();
    push_part(&mut line, "poptag".as_bytes());
    let tag = tag_token(d.tag.as_slice());
    push_part(&mut line, tag.as_slice());
    writer.write_str(line.as_slice());
}

pub open spec fn render_pushmeta_spec(d: crate::ast::Pushmeta) -> Seq<u8> {
    sp_join("pushmeta".spec_bytes(), normalize_key_value_spec(d.key_value@))
}

fn format_pushmeta(writer: &mut Writer, d: &crate::ast::Pushmeta)
    ensures
        final(writer)@ == old(writer)@ + render_pushmeta_spec(*d),
{
    let mut line: Vec<u8> = Vec::new();
    push_part(&mut line, "pushmeta".as_bytes());
    let kv = normalize_key_value(d.key_value.as_slice());
    push_part(&mut line, kv.as_slice());
    writer.write_str(line.as_slice());
}

pub open spec fn render_popmeta_spec(d: crate::ast::Popmeta) -> Seq<u8> {
    sp_join("popmeta".spec_bytes(), trim_spec(d.key@) + seq![COLON])
}

fn format_popmeta(writer: &mut Writer, d: &crate::ast::Popmeta)
    ensures
        final(writer)@ == old(writer)@ + render_popmeta_spec(*d),
{
    let mut line: Vec<u8> = Vec::new();
    push_part(&mut line, "popmeta".as_bytes());
    let mut key = trim_bytes(d.key.as_slice());
    key.push(COLON);
    proof {
        assert(key@ =~= trim_spec(d.key@) + seq![COLON]);
    }
    push_part(&mut line, key.as_slice());
    writer.write_str(line.as_slice());
}

/// The rendered trailing value of a posting: amount, then cost, price
/// operator and price annotation, joined by single spaces; absent without an
/// amount. Cost specifications and price annotations may hold string
/// literals, so their whitespace is collapsed string-aware: bytes inside a
/// double-quoted string, tabs included, stay verbatim.
pub open spec fn posting_trailing_spec(p: Posting) -> Option<Seq<u8>> {
    match p.amount {
        Some(a) => {
            let t = format_amount_spec(a@);
            let t = match p.cost_spec {
                Some(c) => t + seq![SP] + crate::text::compact_outside_spec(c@),
                None => t,
            };
            let t = match p.price_operator {
                Some(op) => t + seq![SP] + trim_spec(op@),
                None => t,
            };
            let t = match p.price_annotation {
                Some(pa) => t + seq![SP] + crate::text::compact_outside_spec(pa@),
                None => t,
            };
            Some(t)
        },
        None => None,
    }
}

fn posting_trailing(p: &Posting) -> (r: Option<Vec<u8>>)
    ensures
        opt_view(r) == posting_trailing_spec(*p),
{
    match &p.amount {
        Some(a) => {
            let mut t = format_amount(a.as_slice());
            match &p.cost_spec {
                Some(c) => {
                    t.push(SP);
                    let cc = crate::text::compact_ws_outside_strings(c.as_slice());
                    push_all(&mut t, cc.as_slice());
                    proof {
                        assert(t@ =~= format_amount_spec(p.amount->0@) + seq![SP]
                            + crate::text::compact_outside_spec(c@));
                    }
                },
                None => {},
            }
            let ghost t1 = t@;
            match &p.price_operator {
                Some(op) => {
                    t.push(SP);
                    let oo = trim_bytes(op.as_slice());
                    push_all(&mut t, oo.as_slice());
                    proof {
                        assert(t@ =~= t1 + seq![SP] + trim_spec(op@));
                    }
                },
                None => {},
            }
            let ghost t2 = t@;
            match &p.price_annotation {
                Some(pa) => {
                    t.push(SP);
                    let aa = crate::text::compact_ws_outside_strings(pa.as_slice());
                    push_all(&mut t, aa.as_slice());
                    proof {
                        assert(t@ =~= t2 + seq![SP] + crate::text::compact_outside_spec(pa@));
                    }
                },
                None => {},
            }
            Some(t)
        },
        None => None,
    }
}

/// One posting rendered at the common indent.
pub open spec fn posting_line_spec(p: Posting, min_indent: int, cfg: Configuration) -> Seq<u8> {
    let base = spaces_spec(min_indent);
    let base = match p.opt_flag {
        Some(f) => base + trim_spec(f@) + seq![SP],
        None => base,
    };
    let base = base + trim_spec(p.account@);
    let aligned = align_trailing_spec(base, posting_trailing_spec(p), cfg.line_width as int);
    with_comment_spec(aligned, p.comment, cfg.line_width as int, true)
}

fn render_posting_line(p: &Posting, min_indent: usize, config: &Configuration) -> (r: Vec<u8>)
    ensures
        r@ == posting_line_spec(*p, min_indent as int, *config),
{
    let mut base = spaces(min_indent);
    match &p.opt_flag {
        Some(f) => {
            let ff = trim_bytes(f.as_slice());
            push_all(&mut base, ff.as_slice());
            base.push(SP);
            proof {
                assert(base@ =~= spaces_spec(min_indent as int) + trim_spec(f@) + seq![SP]);
            }
        },
        None => {},
    }
    let account = trim_bytes(p.account.as_slice());
    push_all(&mut base, account.as_slice());
    let trailing = posting_trailing(p);
    let aligned = align_trailing(base, trailing, config.line_width as usize);
    with_comment(aligned, &p.comment, config, true)
}

/// The physical line a posting starts on, counted by line feeds in the raw
/// transaction text before the posting's offset.
pub open spec fn posting_idx_spec(p: Posting, tstart: int, ttext: Seq<u8>) -> int {
    let off = sat_sub(p.span.start as int, tstart);
    count_nl_prefix(ttext, if off <= ttext.len() {
        off
    } else {
        ttext.len() as int
    })
}

/// The minimum leading-indent width over the posting lines, folded left.
pub open spec fn min_indent_go(
    ps: Seq<Posting>,
    tstart: int,
    ttext: Seq<u8>,
    lines: Seq<Seq<u8>>,
    iw: int,
    k: int,
    acc: int,
) -> int
    decreases ps.len() - k,
{
    if k < 0 || k >= ps.len() {
        acc
    } else {
        let idx = posting_idx_spec(ps[k], tstart, ttext);
        let acc2 = if 0 <= idx < lines.len() {
            let w = leading_indent_spec(lines[idx], iw);
            if w < acc {
                w
            } else {
                acc
            }
        } else {
            acc
        };
        min_indent_go(ps, tstart, ttext, lines, iw, k + 1, acc2)
    }
}

/// The common indent for a transaction's postings: the minimum observed
/// indent, or two indent levels when no posting line is found.
pub open spec fn min_indent_spec(
    ps: Seq<Posting>,
    tstart: int,
    ttext: Seq<u8>,
    lines: Seq<Seq<u8>>,
    iw: int,
) -> int {
    let m = min_indent_go(ps, tstart, ttext, lines, iw, 0, usize::MAX as int);
    if m == usize::MAX {
        iw * 2
    } else {
        m
    }
}

/// The transaction lines after each posting's line is replaced by its
/// re-rendered form, in posting order.
pub open spec fn apply_postings_go(
    ps: Seq<Posting>,
    tstart: int,
    ttext: Seq<u8>,
    mi: int,
    cfg: Configuration,
    lines: Seq<Seq<u8>>,
    k: int,
) -> Seq<Seq<u8>>
    decreases ps.len() - k,
{
    if k < 0 || k >= ps.len() {
        lines
    } else {
        let idx = posting_idx_spec(ps[k], tstart, ttext);
        let line = posting_line_spec(ps[k], mi, cfg);
        let lines2 = if 0 <= idx < lines.len() {
            lines.update(idx, line)
        } else {
            lines
        };
        apply_postings_go(ps, tstart, ttext, mi, cfg, lines2, k + 1)
    }
}

/// Whether physical line `i` is some posting's line.
pub open spec fn is_posting_line(ps: Seq<Posting>, tstart: int, ttext: Seq<u8>, i: int) -> bool {
    exists|k: int| 0 <= k < ps.len() && posting_idx_spec(ps[k], tstart, ttext) == i
}

/// The transaction header line rebuilt from the typed fields, joined by
/// single spaces; an empty (or whitespace-only) optional part is skipped.
pub open spec fn txn_header_spec(t: Transaction, cfg: Configuration) -> Seq<u8> {
    let h = trim_spec(t.date@);
    let h = match t.txn {
        Some(f) => sp_join(h, trim_spec(f@)),
        None => h,
    };
    let h = match t.payee {
        Some(p) => sp_join(h, trim_spec(p@)),
        None => h,
    };
    let h = sp_join(h, trim_spec(t.narration@));
    let h = match t.tags_links {
        Some(tl) => sp_join(h, trim_spec(tl@)),
        None => h,
    };
    match t.comment {
        Some(c) => append_comment_spec(h, format_comment_spec(c@), cfg.line_width as int, false),
        None => h,
    }
}

fn render_txn_header(t: &Transaction, config: &Configuration) -> (r: Vec<u8>)
    ensures
        r@ == txn_header_spec(*t, *config),
{
    let mut h = trim_bytes(t.date.as_slice());
    match &t.txn {
        Some(f) => {
            let ff = trim_bytes(f.as_slice());
            push_part(&mut h, ff.as_slice());
        },
        None => {},
    }
    match &t.payee {
        Some(p) => {
            let pp = trim_bytes(p.as_slice());
            push_part(&mut h, pp.as_slice());
        },
        None => {},
    }
    let nn = trim_bytes(t.narration.as_slice());
    push_part(&mut h, nn.as_slice());
    match &t.tags_links {
        Some(tl) => {
            let tt = trim_bytes(tl.as_slice());
            push_part(&mut h, tt.as_slice());
        },
        None => {},
    }
    match &t.comment {
        Some(c) => {
            let fc = format_comment(c.as_slice());
            append_comment(h, fc.as_slice(), config, false)
        },
        None => h,
    }
}

/// The full transaction rendered: the header rebuilt, every posting line
/// re-indented to the common indent and re-aligned, and every other line
/// normalized.
pub open spec fn render_transaction_spec(t: Transaction, src: Seq<u8>, cfg: Configuration) -> Seq<
    u8,
> {
    let ttext = slice_clamped_spec(src, t.span.start as int, t.span.end as int);
    let unified = crlf_to_lf_spec(ttext);
    let lines = split_lines_spec(unified);
    let header = txn_header_spec(t, cfg);
    let lines1 = if lines.len() == 0 {
        seq![header]
    } else {
        lines.update(0, header)
    };
    let tstart = t.span.start as int;
    let iw = cfg.indent_width as int;
    let mi = min_indent_spec(t.postings@, tstart, ttext, lines1, iw);
    let lines2 = apply_postings_go(t.postings@, tstart, ttext, mi, cfg, lines1, 0);
    let lines3 = Seq::new(
        lines2.len(),
        |i: int|
            if i == 0 || is_posting_line(t.postings@, tstart, ttext, i) {
                lines2[i]
            } else {
                normalize_line_spec(lines2[i], iw)
            },
    );
    join_lines_spec(lines3)
}

/// Whether `v` holds `x`.
fn contains_usize(v: &Vec<usize>, x: usize) -> (r: bool)
    ensures
        r == v@.contains(x),
{
    let mut i: usize = 0;
    while i < v.len()
        invariant
            i <= v@.len(),
            forall|j: int| 0 <= j < i ==> v@[j] != x,
        decreases v@.len() - i,
    {
        if v[i] == x {
            return true;
        }
        i = i + 1;
    }
    proof {
        if v@.contains(x) {
            let j = choose|j: int| 0 <= j < v@.len() && v@[j] == x;
            assert(false);
        }
    }
    false
}

fn format_transaction(writer: &mut Writer, t: &Transaction, src: &[u8], config: &Configuration)
    ensures
        final(writer)@ == old(writer)@ + render_transaction_spec(*t, src@, *config),
{
    let ttext = slice_clamped(src, t.span);
    let unified = crlf_to_lf(ttext.as_slice());
    let mut lines = crate::text::split_lines(unified.as_slice());
    let header = render_txn_header(t, config);
    let ghost lines0 = crate::text::views_of(lines@);
    if lines.len() == 0 {
        lines.push(header);
        proof {
            assert(crate::text::views_of(lines@) =~= seq![txn_header_spec(*t, *config)]);
        }
    } else {
        lines.remove(0);
        lines.insert(0, header);
        proof {
            assert(crate::text::views_of(lines@) =~= lines0.update(
                0,
                txn_header_spec(*t, *config),
            ));
        }
    }
    let ghost lines1 = crate::text::views_of(lines@);
    let ghost tstart = t.span.start as int;
    let ghost iw = config.indent_width as int;

    // first pass: locate each posting's physical line and the minimum indent
    let mut posting_line_indices: Vec<usize> = Vec::new();
    let mut min_indent: usize = usize::MAX;
    let mut k: usize = 0;
    while k < t.postings.len()
        invariant
            k <= t.postings@.len(),
            iw == config.indent_width as int,
            tstart == t.span.start as int,
            lines1 == crate::text::views_of(lines@),
            posting_line_indices@.len() == k,
            forall|j: int|
                0 <= j < k ==> posting_line_indices@[j] == posting_idx_spec(
                    t.postings@[j],
                    tstart,
                    ttext@,
                ),
            min_indent_go(t.postings@, tstart, ttext@, lines1, iw, 0, usize::MAX as int)
                == min_indent_go(t.postings@, tstart, ttext@, lines1, iw, k as int, min_indent as int),
        decreases t.postings@.len() - k,
    {
        let p = &t.postings[k];
        let offset = usize_sat_sub(p.span.start, t.span.start);
        let line_idx = count_newlines_up_to(ttext.as_slice(), offset);
        proof {
            crate::text::lemma_count_nl_prefix_bound(ttext@, if offset as int <= ttext@.len() {
                offset as int
            } else {
                ttext@.len() as int
            });
            assert(line_idx as int == posting_idx_spec(t.postings@[k as int], tstart, ttext@));
        }
        posting_line_indices.push(line_idx);
        if line_idx < lines.len() {
            proof {
                assert(lines1[line_idx as int] == lines@[line_idx as int]@);
            }
            let indent = leading_indent_width(lines[line_idx].as_slice(), config.indent_width);
            if indent < min_indent {
                min_indent = indent;
            }
        }
        k = k + 1;
    }
    if min_indent == usize::MAX {
        min_indent = (config.indent_width as usize) * 2;
    }
    proof {
        assert(min_indent as int == min_indent_spec(t.postings@, tstart, ttext@, lines1, iw));
    }

    // second pass: rewrite each posting's line
    let mut k: usize = 0;
    while k < t.postings.len()
        invariant
            k <= t.postings@.len(),
            iw == config.indent_width as int,
            tstart == t.span.start as int,
            min_indent as int == min_indent_spec(t.postings@, tstart, ttext@, lines1, iw),
            apply_postings_go(t.postings@, tstart, ttext@, min_indent as int, *config, lines1, 0)
                == apply_postings_go(
                t.postings@,
                tstart,
                ttext@,
                min_indent as int,
                *config,
                crate::text::views_of(lines@),
                k as int,
            ),
            posting_line_indices@.len() == t.postings@.len(),
            forall|j: int|
                0 <= j < t.postings@.len() ==> posting_line_indices@[j] == posting_idx_spec(
                    t.postings@[j],
                    tstart,
                    ttext@,
                ),
        decreases t.postings@.len() - k,
    {
        let p = &t.postings[k];
        let line = render_posting_line(p, min_indent, config);
        let line_idx = posting_line_indices[k];
        let ghost pre_lines = crate::text::views_of(lines@);
        if line_idx < lines.len() {
            lines.remove(line_idx);
            lines.insert(line_idx, line);
            proof {
                assert(crate::text::views_of(lines@) =~= pre_lines.update(
                    line_idx as int,
                    posting_line_spec(t.postings@[k as int], min_indent as int, *config),
                ));
            }
        }
        k = k + 1;
    }
    let ghost lines2 = crate::text::views_of(lines@);

    // third pass: normalize the remaining (non-header, non-posting) lines
    let mut i: usize = 1;
    while i < lines.len()
        invariant
            1 <= i,
            iw == config.indent_width as int,
            tstart == t.span.start as int,
            i <= lines@.len() || lines@.len() < 1,
            lines2.len() == lines@.len(),
            posting_line_indices@.len() == t.postings@.len(),
            forall|j: int|
                0 <= j < t.postings@.len() ==> posting_line_indices@[j] == posting_idx_spec(
                    t.postings@[j],
                    tstart,
                    ttext@,
                ),
            forall|j: int|
                0 <= j < lines@.len() ==> crate::text::views_of(lines@)[j] == (if j < i && !(j
                == 0) && !is_posting_line(t.postings@, tstart, ttext@, j) {
                normalize_line_spec(lines2[j], iw)
            } else {
                lines2[j]
            }),
        decreases lines@.len() - i,
    {
        if !contains_usize(&posting_line_indices, i) {
            proof {
                if is_posting_line(t.postings@, tstart, ttext@, i as int) {
                    let kk = choose|kk: int|
                        0 <= kk < t.postings@.len() && posting_idx_spec(
                            t.postings@[kk],
                            tstart,
                            ttext@,
                        ) == i as int;
                    assert(posting_line_indices@[kk] == i as usize);
                    assert(posting_line_indices@.contains(i as usize));
                    assert(false);
                }
            }
            let ghost pre_lines = crate::text::views_of(lines@);
            proof {
                assert(pre_lines[i as int] == lines@[i as int]@);
            }
            let expanded = crate::text::expand_tabs_outside_strings(
                lines[i].as_slice(),
                config.indent_width,
            );
            let normalized = trim_end_bytes(expanded.as_slice());
            lines.remove(i);
            lines.insert(i, normalized);
            proof {
                assert(crate::text::views_of(lines@) =~= pre_lines.update(
                    i as int,
                    normalize_line_spec(pre_lines[i as int], iw),
                ));
                assert(pre_lines[i as int] == lines2[i as int]);
            }
        } else {
            proof {
                let kk = choose|kk: int|
                    0 <= kk < posting_line_indices@.len() && posting_line_indices@[kk] == i as usize;
                assert(posting_idx_spec(t.postings@[kk], tstart, ttext@) == i as int);
                assert(is_posting_line(t.postings@, tstart, ttext@, i as int));
            }
        }
        i = i + 1;
    }
    proof {
        let lines3 = Seq::new(
            lines2.len(),
            |j: int|
                if j == 0 || is_posting_line(t.postings@, tstart, ttext@, j) {
                    lines2[j]
                } else {
                    normalize_line_spec(lines2[j], iw)
                },
        );
        assert(crate::text::views_of(lines@) =~= lines3);
    }
    let joined = crate::text::join_lines(&lines);
    writer.write_str(joined.as_slice());
}

/// One directive rendered (without surrounding blank lines or the final
/// newline).
pub open spec fn render_directive_spec(d: Directive, src: Seq<u8>, cfg: Configuration) -> Seq<
    u8,
> {
    let iw = cfg.indent_width as int;
    match d {
        Directive::Open(x) => render_open_spec(x, cfg) + render_kvs_spec(x.key_values@, src, iw, 0),
        Directive::Close(x) => render_close_spec(x, cfg) + render_kvs_spec(
            x.key_values@,
            src,
            iw,
            0,
        ),
        Directive::Balance(x) => render_balance_spec(x, cfg) + render_kvs_spec(
            x.key_values@,
            src,
            iw,
            0,
        ),
        Directive::Pad(x) => render_pad_spec(x, cfg) + render_kvs_spec(x.key_values@, src, iw, 0),
        Directive::Transaction(x) => render_transaction_spec(x, src, cfg),
        Directive::Commodity(x) => render_commodity_spec(x, cfg) + render_kvs_spec(
            x.key_values@,
            src,
            iw,
            0,
        ),
        Directive::Price(x) => render_price_spec(x, cfg) + render_kvs_spec(
            x.key_values@,
            src,
            iw,
            0,
        ),
        Directive::Event(x) => render_event_spec(x, cfg) + render_kvs_spec(
            x.key_values@,
            src,
            iw,
            0,
        ),
        Directive::Query(x) => render_query_spec(x, cfg) + render_kvs_spec(
            x.key_values@,
            src,
            iw,
            0,
        ),
        Directive::Note(x) => render_note_spec(x, cfg) + render_kvs_spec(x.key_values@, src, iw, 0),
        Directive::Document(x) => render_document_spec(x, cfg) + render_kvs_spec(
            x.key_values@,
            src,
            iw,
            0,
        ),
        Directive::Custom(x) => render_custom_spec(x, cfg) + render_kvs_spec(
            x.key_values@,
            src,
            iw,
            0,
        ),
        Directive::Option(x) => render_option_spec(x),
        Directive::Include(x) => render_include_spec(x),
        Directive::Plugin(x) => render_plugin_spec(x),
        Directive::Pushtag(x) => render_pushtag_spec(x),
        Directive::Poptag(x) => render_poptag_spec(x),
        Directive::Pushmeta(x) => render_pushmeta_spec(x),
        Directive::Popmeta(x) => render_popmeta_spec(x),
        Directive::Raw(x) => render_span_spec(x.span, src, iw),
    }
}

fn format_directive(writer: &mut Writer, d: &Directive, src: &[u8], config: &Configuration)
    ensures
        final(writer)@ == old(writer)@ + render_directive_spec(*d, src@, *config),
{
    match d {
        Directive::Open(x) => {
            format_open(writer, x, config);
            format_key_values(writer, &x.key_values, src, config);
            proof {
                assert(writer@ =~= old(writer)@ + render_directive_spec(*d, src@, *config));
            }
        },
        Directive::Close(x) => {
            format_close(writer, x, config);
            format_key_values(writer, &x.key_values, src, config);
            proof {
                assert(writer@ =~= old(writer)@ + render_directive_spec(*d, src@, *config));
            }
        },
        Directive::Balance(x) => {
            format_balance(writer, x, config);
            format_key_values(writer, &x.key_values, src, config);
            proof {
                assert(writer@ =~= old(writer)@ + render_directive_spec(*d, src@, *config));
            }
        },
        Directive::Pad(x) => {
            format_pad(writer, x, config);
            format_key_values(writer, &x.key_values, src, config);
            proof {
                assert(writer@ =~= old(writer)@ + render_directive_spec(*d, src@, *config));
            }
        },
        Directive::Transaction(x) => {
            format_transaction(writer, x, src, config);
        },
        Directive::Commodity(x) => {
            format_commodity(writer, x, config);
            format_key_values(writer, &x.key_values, src, config);
            proof {
                assert(writer@ =~= old(writer)@ + render_directive_spec(*d, src@, *config));
            }
        },
        Directive::Price(x) => {
            format_price(writer, x, config);
            format_key_values(writer, &x.key_values, src, config);
            proof {
                assert(writer@ =~= old(writer)@ + render_directive_spec(*d, src@, *config));
            }
        },
        Directive::Event(x) => {
            format_event(writer, x, config);
            format_key_values(writer, &x.key_values, src, config);
            proof {
                assert(writer@ =~= old(writer)@ + render_directive_spec(*d, src@, *config));
            }
        },
        Directive::Query(x) => {
            format_query(writer, x, config);
            format_key_values(writer, &x.key_values, src, config);
            proof {
                assert(writer@ =~= old(writer)@ + render_directive_spec(*d, src@, *config));
            }
        },
        Directive::Note(x) => {
            format_note(writer, x, config);
            format_key_values(writer, &x.key_values, src, config);
            proof {
                assert(writer@ =~= old(writer)@ + render_directive_spec(*d, src@, *config));
            }
        },
        Directive::Document(x) => {
            format_document(writer, x, config);
            format_key_values(writer, &x.key_values, src, config);
            proof {
                assert(writer@ =~= old(writer)@ + render_directive_spec(*d, src@, *config));
            }
        },
        Directive::Custom(x) => {
            format_custom(writer, x, config);
            format_key_values(writer, &x.key_values, src, config);
            proof {
                assert(writer@ =~= old(writer)@ + render_directive_spec(*d, src@, *config));
            }
        },
        Directive::Option(x) => format_option(writer, x),
        Directive::Include(x) => format_include(writer, x),
        Directive::Plugin(x) => format_plugin(writer, x),
        Directive::Pushtag(x) => format_pushtag(writer, x),
        Directive::Poptag(x) => format_poptag(writer, x),
        Directive::Pushmeta(x) => format_pushmeta(writer, x),
        Directive::Popmeta(x) => format_popmeta(writer, x),
        Directive::Raw(x) => {
            let rendered = render_span(x.span, src, config.indent_width);
            writer.write_str(rendered.as_slice());
        },
    }
}

/// The byte span a directive covers.
fn directive_span(d: &Directive) -> (r: Span)
    ensures
        r == crate::ast::spec_directive_span(*d),
{
    match d {
        Directive::Open(x) => x.span,
        Directive::Close(x) => x.span,
        Directive::Balance(x) => x.span,
        Directive::Pad(x) => x.span,
        Directive::Transaction(x) => x.span,
        Directive::Commodity(x) => x.span,
        Directive::Price(x) => x.span,
        Directive::Event(x) => x.span,
        Directive::Query(x) => x.span,
        Directive::Note(x) => x.span,
        Directive::Document(x) => x.span,
        Directive::Custom(x) => x.span,
        Directive::Option(x) => x.span,
        Directive::Include(x) => x.span,
        Directive::Plugin(x) => x.span,
        Directive::Pushtag(x) => x.span,
        Directive::Poptag(x) => x.span,
        Directive::Pushmeta(x) => x.span,
        Directive::Popmeta(x) => x.span,
        Directive::Raw(x) => x.span,
    }
}

/// The 1-based line number of the byte at `offset`.
pub open spec fn line_at_spec(text: Seq<u8>, offset: int) -> int {
    sat_add(
        count_nl_prefix(text, if offset <= text.len() {
            offset
        } else {
            text.len() as int
        }),
        1,
    )
}

fn line_at_offset(text: &[u8], offset: usize) -> (r: usize)
    ensures
        r == line_at_spec(text@, offset as int),
{
    let n = count_newlines_up_to(text, offset);
    proof {
        crate::text::lemma_count_nl_prefix_bound(text@, if offset as int <= text@.len() { offset as int } else { text@.len() as int });
    }
    usize_sat_add(n, 1)
}

/// The line a directive starts on.
pub open spec fn directive_start_line_spec(d: Directive, text: Seq<u8>) -> int {
    line_at_spec(text, crate::ast::spec_directive_span(d).start as int)
}

/// The line a directive ends on.
pub open spec fn directive_end_line_spec(d: Directive, text: Seq<u8>) -> int {
    line_at_spec(text, sat_sub(crate::ast::spec_directive_span(d).end as int, 1))
}

/// The newline token for a configured style.
pub open spec fn nl_bytes(k: NewLineKind) -> Seq<u8> {
    if k == NewLineKind::CRLF {
        seq![crate::text::CR, LF]
    } else {
        seq![LF]
    }
}

/// `s` repeated `n` times.
pub open spec fn repeat_seq(s: Seq<u8>, n: int) -> Seq<u8>
    decreases n,
{
    if n <= 0 {
        Seq::empty()
    } else {
        repeat_seq(s, n - 1) + s
    }
}

/// The number of blank lines emitted before a directive: the source gap
/// capped at two, then raised to one across a transaction boundary.
pub open spec fn blank_count(prev_end: int, start_line: int, prev_txn: bool, is_txn: bool) -> int {
    let gap = sat_sub(start_line, sat_add(prev_end, 1));
    let capped = if gap > 2 {
        2int
    } else {
        gap
    };
    let floor = if prev_txn != is_txn {
        1int
    } else {
        0int
    };
    if capped < floor {
        floor
    } else {
        capped
    }
}

/// The whole directive sequence rendered in source order, from position `i`
/// on, with the blank-line policy applied between directives.
pub open spec fn render_all_go(
    ds: Seq<Directive>,
    src: Seq<u8>,
    cfg: Configuration,
    i: int,
    prev_end: int,
    prev_txn: bool,
    first: bool,
    out: Seq<u8>,
) -> Seq<u8>
    decreases ds.len() - i,
{
    if i < 0 || i >= ds.len() {
        out
    } else {
        let d = ds[i];
        let is_txn = crate::ast::spec_is_transaction(d);
        let nl = nl_bytes(cfg.new_line_kind);
        let blanks = if first {
            0
        } else {
            blank_count(prev_end, directive_start_line_spec(d, src), prev_txn, is_txn)
        };
        let out2 = out + repeat_seq(nl, blanks) + render_directive_spec(d, src, cfg) + nl;
        render_all_go(ds, src, cfg, i + 1, directive_end_line_spec(d, src), is_txn, false, out2)
    }
}

/// The rendered text of all directives, before newline-style normalization.
pub open spec fn render_all_spec(ds: Seq<Directive>, src: Seq<u8>, cfg: Configuration) -> Seq<
    u8,
> {
    render_all_go(ds, src, cfg, 0, 0, false, true, Seq::empty())
}

fn write_nl(writer: &mut Writer, kind: NewLineKind)
    ensures
        final(writer)@ == old(writer)@ + nl_bytes(kind),
{
    match kind {
        NewLineKind::LF => {
            writer.write_byte(LF);
            proof {
                assert(writer@ =~= old(writer)@ + nl_bytes(kind));
            }
        },
        NewLineKind::CRLF => {
            writer.write_byte(crate::text::CR);
            writer.write_byte(LF);
            proof {
                assert(writer@ =~= old(writer)@ + nl_bytes(kind));
            }
        },
    }
}

/// Renders all directives into one buffer, blank-line policy included.
pub(crate) fn render_all(directives: &Vec<Directive>, src: &[u8], config: &Configuration) -> (r: Vec<u8>)
    ensures
        r@ == render_all_spec(directives@, src@, *config),
{
    let mut writer = Writer::with_capacity(src.len());
    let mut prev_end_line: usize = 0;
    let mut prev_is_txn = false;
    let mut first = true;
    let mut i: usize = 0;
    while i < directives.len()
        invariant
            i <= directives@.len(),
            render_all_spec(directives@, src@, *config) == render_all_go(
                directives@,
                src@,
                *config,
                i as int,
                prev_end_line as int,
                prev_is_txn,
                first,
                writer@,
            ),
        decreases directives@.len() - i,
    {
        let d = &directives[i];
        let span = directive_span(d);
        let is_txn = match d {
            Directive::Transaction(_) => true,
            _ => false,
        };
        if !first {
            let start_line = line_at_offset(src, span.start);
            let gap = usize_sat_sub(start_line, usize_sat_add(prev_end_line, 1));
            let capped: usize = if gap > 2 {
                2
            } else {
                gap
            };
            let floor: usize = if prev_is_txn != is_txn {
                1
            } else {
                0
            };
            let blanks = if capped < floor {
                floor
            } else {
                capped
            };
            let mut b: usize = 0;
            let ghost pre = writer@;
            while b < blanks
                invariant
                    b <= blanks,
                    writer@ == pre + repeat_seq(nl_bytes(config.new_line_kind), b as int),
                decreases blanks - b,
            {
                write_nl(&mut writer, config.new_line_kind);
                b = b + 1;
            }
        } else {
            proof {
                assert(writer@ + repeat_seq(nl_bytes(config.new_line_kind), 0) =~= writer@);
            }
        }
        format_directive(&mut writer, d, src, config);
        write_nl(&mut writer, config.new_line_kind);
        prev_end_line = line_at_offset(src, usize_sat_sub(span.end, 1));
        prev_is_txn = is_txn;
        first = false;
        i = i + 1;
    }
    writer.finish()
}

/// Trailing newline tokens removed, one at a time.
pub open spec fn drop_trailing_nl(s: Seq<u8>, nl: Seq<u8>) -> Seq<u8>
    decreases s.len(),
{
    if nl.len() > 0 && crate::text::ends_with(s, nl) && s.len() >= nl.len() {
        drop_trailing_nl(s.take(s.len() - nl.len()), nl)
    } else {
        s
    }
}

/// The final global passes over the rendered text: line endings
/// canonicalized to the configured style, and the trailing run of newline
/// tokens collapsed to exactly one.
pub open spec fn finalize_spec(x: Seq<u8>, kind: NewLineKind) -> Seq<u8> {
    let normalized = if kind == NewLineKind::CRLF {
        crate::text::lf_to_crlf_spec(crate::text::crlf_to_lf_spec(x))
    } else {
        crate::text::crlf_to_lf_spec(x)
    };
    let nl = nl_bytes(kind);
    let had = crate::text::ends_with(normalized, nl);
    let t = drop_trailing_nl(normalized, nl);
    let r0 = if had {
        t + nl
    } else {
        t
    };
    if crate::text::ends_with(r0, nl) {
        r0
    } else {
        r0 + nl
    }
}

/// Applies the two global passes.
pub(crate) fn finalize(x: &[u8], kind: NewLineKind) -> (r: Vec<u8>)
    ensures
        r@ == finalize_spec(x@, kind),
{
    let unified = crate::text::crlf_to_lf(x);
    let normalized: Vec<u8> = match kind {
        NewLineKind::CRLF => crate::text::lf_to_crlf(unified.as_slice()),
        NewLineKind::LF => unified,
    };
    let nl: Vec<u8> = match kind {
        NewLineKind::CRLF => {
            let mut v: Vec<u8> = Vec::new();
            v.push(crate::text::CR);
            v.push(LF);
            proof {
                assert(v@ =~= nl_bytes(kind));
            }
            v
        },
        NewLineKind::LF => {
            let mut v: Vec<u8> = Vec::new();
            v.push(LF);
            proof {
                assert(v@ =~= nl_bytes(kind));
            }
            v
        },
    };
    let had = crate::text::bytes_ends_with(normalized.as_slice(), nl.as_slice());
    let ghost norm0 = normalized@;
    let mut t = normalized;
    while crate::text::bytes_ends_with(t.as_slice(), nl.as_slice())
        invariant
            nl@ == nl_bytes(kind),
            nl@.len() > 0,
            drop_trailing_nl(t@, nl@) == drop_trailing_nl(norm0, nl@),
        decreases t@.len(),
    {
        let ghost pre = t@;
        let new_len = t.len() - nl.len();
        t.truncate(new_len);
        proof {
            assert(t@ =~= pre.take(pre.len() - nl@.len()));
        }
    }
    proof {
        assert(drop_trailing_nl(t@, nl@) == t@);
    }
    let ghost dropped = t@;
    if had {
        push_all(&mut t, nl.as_slice());
        proof {
            assert(crate::text::ends_with(t@, nl@)) by {
                assert(t@.subrange(t@.len() - nl@.len(), t@.len() as int) =~= nl@);
            }
        }
        t
    } else {
        if crate::text::bytes_ends_with(t.as_slice(), nl.as_slice()) {
            t
        } else {
            push_all(&mut t, nl.as_slice());
            t
        }
    }
}

/// The parser expects a trailing newline; one is appended when missing.
pub open spec fn content_with_newline(src: Seq<u8>) -> Seq<u8> {
    if crate::text::ends_with(src, seq![LF]) {
        src
    } else {
        src + seq![LF]
    }
}

/// What a successful format run returns for a source text (given as its
/// characters and its bytes): empty output for blank input — blank per
/// Unicode whitespace, as `str::trim` reads it — otherwise the extracted
/// directives rendered, finalized, and decoded.
pub open spec fn format_outcome(
    text: Seq<char>,
    src: Seq<u8>,
    fname: Seq<char>,
    cfg: Configuration,
    s: Seq<char>,
) -> bool {
    let content = content_with_newline(src);
    if crate::text::unicode_trim(text).len() == 0 {
        s.len() == 0
    } else {
        exists|ds: Seq<Directive>|
            {
                &&& #[trigger] crate::parse::directives_extracted(ds, content, fname)
                &&& s == crate::text::utf8_lossy(
                    finalize_spec(render_all_spec(ds, content, cfg), cfg.new_line_kind),
                )
            }
    }
}

} // verus!
