//! Byte-level text utilities shared by the pretty-printing engine and the
//! directive extractor.
//!
//! All contracts are stated over `Seq<u8>` views of the byte strings; the
//! spec functions beside each executable function say exactly what it
//! returns.

use vstd::prelude::*;

verus! {

/// Byte values the formatter treats specially.
pub const SP: u8 = 32;

pub const TAB: u8 = 9;

pub const CR: u8 = 13;

pub const LF: u8 = 10;

/// ASCII whitespace as the formatter treats it: space, tab, carriage return,
/// line feed.
pub open spec fn is_ws(b: u8) -> bool {
    b == SP || b == TAB || b == CR || b == LF
}

pub fn is_ws_byte(b: u8) -> (r: bool)
    ensures
        r == is_ws(b),
{
    b == SP || b == TAB || b == CR || b == LF
}

/// `s` without its trailing whitespace.
pub open spec fn trim_end_spec(s: Seq<u8>) -> Seq<u8>
    decreases s.len(),
{
    if s.len() > 0 && is_ws(s.last()) {
        trim_end_spec(s.drop_last())
    } else {
        s
    }
}

/// `s` without its leading whitespace.
pub open spec fn trim_start_spec(s: Seq<u8>) -> Seq<u8>
    decreases s.len(),
{
    if s.len() > 0 && is_ws(s.first()) {
        trim_start_spec(s.drop_first())
    } else {
        s
    }
}

/// `s` without leading and trailing whitespace.
pub open spec fn trim_spec(s: Seq<u8>) -> Seq<u8> {
    trim_start_spec(trim_end_spec(s))
}

/// The number of bytes that remain when trailing whitespace is dropped.
fn trim_end_len(s: &[u8]) -> (n: usize)
    ensures
        n <= s@.len(),
        trim_end_spec(s@) == s@.subrange(0, n as int),
{
    let mut n: usize = s.len();
    proof {
        assert(s@.subrange(0, s@.len() as int) =~= s@);
    }
    while n > 0 && is_ws_byte(s[n - 1])
        invariant
            n <= s@.len(),
            trim_end_spec(s@) == trim_end_spec(s@.subrange(0, n as int)),
        decreases n,
    {
        proof {
            assert(s@.subrange(0, n as int).drop_last() =~= s@.subrange(0, n - 1 as int));
        }
        n = n - 1;
    }
    proof {
        if n > 0 {
            assert(s@.subrange(0, n as int).last() == s[n - 1 as int]);
        }
    }
    n
}

/// The number of leading whitespace bytes.
fn trim_start_len(s: &[u8]) -> (n: usize)
    ensures
        n <= s@.len(),
        trim_start_spec(s@) == s@.subrange(n as int, s@.len() as int),
{
    let mut n: usize = 0;
    proof {
        assert(s@.subrange(0, s@.len() as int) =~= s@);
    }
    while n < s.len() && is_ws_byte(s[n])
        invariant
            n <= s@.len(),
            trim_start_spec(s@) == trim_start_spec(s@.subrange(n as int, s@.len() as int)),
        decreases s@.len() - n,
    {
        proof {
            assert(s@.subrange(n as int, s@.len() as int).drop_first() =~= s@.subrange(
                n + 1,
                s@.len() as int,
            ));
        }
        n = n + 1;
    }
    proof {
        if n < s@.len() {
            assert(s@.subrange(n as int, s@.len() as int).first() == s[n as int]);
        }
    }
    n
}

/// `s` with trailing whitespace removed.
pub fn trim_end_bytes(s: &[u8]) -> (r: Vec<u8>)
    ensures
        r@ == trim_end_spec(s@),
{
    let n = trim_end_len(s);
    vstd::slice::slice_to_vec(vstd::slice::slice_subrange(s, 0, n))
}

/// `s` with leading whitespace removed.
pub fn trim_start_bytes(s: &[u8]) -> (r: Vec<u8>)
    ensures
        r@ == trim_start_spec(s@),
{
    let b = trim_start_len(s);
    vstd::slice::slice_to_vec(vstd::slice::slice_subrange(s, b, s.len()))
}

/// `s` with leading and trailing whitespace removed.
pub fn trim_bytes(s: &[u8]) -> (r: Vec<u8>)
    ensures
        r@ == trim_spec(s@),
{
    let e = trim_end_len(s);
    let sub = vstd::slice::slice_subrange(s, 0, e);
    let b = trim_start_len(sub);
    vstd::slice::slice_to_vec(vstd::slice::slice_subrange(sub, b, e))
}

/// A run of `n` spaces.
pub open spec fn spaces_spec(n: int) -> Seq<u8> {
    Seq::new(if n >= 0 {
        n as nat
    } else {
        0
    }, |i: int| SP)
}

pub fn spaces(n: usize) -> (r: Vec<u8>)
    ensures
        r@ == spaces_spec(n as int),
{
    let mut r: Vec<u8> = Vec::new();
    let mut i: usize = 0;
    while i < n
        invariant
            i <= n,
            r@.len() == i,
            forall|j: int| 0 <= j < i ==> r@[j] == SP,
        decreases n - i,
    {
        r.push(SP);
        i = i + 1;
    }
    proof {
        assert(r@ =~= spaces_spec(n as int));
    }
    r
}

/// Whether two byte strings hold the same bytes.
pub fn bytes_eq(a: &[u8], b: &[u8]) -> (r: bool)
    ensures
        r == (a@ == b@),
{
    if a.len() != b.len() {
        proof {
            assert(a@ != b@);
        }
        return false;
    }
    let mut i: usize = 0;
    while i < a.len()
        invariant
            i <= a@.len(),
            a@.len() == b@.len(),
            forall|j: int| 0 <= j < i ==> a@[j] == b@[j],
        decreases a@.len() - i,
    {
        if a[i] != b[i] {
            proof {
                assert(a@[i as int] != b@[i as int]);
            }
            return false;
        }
        i = i + 1;
    }
    proof {
        assert(a@ =~= b@);
    }
    true
}

/// A copy of the byte range `[start, end)` of `s`.
pub fn sub_bytes(s: &[u8], start: usize, end: usize) -> (r: Vec<u8>)
    requires
        start <= end <= s@.len(),
    ensures
        r@ == s@.subrange(start as int, end as int),
{
    vstd::slice::slice_to_vec(vstd::slice::slice_subrange(s, start, end))
}

/// One step of whitespace compaction: interior whitespace runs collapse to a
/// single space, leading and trailing whitespace disappears.
pub open spec fn compact_ws_go(s: Seq<u8>, i: int, out: Seq<u8>, pending: bool) -> Seq<u8>
    decreases s.len() - i,
{
    if i < 0 || i >= s.len() {
        out
    } else if is_ws(s[i]) {
        compact_ws_go(s, i + 1, out, pending || out.len() > 0)
    } else {
        compact_ws_go(
            s,
            i + 1,
            if pending {
                out + seq![SP] + seq![s[i]]
            } else {
                out + seq![s[i]]
            },
            false,
        )
    }
}

/// `s` with every whitespace run collapsed to a single interior space.
pub open spec fn compact_ws_spec(s: Seq<u8>) -> Seq<u8> {
    compact_ws_go(s, 0, Seq::empty(), false)
}

pub fn compact_ws(s: &[u8]) -> (r: Vec<u8>)
    ensures
        r@ == compact_ws_spec(s@),
{
    let mut out: Vec<u8> = Vec::new();
    let mut pending = false;
    let mut i: usize = 0;
    while i < s.len()
        invariant
            i <= s@.len(),
            compact_ws_spec(s@) == compact_ws_go(s@, i as int, out@, pending),
        decreases s@.len() - i,
    {
        let ghost pre_out = out@;
        let ghost pre_pending = pending;
        let b = s[i];
        if is_ws_byte(b) {
            if out.len() > 0 {
                pending = true;
            }
        } else {
            if pending {
                out.push(SP);
            }
            out.push(b);
            pending = false;
        }
        proof {
            if !is_ws(s@[i as int]) {
                if pre_pending {
                    assert(out@ =~= pre_out + seq![SP] + seq![s@[i as int]]);
                } else {
                    assert(out@ =~= pre_out + seq![s@[i as int]]);
                }
            }
        }
        i = i + 1;
    }
    out
}

/// The number of line-feed bytes among the first `upto` bytes of `s`.
pub open spec fn count_nl_prefix(s: Seq<u8>, upto: int) -> int
    decreases upto,
{
    if upto <= 0 {
        0
    } else {
        count_nl_prefix(s, upto - 1) + if 0 <= upto - 1 < s.len() && s[upto - 1] == LF {
            1int
        } else {
            0int
        }
    }
}

pub proof fn lemma_count_nl_prefix_bound(s: Seq<u8>, upto: int)
    ensures
        0 <= count_nl_prefix(s, upto) <= if upto >= 0 {
            upto
        } else {
            0
        },
    decreases upto,
{
    if upto > 0 {
        lemma_count_nl_prefix_bound(s, upto - 1);
    }
}

/// The number of line feeds in `text` before byte offset `offset` (offsets
/// past the end count the whole text).
pub fn count_newlines_up_to(text: &[u8], offset: usize) -> (n: usize)
    ensures
        n == count_nl_prefix(text@, if offset <= text@.len() {
            offset as int
        } else {
            text@.len() as int
        }),
{
    let stop: usize = if offset <= text.len() {
        offset
    } else {
        text.len()
    };
    let mut n: usize = 0;
    let mut i: usize = 0;
    while i < stop
        invariant
            i <= stop <= text@.len(),
            n == count_nl_prefix(text@, i as int),
        decreases stop - i,
    {
        proof {
            lemma_count_nl_prefix_bound(text@, i as int);
        }
        if text[i] == LF {
            n = n + 1;
        }
        i = i + 1;
    }
    n
}

/// Appends all of `s` to `out`.
pub fn push_all(out: &mut Vec<u8>, s: &[u8])
    ensures
        final(out)@ == old(out)@ + s@,
{
    let mut i: usize = 0;
    while i < s.len()
        invariant
            i <= s@.len(),
            out@ == old(out)@ + s@.subrange(0, i as int),
        decreases s@.len() - i,
    {
        out.push(s[i]);
        proof {
            assert(old(out)@ + s@.subrange(0, i as int) + seq![s@[i as int]] =~= old(out)@
                + s@.subrange(0, i + 1));
        }
        i = i + 1;
    }
    proof {
        assert(s@.subrange(0, s@.len() as int) =~= s@);
    }
}

/// The views of a sequence of byte vectors.
pub open spec fn views_of(v: Seq<Vec<u8>>) -> Seq<Seq<u8>> {
    v.map_values(|x: Vec<u8>| x@)
}

proof fn lemma_views_push(v: Seq<Vec<u8>>, x: Vec<u8>)
    ensures
        views_of(v.push(x)) == views_of(v).push(x@),
{
    assert(views_of(v.push(x)) =~= views_of(v).push(x@));
}

/// Splitting into lines at line feeds, the final line ending optional: one
/// step of the scan.
pub open spec fn split_lines_go(s: Seq<u8>, i: int, cur: Seq<u8>, acc: Seq<Seq<u8>>) -> Seq<
    Seq<u8>,
>
    decreases s.len() - i,
{
    if i < 0 || i >= s.len() {
        if cur.len() > 0 {
            acc.push(cur)
        } else {
            acc
        }
    } else if s[i] == LF {
        split_lines_go(s, i + 1, Seq::empty(), acc.push(cur))
    } else {
        split_lines_go(s, i + 1, cur.push(s[i]), acc)
    }
}

/// The lines of `s`, split at line feeds; a trailing line feed opens no
/// further empty line.
pub open spec fn split_lines_spec(s: Seq<u8>) -> Seq<Seq<u8>> {
    split_lines_go(s, 0, Seq::empty(), Seq::empty())
}

pub fn split_lines(s: &[u8]) -> (r: Vec<Vec<u8>>)
    ensures
        views_of(r@) == split_lines_spec(s@),
{
    let mut acc: Vec<Vec<u8>> = Vec::new();
    let mut cur: Vec<u8> = Vec::new();
    let mut i: usize = 0;
    proof {
        assert(views_of(acc@) =~= Seq::<Seq<u8>>::empty());
    }
    while i < s.len()
        invariant
            i <= s@.len(),
            split_lines_spec(s@) == split_lines_go(s@, i as int, cur@, views_of(acc@)),
        decreases s@.len() - i,
    {
        let ghost pre_acc = acc@;
        let ghost pre_cur: Vec<u8> = cur;
        let b = s[i];
        if b == LF {
            acc.push(cur);
            cur = Vec::new();
            proof {
                lemma_views_push(pre_acc, pre_cur);
            }
        } else {
            cur.push(b);
        }
        i = i + 1;
    }
    if cur.len() > 0 {
        let ghost pre_acc = acc@;
        let ghost pre_cur: Vec<u8> = cur;
        acc.push(cur);
        proof {
            lemma_views_push(pre_acc, pre_cur);
        }
    }
    acc
}

/// Joining lines with a line-feed separator: one step.
pub open spec fn join_lines_go(ls: Seq<Seq<u8>>, i: int, out: Seq<u8>) -> Seq<u8>
    decreases ls.len() - i,
{
    if i < 0 || i >= ls.len() {
        out
    } else if i == 0 {
        join_lines_go(ls, 1, ls[0])
    } else {
        join_lines_go(ls, i + 1, out + seq![LF] + ls[i])
    }
}

/// The lines joined back with single line feeds (no trailing line feed).
pub open spec fn join_lines_spec(ls: Seq<Seq<u8>>) -> Seq<u8> {
    join_lines_go(ls, 0, Seq::empty())
}

pub fn join_lines(ls: &Vec<Vec<u8>>) -> (r: Vec<u8>)
    ensures
        r@ == join_lines_spec(views_of(ls@)),
{
    let mut out: Vec<u8> = Vec::new();
    let mut i: usize = 0;
    while i < ls.len()
        invariant
            i <= ls@.len(),
            i == 0 ==> out@.len() == 0,
            join_lines_spec(views_of(ls@)) == join_lines_go(views_of(ls@), i as int, out@),
        decreases ls@.len() - i,
    {
        let ghost pre_out = out@;
        if i > 0 {
            out.push(LF);
        }
        push_all(&mut out, ls[i].as_slice());
        proof {
            assert(views_of(ls@)[i as int] == ls@[i as int]@);
            if i > 0 {
                assert(out@ =~= pre_out + seq![LF] + views_of(ls@)[i as int]);
            } else {
                assert(out@ =~= views_of(ls@)[0]);
            }
        }
        i = i + 1;
    }
    out
}

/// Carriage-return/line-feed pairs replaced by bare line feeds: one step.
pub open spec fn crlf_to_lf_go(s: Seq<u8>, i: int, out: Seq<u8>) -> Seq<u8>
    decreases s.len() - i,
{
    if i < 0 || i >= s.len() {
        out
    } else if s[i] == CR && i + 1 < s.len() && s[i + 1] == LF {
        crlf_to_lf_go(s, i + 2, out + seq![LF])
    } else {
        crlf_to_lf_go(s, i + 1, out + seq![s[i]])
    }
}

/// `s` with every carriage-return/line-feed pair replaced by a line feed.
pub open spec fn crlf_to_lf_spec(s: Seq<u8>) -> Seq<u8> {
    crlf_to_lf_go(s, 0, Seq::empty())
}

pub fn crlf_to_lf(s: &[u8]) -> (r: Vec<u8>)
    ensures
        r@ == crlf_to_lf_spec(s@),
{
    let mut out: Vec<u8> = Vec::new();
    let mut i: usize = 0;
    while i < s.len()
        invariant
            i <= s@.len(),
            crlf_to_lf_spec(s@) == crlf_to_lf_go(s@, i as int, out@),
        decreases s@.len() - i,
    {
        let ghost pre_out = out@;
        if s[i] == CR && i + 1 < s.len() && s[i + 1] == LF {
            out.push(LF);
            proof {
                assert(out@ =~= pre_out + seq![LF]);
            }
            i = i + 2;
        } else {
            out.push(s[i]);
            proof {
                assert(out@ =~= pre_out + seq![s@[i as int]]);
            }
            i = i + 1;
        }
    }
    out
}

/// Line feeds replaced by carriage-return/line-feed pairs: one step.
pub open spec fn lf_to_crlf_go(s: Seq<u8>, i: int, out: Seq<u8>) -> Seq<u8>
    decreases s.len() - i,
{
    if i < 0 || i >= s.len() {
        out
    } else if s[i] == LF {
        lf_to_crlf_go(s, i + 1, out + seq![CR, LF])
    } else {
        lf_to_crlf_go(s, i + 1, out + seq![s[i]])
    }
}

/// `s` with every line feed replaced by a carriage-return/line-feed pair.
pub open spec fn lf_to_crlf_spec(s: Seq<u8>) -> Seq<u8> {
    lf_to_crlf_go(s, 0, Seq::empty())
}

pub fn lf_to_crlf(s: &[u8]) -> (r: Vec<u8>)
    ensures
        r@ == lf_to_crlf_spec(s@),
{
    let mut out: Vec<u8> = Vec::new();
    let mut i: usize = 0;
    while i < s.len()
        invariant
            i <= s@.len(),
            lf_to_crlf_spec(s@) == lf_to_crlf_go(s@, i as int, out@),
        decreases s@.len() - i,
    {
        let ghost pre_out = out@;
        if s[i] == LF {
            out.push(CR);
            out.push(LF);
            proof {
                assert(out@ =~= pre_out + seq![CR, LF]);
            }
        } else {
            out.push(s[i]);
            proof {
                assert(out@ =~= pre_out + seq![s@[i as int]]);
            }
        }
        i = i + 1;
    }
    out
}

/// The double-quote byte.
pub const DQ: u8 = 34;

/// The backslash byte.
pub const BS: u8 = 92;

/// Tab expansion outside double-quoted string literals: one step of the scan.
///
/// Inside a string (entered and left on an unescaped double quote, with a
/// backslash escaping the next byte) every byte is copied verbatim. Outside,
/// a tab at the start of the line expands to `iw` spaces and any other tab
/// collapses to one space.
pub open spec fn expand_tabs_go(
    s: Seq<u8>,
    iw: int,
    i: int,
    in_str: bool,
    esc: bool,
    at_start: bool,
    out: Seq<u8>,
) -> Seq<u8>
    decreases s.len() - i,
{
    if i < 0 || i >= s.len() {
        out
    } else {
        let c = s[i];
        if in_str {
            if esc {
                expand_tabs_go(s, iw, i + 1, true, false, at_start, out.push(c))
            } else {
                expand_tabs_go(s, iw, i + 1, c != DQ, c == BS, false, out.push(c))
            }
        } else if c == DQ {
            expand_tabs_go(s, iw, i + 1, true, false, false, out.push(c))
        } else if c == TAB {
            expand_tabs_go(
                s,
                iw,
                i + 1,
                false,
                false,
                at_start,
                out + if at_start {
                    spaces_spec(iw)
                } else {
                    seq![SP]
                },
            )
        } else {
            expand_tabs_go(s, iw, i + 1, false, false, false, out.push(c))
        }
    }
}

/// `line` with tabs outside string literals expanded: leading tabs to `iw`
/// spaces each, interior tabs to one space; tabs inside strings are kept.
pub open spec fn expand_tabs_spec(line: Seq<u8>, iw: int) -> Seq<u8> {
    expand_tabs_go(line, iw, 0, false, false, true, Seq::empty())
}

/// Expand tabs to spaces while skipping tabs that appear inside string
/// literals. Leading tabs expand to the configured indent width; tabs
/// elsewhere become a single space.
pub fn expand_tabs_outside_strings(line: &[u8], indent_width: u8) -> (r: Vec<u8>)
    ensures
        r@ == expand_tabs_spec(line@, indent_width as int),
{
    let mut out: Vec<u8> = Vec::new();
    let mut in_str = false;
    let mut esc = false;
    let mut at_start = true;
    let mut i: usize = 0;
    while i < line.len()
        invariant
            i <= line@.len(),
            esc ==> in_str,
            expand_tabs_spec(line@, indent_width as int) == expand_tabs_go(
                line@,
                indent_width as int,
                i as int,
                in_str,
                esc,
                at_start,
                out@,
            ),
        decreases line@.len() - i,
    {
        let ghost pre_out = out@;
        let c = line[i];
        if in_str {
            out.push(c);
            if esc {
                esc = false;
            } else {
                if c == BS {
                    esc = true;
                } else if c == DQ {
                    in_str = false;
                }
                at_start = false;
            }
        } else if c == DQ {
            in_str = true;
            out.push(c);
            at_start = false;
        } else if c == TAB {
            if at_start {
                let pad = spaces(indent_width as usize);
                push_all(&mut out, pad.as_slice());
            } else {
                out.push(SP);
                proof {
                    assert(out@ =~= pre_out + seq![SP]);
                }
            }
        } else {
            out.push(c);
            at_start = false;
        }
        i = i + 1;
    }
    out
}

/// One source line made canonical: tabs expanded outside strings, trailing
/// whitespace trimmed.
pub open spec fn normalize_line_spec(line: Seq<u8>, iw: int) -> Seq<u8> {
    trim_end_spec(expand_tabs_spec(line, iw))
}

/// Verbatim text made canonical line by line: line endings normalized to
/// line feeds, every line's tabs expanded outside strings and trailing
/// whitespace trimmed, lines joined with line feeds.
pub open spec fn normalize_indentation_spec(s: Seq<u8>, iw: int) -> Seq<u8> {
    join_lines_spec(
        split_lines_spec(crlf_to_lf_spec(s)).map_values(|l: Seq<u8>| normalize_line_spec(l, iw)),
    )
}

/// Normalizes tabs to spaces (respecting indent width) outside of string
/// literals and trims trailing whitespace per line.
pub fn normalize_indentation(text: &[u8], indent_width: u8) -> (r: Vec<u8>)
    ensures
        r@ == normalize_indentation_spec(text@, indent_width as int),
{
    let unified = crlf_to_lf(text);
    let lines = split_lines(unified.as_slice());
    let mut normalized: Vec<Vec<u8>> = Vec::new();
    let mut i: usize = 0;
    proof {
        assert(views_of(normalized@) =~= views_of(lines@).subrange(0, 0).map_values(
            |l: Seq<u8>| normalize_line_spec(l, indent_width as int),
        ));
    }
    while i < lines.len()
        invariant
            i <= lines@.len(),
            views_of(normalized@) == views_of(lines@).subrange(0, i as int).map_values(
                |l: Seq<u8>| normalize_line_spec(l, indent_width as int),
            ),
        decreases lines@.len() - i,
    {
        let expanded = expand_tabs_outside_strings(lines[i].as_slice(), indent_width);
        let trimmed = trim_end_bytes(expanded.as_slice());
        let ghost pre = normalized@;
        let ghost tv: Vec<u8> = trimmed;
        normalized.push(trimmed);
        proof {
            lemma_views_push(pre, tv);
            assert(views_of(lines@).subrange(0, i + 1).map_values(
                |l: Seq<u8>| normalize_line_spec(l, indent_width as int),
            ) =~= views_of(lines@).subrange(0, i as int).map_values(
                |l: Seq<u8>| normalize_line_spec(l, indent_width as int),
            ).push(normalize_line_spec(views_of(lines@)[i as int], indent_width as int)));
            assert(tv@ == normalize_line_spec(views_of(lines@)[i as int], indent_width as int));
        }
        i = i + 1;
    }
    proof {
        assert(views_of(lines@).subrange(0, lines@.len() as int) =~= views_of(lines@));
        assert(views_of(lines@) == split_lines_spec(crlf_to_lf_spec(text@)));
    }
    join_lines(&normalized)
}

/// The plus-sign byte.
pub const PLUS: u8 = 43;

/// ASCII decimal digit.
pub open spec fn is_digit(b: u8) -> bool {
    48 <= b <= 57
}

/// Every byte an ASCII decimal digit.
pub open spec fn all_digits(s: Seq<u8>) -> bool {
    forall|i: int| 0 <= i < s.len() ==> is_digit(s[i])
}

/// The value of a run of ASCII decimal digits.
pub open spec fn digits_val(s: Seq<u8>) -> int
    decreases s.len(),
{
    if s.len() == 0 {
        0
    } else {
        digits_val(s.drop_last()) * 10 + (s.last() - 48)
    }
}

/// The digit run of an unsigned decimal literal: an optional leading plus
/// sign is dropped.
pub open spec fn num_body(s: Seq<u8>) -> Seq<u8> {
    if s.len() > 0 && s[0] == PLUS {
        s.drop_first()
    } else {
        s
    }
}

/// Whether `s` is an unsigned decimal literal no larger than `max`: an
/// optional plus sign, then at least one digit, with the value in range.
pub open spec fn parses_as_uint(s: Seq<u8>, max: int) -> bool {
    &&& num_body(s).len() > 0
    &&& all_digits(num_body(s))
    &&& digits_val(num_body(s)) <= max
}

proof fn lemma_digits_val_nonneg(s: Seq<u8>)
    requires
        all_digits(s),
    ensures
        digits_val(s) >= 0,
    decreases s.len(),
{
    if s.len() > 0 {
        assert(all_digits(s.drop_last())) by {
            assert(forall|i: int|
                0 <= i < s.drop_last().len() ==> s.drop_last()[i] == s[i] && is_digit(s[i]));
        }
        lemma_digits_val_nonneg(s.drop_last());
    }
}

proof fn lemma_digits_val_take_succ(s: Seq<u8>, i: int)
    requires
        0 <= i < s.len(),
    ensures
        digits_val(s.take(i + 1)) == digits_val(s.take(i)) * 10 + (s[i] - 48),
{
    assert(s.take(i + 1).drop_last() =~= s.take(i));
    assert(s.take(i + 1).last() == s[i]);
}

proof fn lemma_digits_val_prefix_mono(s: Seq<u8>, i: int)
    requires
        all_digits(s),
        0 <= i <= s.len(),
    ensures
        digits_val(s.take(i)) <= digits_val(s),
    decreases s.len() - i,
{
    if i < s.len() {
        assert(all_digits(s.take(i))) by {
            assert(forall|j: int| 0 <= j < i ==> s.take(i)[j] == s[j] && is_digit(s[j]));
        }
        lemma_digits_val_nonneg(s.take(i));
        lemma_digits_val_take_succ(s, i);
        lemma_digits_val_prefix_mono(s, i + 1);
        assert(is_digit(s[i]));
    } else {
        assert(s.take(i) =~= s);
    }
}

/// Parses an unsigned decimal literal (optional plus sign, then digits) no
/// larger than `max`; anything else yields nothing.
pub fn parse_uint_bytes(s: &[u8], max: u64) -> (r: Option<u64>)
    ensures
        r is Some <==> parses_as_uint(s@, max as int),
        r is Some ==> r->0 == digits_val(num_body(s@)),
{
    let start: usize = if s.len() > 0 && s[0] == PLUS {
        1
    } else {
        0
    };
    proof {
        if start == 1 {
            assert(num_body(s@) =~= s@.subrange(1, s@.len() as int));
        } else {
            assert(num_body(s@) =~= s@);
        }
    }
    let ghost body = num_body(s@);
    if start >= s.len() {
        return None;
    }
    let mut val: u64 = 0;
    let mut i: usize = start;
    while i < s.len()
        invariant
            start <= i <= s@.len(),
            start <= 1,
            body == num_body(s@),
            body =~= s@.subrange(start as int, s@.len() as int),
            all_digits(body.take(i - start)),
            val == digits_val(body.take(i - start)),
            val <= max,
        decreases s@.len() - i,
    {
        let b = s[i];
        if !(48 <= b && b <= 57) {
            proof {
                assert(body[i - start] == b);
                assert(!is_digit(body[i - start]));
            }
            return None;
        }
        let d: u64 = (b - 48) as u64;
        proof {
            lemma_digits_val_take_succ(body, i - start);
            lemma_digits_val_nonneg(body.take(i - start));
        }
        if val > max / 10 || d > max - val * 10 {
            proof {
                assert(digits_val(body.take(i - start + 1)) > max);
                assert(all_digits(body.take(i - start + 1))) by {
                    assert(forall|j: int|
                        0 <= j < i - start + 1 ==> body.take(i - start + 1)[j] == body[j]);
                }
                if all_digits(body) {
                    lemma_digits_val_prefix_mono(body, i - start + 1);
                }
            }
            return None;
        }
        val = val * 10 + d;
        proof {
            assert(all_digits(body.take(i - start + 1))) by {
                assert(forall|j: int|
                    0 <= j < i - start + 1 ==> body.take(i - start + 1)[j] == body[j]);
            }
        }
        i = i + 1;
    }
    proof {
        assert(body.take(s@.len() - start) =~= body);
    }
    Some(val)
}

/// The ASCII lowercase image of one byte.
pub open spec fn lower_byte(b: u8) -> u8 {
    if 65 <= b <= 90 {
        (b + 32) as u8
    } else {
        b
    }
}

/// The ASCII lowercase image of a byte string.
pub open spec fn lower_spec(s: Seq<u8>) -> Seq<u8> {
    s.map_values(|b: u8| lower_byte(b))
}

pub fn to_lower_bytes(s: &[u8]) -> (r: Vec<u8>)
    ensures
        r@ == lower_spec(s@),
{
    let mut out: Vec<u8> = Vec::new();
    let mut i: usize = 0;
    while i < s.len()
        invariant
            i <= s@.len(),
            out@ =~= lower_spec(s@.subrange(0, i as int)),
        decreases s@.len() - i,
    {
        let b = s[i];
        if 65 <= b && b <= 90 {
            out.push((b + 32) as u8);
        } else {
            out.push(b);
        }
        proof {
            assert(out@ =~= lower_spec(s@.subrange(0, i + 1))) by {
                assert(forall|j: int|
                    0 <= j < i + 1 ==> s@.subrange(0, i + 1)[j] == s@.subrange(0, i as int).push(
                        s@[i as int],
                    )[j]);
                assert(s@.subrange(0, i + 1) =~= s@.subrange(0, i as int).push(s@[i as int]));
            }
        }
        i = i + 1;
    }
    proof {
        assert(s@.subrange(0, s@.len() as int) =~= s@);
    }
    out
}

/// Whether `s` ends with `suffix`.
pub open spec fn ends_with(s: Seq<u8>, suffix: Seq<u8>) -> bool {
    s.len() >= suffix.len() && s.subrange(s.len() - suffix.len(), s.len() as int) == suffix
}

pub fn bytes_ends_with(s: &[u8], suffix: &[u8]) -> (r: bool)
    ensures
        r == ends_with(s@, suffix@),
{
    if s.len() < suffix.len() {
        return false;
    }
    let tail = vstd::slice::slice_subrange(s, s.len() - suffix.len(), s.len());
    bytes_eq(tail, suffix)
}

/// Whether two string slices hold the same text.
pub fn str_eq(a: &str, b: &str) -> (r: bool)
    ensures
        r == (a@ == b@),
{
    let r = bytes_eq(a.as_bytes(), b.as_bytes());
    proof {
        vstd::utf8::encode_utf8_decode_utf8(a@);
        vstd::utf8::encode_utf8_decode_utf8(b@);
    }
    r
}

/// The decimal digits of `n` for positive `n` (none for `n <= 0`).
pub open spec fn dec_digits(n: int) -> Seq<char>
    decreases n,
{
    if n <= 0 {
        Seq::empty()
    } else {
        dec_digits(n / 10).push(digit_char(n % 10))
    }
}

/// The decimal digit character for `d` in `0 ..= 9`.
pub open spec fn digit_char(d: int) -> char {
    if d == 0 {
        '0'
    } else if d == 1 {
        '1'
    } else if d == 2 {
        '2'
    } else if d == 3 {
        '3'
    } else if d == 4 {
        '4'
    } else if d == 5 {
        '5'
    } else if d == 6 {
        '6'
    } else if d == 7 {
        '7'
    } else if d == 8 {
        '8'
    } else {
        '9'
    }
}

/// The canonical decimal rendering of an integer.
pub open spec fn dec_chars(n: int) -> Seq<char> {
    if n == 0 {
        seq!['0']
    } else if n < 0 {
        seq!['-'] + dec_digits(-n)
    } else {
        dec_digits(n)
    }
}

/// Appends one decimal digit character.
fn push_digit_char(out: &mut String, d: u64)
    requires
        d < 10,
    ensures
        final(out)@ == old(out)@ + seq![digit_char(d as int)],
{
    proof {
        reveal_strlit("0");
        reveal_strlit("1");
        reveal_strlit("2");
        reveal_strlit("3");
        reveal_strlit("4");
        reveal_strlit("5");
        reveal_strlit("6");
        reveal_strlit("7");
        reveal_strlit("8");
        reveal_strlit("9");
    }
    if d == 0 {
        out.append("0");
    } else if d == 1 {
        out.append("1");
    } else if d == 2 {
        out.append("2");
    } else if d == 3 {
        out.append("3");
    } else if d == 4 {
        out.append("4");
    } else if d == 5 {
        out.append("5");
    } else if d == 6 {
        out.append("6");
    } else if d == 7 {
        out.append("7");
    } else if d == 8 {
        out.append("8");
    } else {
        out.append("9");
    }
    proof {
        assert(final(out)@ =~= old(out)@ + seq![digit_char(d as int)]);
    }
}

/// Appends the decimal digits of `v` (nothing for zero).
fn append_dec_digits(v: u64, out: &mut String)
    ensures
        final(out)@ == old(out)@ + dec_digits(v as int),
    decreases v,
{
    if v == 0 {
        proof {
            assert(old(out)@ + dec_digits(0) =~= old(out)@);
        }
        return ;
    }
    append_dec_digits(v / 10, out);
    push_digit_char(out, v % 10);
    proof {
        assert(old(out)@ + dec_digits(v as int / 10) + seq![digit_char(v as int % 10)] =~= old(
            out,
        )@ + dec_digits(v as int));
    }
}

/// The decimal rendering of an unsigned integer.
pub fn u64_to_string(v: u64) -> (r: String)
    ensures
        r@ == dec_chars(v as int),
{
    if v == 0 {
        let r = String::from_str("0");
        proof {
            reveal_strlit("0");
            assert(r@ =~= seq!['0']);
        }
        return r;
    }
    let mut out = String::new();
    append_dec_digits(v, &mut out);
    proof {
        assert(out@ =~= dec_chars(v as int));
    }
    out
}

/// The decimal rendering of a signed integer.
pub fn i64_to_string(n: i64) -> (r: String)
    ensures
        r@ == dec_chars(n as int),
{
    if n >= 0 {
        u64_to_string(n as u64)
    } else {
        let mag: u64 = if n == i64::MIN {
            9223372036854775808u64
        } else {
            (-n) as u64
        };
        let mut out = String::from_str("-");
        proof {
            reveal_strlit("-");
            assert(out@ =~= seq!['-']);
        }
        append_dec_digits(mag, &mut out);
        proof {
            assert(out@ =~= dec_chars(n as int));
        }
        out
    }
}

/// Trimming the end leaves no trailing whitespace.
pub proof fn lemma_trim_end_no_trailing(s: Seq<u8>)
    ensures
        trim_end_spec(s).len() == 0 || !is_ws(trim_end_spec(s).last()),
    decreases s.len(),
{
    if s.len() > 0 && is_ws(s.last()) {
        lemma_trim_end_no_trailing(s.drop_last());
    }
}

/// Trimming the start keeps the last byte.
pub proof fn lemma_trim_start_keeps_last(s: Seq<u8>)
    ensures
        trim_start_spec(s).len() > 0 ==> s.len() > 0 && trim_start_spec(s).last() == s.last(),
    decreases s.len(),
{
    if s.len() > 0 && is_ws(s.first()) {
        lemma_trim_start_keeps_last(s.drop_first());
    }
}

/// A fully trimmed string has no trailing whitespace.
pub proof fn lemma_trim_no_trailing_ws(s: Seq<u8>)
    ensures
        trim_spec(s).len() == 0 || !is_ws(trim_spec(s).last()),
{
    lemma_trim_end_no_trailing(s);
    lemma_trim_start_keeps_last(trim_end_spec(s));
}

/// The character sequence `String::from_utf8_lossy` decodes from a byte
/// string; on valid UTF-8 it is the decoded text itself.
pub uninterp spec fn utf8_lossy(v: Seq<u8>) -> Seq<char>;

/// Relies on `String::from_utf8_lossy`: total on every byte string, and the
/// identity decoding on valid UTF-8.
#[verifier::external_body]
pub fn bytes_to_string(v: &[u8]) -> (r: String)
    ensures
        r@ == utf8_lossy(v@),
        vstd::utf8::valid_utf8(v@) ==> r@ == vstd::utf8::decode_utf8(v@),
{
    String::from_utf8_lossy(v).into_owned()
}

/// A Unicode whitespace character, per the White_Space property that
/// `char::is_whitespace` tests.
pub open spec fn is_unicode_ws(c: char) -> bool {
    ||| c == '\u{0009}'
    ||| c == '\u{000A}'
    ||| c == '\u{000B}'
    ||| c == '\u{000C}'
    ||| c == '\u{000D}'
    ||| c == '\u{0020}'
    ||| c == '\u{0085}'
    ||| c == '\u{00A0}'
    ||| c == '\u{1680}'
    ||| c == '\u{2000}'
    ||| c == '\u{2001}'
    ||| c == '\u{2002}'
    ||| c == '\u{2003}'
    ||| c == '\u{2004}'
    ||| c == '\u{2005}'
    ||| c == '\u{2006}'
    ||| c == '\u{2007}'
    ||| c == '\u{2008}'
    ||| c == '\u{2009}'
    ||| c == '\u{200A}'
    ||| c == '\u{2028}'
    ||| c == '\u{2029}'
    ||| c == '\u{202F}'
    ||| c == '\u{205F}'
    ||| c == '\u{3000}'
}

/// `s` without its trailing Unicode whitespace.
pub open spec fn unicode_trim_end(s: Seq<char>) -> Seq<char>
    decreases s.len(),
{
    if s.len() > 0 && is_unicode_ws(s.last()) {
        unicode_trim_end(s.drop_last())
    } else {
        s
    }
}

/// `s` without its leading Unicode whitespace.
pub open spec fn unicode_trim_start(s: Seq<char>) -> Seq<char>
    decreases s.len(),
{
    if s.len() > 0 && is_unicode_ws(s.first()) {
        unicode_trim_start(s.drop_first())
    } else {
        s
    }
}

/// `s` without leading and trailing Unicode whitespace — what `str::trim`
/// leaves.
pub open spec fn unicode_trim(s: Seq<char>) -> Seq<char> {
    unicode_trim_start(unicode_trim_end(s))
}

/// Relies on `str::trim`: the slice with leading and trailing Unicode
/// whitespace (the White_Space property) removed.
#[verifier::external_body]
pub fn str_trim(s: &str) -> (r: &str)
    ensures
        r@ == unicode_trim(s@),
{
    s.trim()
}

/// One step of string-aware whitespace compaction: outside double-quoted
/// string literals, whitespace runs collapse to a single interior space;
/// inside a string (entered and left on an unescaped double quote, a
/// backslash escaping the next byte) every byte is copied verbatim.
pub open spec fn compact_outside_go(
    s: Seq<u8>,
    i: int,
    in_str: bool,
    esc: bool,
    out: Seq<u8>,
    pending: bool,
) -> Seq<u8>
    decreases s.len() - i,
{
    if i < 0 || i >= s.len() {
        out
    } else {
        let c = s[i];
        if in_str {
            if esc {
                compact_outside_go(s, i + 1, true, false, out.push(c), false)
            } else {
                compact_outside_go(s, i + 1, c != DQ, c == BS, out.push(c), false)
            }
        } else if is_ws(c) {
            compact_outside_go(s, i + 1, false, false, out, pending || out.len() > 0)
        } else {
            let out2 = if pending {
                out + seq![SP] + seq![c]
            } else {
                out + seq![c]
            };
            compact_outside_go(s, i + 1, c == DQ, false, out2, false)
        }
    }
}

/// `s` with whitespace runs outside string literals collapsed to single
/// interior spaces; the contents of double-quoted strings, tabs included,
/// are kept verbatim.
pub open spec fn compact_outside_spec(s: Seq<u8>) -> Seq<u8> {
    compact_outside_go(s, 0, false, false, Seq::empty(), false)
}

pub fn compact_ws_outside_strings(s: &[u8]) -> (r: Vec<u8>)
    ensures
        r@ == compact_outside_spec(s@),
{
    let mut out: Vec<u8> = Vec::new();
    let mut in_str = false;
    let mut esc = false;
    let mut pending = false;
    let mut i: usize = 0;
    while i < s.len()
        invariant
            i <= s@.len(),
            esc ==> in_str,
            in_str ==> !pending,
            compact_outside_spec(s@) == compact_outside_go(
                s@,
                i as int,
                in_str,
                esc,
                out@,
                pending,
            ),
        decreases s@.len() - i,
    {
        let ghost pre_out = out@;
        let ghost pre_pending = pending;
        let c = s[i];
        if in_str {
            out.push(c);
            if esc {
                esc = false;
            } else {
                if c == BS {
                    esc = true;
                } else if c == DQ {
                    in_str = false;
                }
            }
        } else if is_ws_byte(c) {
            if out.len() > 0 {
                pending = true;
            }
        } else {
            if pending {
                out.push(SP);
            }
            out.push(c);
            pending = false;
            if c == DQ {
                in_str = true;
            }
            proof {
                if pre_pending {
                    assert(out@ =~= pre_out + seq![SP] + seq![s@[i as int]]);
                } else {
                    assert(out@ =~= pre_out + seq![s@[i as int]]);
                }
            }
        }
        i = i + 1;
    }
    out
}

} // verus!
