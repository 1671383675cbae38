//! Properties of the formatter, stated and proved over the same spec
//! functions the engine's contracts use.

use vstd::prelude::*;

use crate::configuration::Configuration;
use crate::configuration::NewLineKind;
use crate::format::drop_trailing_nl;
use crate::format::finalize_spec;
use crate::format::nl_bytes;
use crate::text::expand_tabs_go;
use crate::text::expand_tabs_spec;
use crate::text::spaces_spec;
use crate::text::crlf_to_lf_go;
use crate::text::BS;
use crate::text::DQ;
use crate::text::SP;
use crate::text::TAB;
use crate::text::crlf_to_lf_spec;
use crate::text::compact_outside_go;
use crate::text::compact_outside_spec;
use crate::text::compact_ws_go;
use crate::text::compact_ws_spec;
use crate::text::ends_with;
use crate::text::is_ws;
use crate::text::trim_end_spec;
use crate::text::trim_spec;
use crate::text::trim_start_spec;
use crate::text::lf_to_crlf_go;
use crate::text::lf_to_crlf_spec;
use crate::text::CR;
use crate::text::LF;
use vstd::string::StringSliceAdditionalSpecFns;

verus! {

/// No carriage return at all.
pub open spec fn no_cr(s: Seq<u8>) -> bool {
    forall|i: int| 0 <= i < s.len() ==> s[i] != CR
}

/// Every carriage return is immediately followed by a line feed.
pub open spec fn lone_cr_free(s: Seq<u8>) -> bool {
    forall|i: int| 0 <= i < s.len() && #[trigger] s[i] == CR ==> i + 1 < s.len() && s[i + 1] == LF
}

/// Every line feed is preceded by a carriage return, and every carriage
/// return followed by a line feed: all line breaks are two-byte tokens.
pub open spec fn crlf_paired(s: Seq<u8>) -> bool {
    &&& forall|i: int| 0 <= i < s.len() && #[trigger] s[i] == LF ==> i > 0 && s[i - 1] == CR
    &&& forall|i: int| 0 <= i < s.len() && #[trigger] s[i] == CR ==> i + 1 < s.len() && s[i + 1]
        == LF
}

proof fn lemma_crlf_to_lf_go_no_cr(s: Seq<u8>, i: int, out: Seq<u8>)
    requires
        lone_cr_free(s),
        no_cr(out),
        i >= 0,
    ensures
        no_cr(crlf_to_lf_go(s, i, out)),
    decreases s.len() - i,
{
    if i < s.len() {
        if s[i] == CR && i + 1 < s.len() && s[i + 1] == LF {
            assert(no_cr(out + seq![LF]));
            lemma_crlf_to_lf_go_no_cr(s, i + 2, out + seq![LF]);
        } else {
            assert(s[i] != CR);
            assert(no_cr(out + seq![s[i]]));
            lemma_crlf_to_lf_go_no_cr(s, i + 1, out + seq![s[i]]);
        }
    }
}

/// Normalizing line endings to line feeds leaves no carriage return, as
/// long as the source has no lone carriage return.
pub proof fn lemma_crlf_to_lf_no_cr(s: Seq<u8>)
    requires
        lone_cr_free(s),
    ensures
        no_cr(crlf_to_lf_spec(s)),
{
    lemma_crlf_to_lf_go_no_cr(s, 0, Seq::empty());
}

proof fn lemma_lf_to_crlf_go_paired(s: Seq<u8>, i: int, out: Seq<u8>)
    requires
        no_cr(s),
        crlf_paired(out),
        out.len() > 0 ==> out.last() != CR,
        i >= 0,
    ensures
        crlf_paired(lf_to_crlf_go(s, i, out)),
        ({
            let r = lf_to_crlf_go(s, i, out);
            r.len() > 0 ==> r.last() != CR
        }),
    decreases s.len() - i,
{
    if i < s.len() {
        if s[i] == LF {
            let out2 = out + seq![CR, LF];
            assert(crlf_paired(out2)) by {
                assert(forall|j: int|
                    0 <= j < out.len() ==> out2[j] == out[j]);
                assert(out2[out.len() as int] == CR);
                assert(out2[out.len() as int + 1] == LF);
            }
            lemma_lf_to_crlf_go_paired(s, i + 1, out2);
        } else {
            let out2 = out + seq![s[i]];
            assert(s[i] != CR);
            assert(crlf_paired(out2)) by {
                assert(forall|j: int|
                    0 <= j < out.len() ==> out2[j] == out[j]);
            }
            lemma_lf_to_crlf_go_paired(s, i + 1, out2);
        }
    }
}

/// Converting line feeds to carriage-return/line-feed pairs yields text in
/// which every line break is a full pair, as long as the source had no
/// carriage return of its own.
pub proof fn lemma_lf_to_crlf_paired(s: Seq<u8>)
    requires
        no_cr(s),
    ensures
        crlf_paired(lf_to_crlf_spec(s)),
        lf_to_crlf_spec(s).len() > 0 ==> lf_to_crlf_spec(s).last() != CR,
{
    lemma_lf_to_crlf_go_paired(s, 0, Seq::empty());
}

/// Dropping trailing newline tokens reaches a fixed point: the result does
/// not end with the token.
proof fn lemma_drop_trailing_fix(s: Seq<u8>, nl: Seq<u8>)
    requires
        nl.len() > 0,
    ensures
        !ends_with(drop_trailing_nl(s, nl), nl),
        drop_trailing_nl(s, nl).len() <= s.len(),
    decreases s.len(),
{
    if ends_with(s, nl) && s.len() >= nl.len() {
        lemma_drop_trailing_fix(s.take(s.len() - nl.len()), nl);
    }
}

/// The trailing-newline invariant: the final output always ends with
/// exactly one newline token of the configured style, never two.
pub proof fn lemma_trailing_newline(x: Seq<u8>, kind: NewLineKind)
    ensures
        ({
            let r = finalize_spec(x, kind);
            let nl = nl_bytes(kind);
            &&& ends_with(r, nl)
            &&& !ends_with(r.take(r.len() - nl.len()), nl)
        }),
{
    let nl = nl_bytes(kind);
    let normalized = if kind == NewLineKind::CRLF {
        lf_to_crlf_spec(crlf_to_lf_spec(x))
    } else {
        crlf_to_lf_spec(x)
    };
    let t = drop_trailing_nl(normalized, nl);
    lemma_drop_trailing_fix(normalized, nl);
    let had = ends_with(normalized, nl);
    let r0 = if had {
        t + nl
    } else {
        t
    };
    if had {
        assert(ends_with(r0, nl)) by {
            assert(r0.subrange(r0.len() - nl.len(), r0.len() as int) =~= nl);
        }
        assert(r0.take(r0.len() - nl.len()) =~= t);
    } else {
        assert(finalize_spec(x, kind) == r0 + nl);
        assert(ends_with(r0 + nl, nl)) by {
            assert((r0 + nl).subrange(r0.len() as int, (r0 + nl).len() as int) =~= nl);
        }
        assert((r0 + nl).take(r0.len() as int) =~= t);
    }
}

proof fn lemma_take_no_cr(s: Seq<u8>, n: int)
    requires
        no_cr(s),
        0 <= n <= s.len(),
    ensures
        no_cr(s.take(n)),
{
    assert(forall|i: int| 0 <= i < n ==> s.take(n)[i] == s[i]);
}

proof fn lemma_drop_trailing_no_cr(s: Seq<u8>, nl: Seq<u8>)
    requires
        no_cr(s),
        nl.len() > 0,
    ensures
        no_cr(drop_trailing_nl(s, nl)),
    decreases s.len(),
{
    if ends_with(s, nl) && s.len() >= nl.len() {
        lemma_take_no_cr(s, s.len() - nl.len());
        lemma_drop_trailing_no_cr(s.take(s.len() - nl.len()), nl);
    }
}

/// The newline-style law for the line-feed style: the final output holds no
/// carriage return, as long as the source has no lone carriage return (one
/// inside a string literal, say, would be carried through verbatim).
pub proof fn lemma_newline_style_lf(x: Seq<u8>)
    requires
        lone_cr_free(x),
    ensures
        no_cr(finalize_spec(x, NewLineKind::LF)),
{
    let nl = nl_bytes(NewLineKind::LF);
    let y = crlf_to_lf_spec(x);
    lemma_crlf_to_lf_no_cr(x);
    lemma_drop_trailing_no_cr(y, nl);
    let t = drop_trailing_nl(y, nl);
    let r0 = if ends_with(y, nl) {
        t + nl
    } else {
        t
    };
    assert(no_cr(r0));
    assert(no_cr(finalize_spec(x, NewLineKind::LF)));
}

proof fn lemma_drop_trailing_paired(s: Seq<u8>, nl: Seq<u8>)
    requires
        crlf_paired(s),
        s.len() > 0 ==> s.last() != CR,
        nl == seq![CR, LF],
    ensures
        crlf_paired(drop_trailing_nl(s, nl)),
        drop_trailing_nl(s, nl).len() > 0 ==> drop_trailing_nl(s, nl).last() != CR,
    decreases s.len(),
{
    if ends_with(s, nl) && s.len() >= nl.len() {
        let p = s.take(s.len() - 2);
        assert(s[s.len() - 2] == CR && s[s.len() - 1] == LF) by {
            assert(s.subrange(s.len() - 2, s.len() as int)[0] == s[s.len() - 2]);
            assert(s.subrange(s.len() - 2, s.len() as int)[1] == s[s.len() - 1]);
        }
        assert(forall|i: int| 0 <= i < p.len() ==> p[i] == s[i]);
        if p.len() > 0 && p.last() == CR {
            assert(s[p.len() - 1] == CR);
            assert(s[p.len() as int] == LF);
            assert(s[s.len() - 2] == CR);
            assert(false);
        }
        assert(crlf_paired(p)) by {
            assert(forall|i: int|
                0 <= i < p.len() && #[trigger] p[i] == CR ==> s[i] == CR && i + 1 < s.len()
                    && s[i + 1] == LF && i + 1 < p.len());
        }
        lemma_drop_trailing_paired(p, nl);
    }
}

proof fn lemma_append_pair_paired(t: Seq<u8>)
    requires
        crlf_paired(t),
        t.len() > 0 ==> t.last() != CR,
    ensures
        crlf_paired(t + seq![CR, LF]),
        (t + seq![CR, LF]).last() != CR,
{
    let r = t + seq![CR, LF];
    assert(forall|i: int| 0 <= i < t.len() ==> r[i] == t[i]);
    assert(r[t.len() as int] == CR);
    assert(r[t.len() as int + 1] == LF);
}

/// The newline-style law for the carriage-return/line-feed style: every
/// line break in the final output is a full two-byte token — every line
/// feed is preceded by a carriage return and every carriage return followed
/// by a line feed — as long as the source has no lone carriage return.
pub proof fn lemma_newline_style_crlf(x: Seq<u8>)
    requires
        lone_cr_free(x),
    ensures
        crlf_paired(finalize_spec(x, NewLineKind::CRLF)),
{
    let nl = nl_bytes(NewLineKind::CRLF);
    assert(nl =~= seq![CR, LF]);
    let y0 = crlf_to_lf_spec(x);
    lemma_crlf_to_lf_no_cr(x);
    let y = lf_to_crlf_spec(y0);
    lemma_lf_to_crlf_paired(y0);
    lemma_drop_trailing_paired(y, nl);
    let t = drop_trailing_nl(y, nl);
    let had = ends_with(y, nl);
    let r0 = if had {
        t + nl
    } else {
        t
    };
    if had {
        lemma_append_pair_paired(t);
        assert(finalize_spec(x, NewLineKind::CRLF) == r0) by {
            assert(ends_with(r0, nl)) by {
                assert(r0.subrange(r0.len() - nl.len(), r0.len() as int) =~= nl);
            }
        }
    } else {
        assert(!ends_with(r0, nl)) by {
            lemma_drop_trailing_fix(y, nl);
        }
        lemma_append_pair_paired(t);
        assert(finalize_spec(x, NewLineKind::CRLF) == r0 + nl);
        assert(r0 + nl =~= t + seq![CR, LF]);
    }
}

/// The number of tab bytes in a byte string.
pub open spec fn tab_count(s: Seq<u8>) -> int
    decreases s.len(),
{
    if s.len() == 0 {
        0
    } else {
        tab_count(s.drop_last()) + if s.last() == TAB {
            1int
        } else {
            0int
        }
    }
}

/// The number of tab bytes that lie inside double-quoted string literals,
/// scanned with the same string/escape state machine tab expansion uses.
pub open spec fn in_string_tabs(s: Seq<u8>, i: int, in_str: bool, esc: bool) -> int
    decreases s.len() - i,
{
    if i < 0 || i >= s.len() {
        0
    } else {
        let c = s[i];
        if in_str {
            let add: int = if c == TAB {
                1
            } else {
                0
            };
            if esc {
                add + in_string_tabs(s, i + 1, true, false)
            } else {
                add + in_string_tabs(s, i + 1, c != DQ, c == BS)
            }
        } else if c == DQ {
            in_string_tabs(s, i + 1, true, false)
        } else {
            in_string_tabs(s, i + 1, false, false)
        }
    }
}

proof fn lemma_tab_count_push(out: Seq<u8>, c: u8)
    ensures
        tab_count(out.push(c)) == tab_count(out) + if c == TAB {
            1int
        } else {
            0int
        },
{
    assert(out.push(c).drop_last() =~= out);
}

proof fn lemma_tab_count_spaces(out: Seq<u8>, n: int)
    requires
        n >= 0,
    ensures
        tab_count(out + spaces_spec(n)) == tab_count(out),
    decreases n,
{
    if n <= 0 {
        assert(out + spaces_spec(n) =~= out);
    } else {
        lemma_tab_count_spaces(out, n - 1);
        assert(out + spaces_spec(n) =~= (out + spaces_spec(n - 1)).push(SP));
        lemma_tab_count_push(out + spaces_spec(n - 1), SP);
    }
}

proof fn lemma_expand_tabs_go_count(
    s: Seq<u8>,
    iw: int,
    i: int,
    in_str: bool,
    esc: bool,
    at_start: bool,
    out: Seq<u8>,
)
    requires
        esc ==> in_str,
        i >= 0,
    ensures
        tab_count(expand_tabs_go(s, iw, i, in_str, esc, at_start, out)) == tab_count(out)
            + in_string_tabs(s, i, in_str, esc),
    decreases s.len() - i,
{
    if i < s.len() {
        let c = s[i];
        if in_str {
            lemma_tab_count_push(out, c);
            if esc {
                lemma_expand_tabs_go_count(s, iw, i + 1, true, false, at_start, out.push(c));
            } else {
                lemma_expand_tabs_go_count(s, iw, i + 1, c != DQ, c == BS, false, out.push(c));
            }
        } else if c == DQ {
            lemma_tab_count_push(out, c);
            lemma_expand_tabs_go_count(s, iw, i + 1, true, false, false, out.push(c));
        } else if c == TAB {
            if at_start {
                lemma_tab_count_spaces(out, if iw >= 0 {
                    iw
                } else {
                    0
                });
                assert(out + spaces_spec(iw) =~= out + spaces_spec(
                    if iw >= 0 {
                        iw
                    } else {
                        0
                    },
                ));
                lemma_expand_tabs_go_count(
                    s,
                    iw,
                    i + 1,
                    false,
                    false,
                    at_start,
                    out + spaces_spec(iw),
                );
            } else {
                assert(out + seq![SP] =~= out.push(SP));
                lemma_tab_count_push(out, SP);
                lemma_expand_tabs_go_count(s, iw, i + 1, false, false, at_start, out + seq![SP]);
            }
        } else {
            lemma_tab_count_push(out, c);
            lemma_expand_tabs_go_count(s, iw, i + 1, false, false, false, out.push(c));
        }
    }
}

/// The tab-in-string invariant: tab expansion keeps exactly the tabs that
/// lie inside double-quoted string literals, and no others — the expanded
/// line holds precisely as many tabs as the source line held inside
/// strings.
pub proof fn lemma_tab_in_string(line: Seq<u8>, iw: int)
    ensures
        tab_count(expand_tabs_spec(line, iw)) == in_string_tabs(line, 0, false, false),
{
    lemma_expand_tabs_go_count(line, iw, 0, false, false, true, Seq::empty());
}

proof fn lemma_no_string_no_tabs(s: Seq<u8>, i: int)
    requires
        forall|j: int| 0 <= j < s.len() ==> s[j] != DQ,
        i >= 0,
    ensures
        in_string_tabs(s, i, false, false) == 0,
    decreases s.len() - i,
{
    if i < s.len() {
        lemma_no_string_no_tabs(s, i + 1);
    }
}

proof fn lemma_tab_count_zero(s: Seq<u8>)
    requires
        tab_count(s) == 0,
    ensures
        forall|j: int| 0 <= j < s.len() ==> s[j] != TAB,
    decreases s.len(),
{
    if s.len() > 0 {
        assert(tab_count(s.drop_last()) >= 0) by {
            lemma_tab_count_nonneg(s.drop_last());
        }
        lemma_tab_count_zero(s.drop_last());
        assert(forall|j: int| 0 <= j < s.len() - 1 ==> s[j] == s.drop_last()[j]);
    }
}

proof fn lemma_tab_count_nonneg(s: Seq<u8>)
    ensures
        tab_count(s) >= 0,
    decreases s.len(),
{
    if s.len() > 0 {
        lemma_tab_count_nonneg(s.drop_last());
    }
}

/// A tab outside any string literal is never preserved: a line without
/// string literals expands to a line without any tab at all.
pub proof fn lemma_no_tab_outside_strings(line: Seq<u8>, iw: int)
    requires
        forall|j: int| 0 <= j < line.len() ==> line[j] != DQ,
    ensures
        forall|j: int|
            0 <= j < expand_tabs_spec(line, iw).len() ==> expand_tabs_spec(line, iw)[j] != TAB,
{
    lemma_tab_in_string(line, iw);
    lemma_no_string_no_tabs(line, 0);
    lemma_tab_count_zero(expand_tabs_spec(line, iw));
}

proof fn lemma_crlf_go_identity(s: Seq<u8>, i: int, out: Seq<u8>)
    requires
        no_cr(s),
        0 <= i <= s.len(),
    ensures
        crlf_to_lf_go(s, i, out) == out + s.subrange(i, s.len() as int),
    decreases s.len() - i,
{
    if i < s.len() {
        lemma_crlf_go_identity(s, i + 1, out + seq![s[i]]);
        assert(out + seq![s[i]] + s.subrange(i + 1, s.len() as int) =~= out + s.subrange(
            i,
            s.len() as int,
        ));
    } else {
        assert(out + s.subrange(i, s.len() as int) =~= out);
    }
}

/// On text without carriage returns, newline normalization is the
/// identity.
pub proof fn lemma_crlf_to_lf_identity(s: Seq<u8>)
    requires
        no_cr(s),
    ensures
        crlf_to_lf_spec(s) == s,
{
    lemma_crlf_go_identity(s, 0, Seq::empty());
    assert(Seq::<u8>::empty() + s.subrange(0, s.len() as int) =~= s);
}

/// The idempotence of the final global passes, in the line-feed style:
/// finalizing already-finalized text changes nothing, as long as the
/// original text had no lone carriage return.
pub proof fn lemma_finalize_idempotent_lf(x: Seq<u8>)
    requires
        lone_cr_free(x),
    ensures
        finalize_spec(finalize_spec(x, NewLineKind::LF), NewLineKind::LF) == finalize_spec(
            x,
            NewLineKind::LF,
        ),
{
    let nl = nl_bytes(NewLineKind::LF);
    let y = finalize_spec(x, NewLineKind::LF);
    lemma_newline_style_lf(x);
    lemma_trailing_newline(x, NewLineKind::LF);
    lemma_crlf_to_lf_identity(y);
    let t = y.take(y.len() - nl.len());
    assert(y =~= t + nl) by {
        assert(ends_with(y, nl));
        assert(y.subrange(y.len() - nl.len(), y.len() as int) =~= nl);
        assert(forall|j: int| 0 <= j < y.len() - nl.len() ==> (t + nl)[j] == y[j]);
        assert((t + nl)[y.len() - 1] == nl[0]);
    }
    assert(!ends_with(t, nl));
    assert(drop_trailing_nl(t, nl) == t);
    assert(y.take(y.len() - nl.len()) == t);
    assert(drop_trailing_nl(y, nl) == drop_trailing_nl(t, nl));
    assert(finalize_spec(y, NewLineKind::LF) == t + nl);
}

/// Trimming is idempotent: a trimmed text trims to itself. Together with
/// the renderers' contracts this is the content-preservation statement for
/// the trimmed fields: what the engine emits is the field with surrounding
/// whitespace removed, and removing it again changes nothing.
pub proof fn lemma_trim_idempotent(s: Seq<u8>)
    ensures
        trim_spec(trim_spec(s)) == trim_spec(s),
{
    let t = trim_spec(s);
    crate::text::lemma_trim_no_trailing_ws(s);
    lemma_trim_start_first(trim_end_spec(s));
    assert(trim_end_spec(t) == t);
    assert(trim_start_spec(t) == t);
}

proof fn lemma_trim_start_first(s: Seq<u8>)
    ensures
        trim_start_spec(s).len() > 0 ==> !is_ws(trim_start_spec(s).first()),
    decreases s.len(),
{
    if s.len() > 0 && is_ws(s.first()) {
        lemma_trim_start_first(s.drop_first());
    }
}

/// A text in canonical whitespace form: no leading or trailing whitespace,
/// every whitespace byte a single space between non-whitespace bytes.
pub open spec fn compact_form(s: Seq<u8>) -> bool {
    &&& s.len() > 0 ==> !is_ws(s.first()) && !is_ws(s.last())
    &&& forall|i: int|
        0 <= i < s.len() && is_ws(#[trigger] s[i]) ==> s[i] == SP && (i + 1 < s.len()
            ==> !is_ws(s[i + 1]))
}

proof fn lemma_compact_go_form(s: Seq<u8>, i: int, out: Seq<u8>, pending: bool)
    requires
        0 <= i,
        compact_form(out),
        pending ==> out.len() > 0,
    ensures
        compact_form(compact_ws_go(s, i, out, pending)),
    decreases s.len() - i,
{
    if i < s.len() {
        if is_ws(s[i]) {
            lemma_compact_go_form(s, i + 1, out, pending || out.len() > 0);
        } else {
            let out2 = if pending {
                out + seq![SP] + seq![s[i]]
            } else {
                out + seq![s[i]]
            };
            assert(compact_form(out2)) by {
                if pending {
                    assert(forall|j: int| 0 <= j < out.len() ==> out2[j] == out[j]);
                    assert(out2[out.len() as int] == SP);
                    assert(out2[out.len() as int + 1] == s[i]);
                } else {
                    assert(forall|j: int| 0 <= j < out.len() ==> out2[j] == out[j]);
                }
            }
            lemma_compact_go_form(s, i + 1, out2, false);
        }
    }
}

/// Whitespace compaction yields canonical whitespace form.
pub proof fn lemma_compact_ws_form(s: Seq<u8>)
    ensures
        compact_form(compact_ws_spec(s)),
{
    lemma_compact_go_form(s, 0, Seq::empty(), false);
}

proof fn lemma_compact_canonical_go(t: Seq<u8>, i: int, out: Seq<u8>, pending: bool)
    requires
        compact_form(t),
        0 <= i <= t.len(),
        if pending {
            i > 0 && i <= t.len() && t[i - 1] == SP && out == t.take(i - 1) && (i < t.len()
                ==> !is_ws(t[i]))
        } else {
            out == t.take(i) && (i < t.len() && i > 0 ==> !is_ws(t[i - 1]) || i == 0)
        },
        pending ==> out.len() > 0,
    ensures
        compact_ws_go(t, i, out, pending) == t,
    decreases t.len() - i,
{
    if i >= t.len() {
        if pending {
            assert(t[i - 1] == SP && is_ws(t.last()));
            assert(false);
        } else {
            assert(t.take(i) =~= t);
        }
    } else {
        let c = t[i];
        if is_ws(c) {
            assert(c == SP);
            assert(!pending);
            assert(i > 0) by {
                if i == 0 {
                    assert(is_ws(t.first()));
                }
            }
            assert(out.len() > 0) by {
                assert(out =~= t.take(i));
            }
            assert(i + 1 < t.len() ==> !is_ws(t[i + 1])) by {
                assert(is_ws(t[i]));
            }
            assert(i + 1 <= t.len() && t[i + 1 - 1] == SP && out == t.take(i + 1 - 1));
            if i + 1 >= t.len() {
                assert(is_ws(t.last()));
                assert(false);
            }
            lemma_compact_canonical_go(t, i + 1, out, true);
        } else {
            if pending {
                let out2 = out + seq![SP] + seq![c];
                assert(out2 =~= t.take(i + 1)) by {
                    assert(t[i - 1] == SP);
                }
                lemma_compact_canonical_go(t, i + 1, out2, false);
            } else {
                let out2 = out + seq![c];
                assert(out2 =~= t.take(i + 1));
                lemma_compact_canonical_go(t, i + 1, out2, false);
            }
        }
    }
}

/// Whitespace compaction is idempotent: compacting a compacted text
/// changes nothing. Together with the renderers' contracts this is the
/// content-preservation statement for amounts and cost specifications:
/// comparing them with whitespace collapsed, the emitted text is the
/// source text.
pub proof fn lemma_compact_ws_idempotent(s: Seq<u8>)
    ensures
        compact_ws_spec(compact_ws_spec(s)) == compact_ws_spec(s),
{
    let t = compact_ws_spec(s);
    lemma_compact_ws_form(s);
    assert(t.take(0) =~= Seq::<u8>::empty());
    lemma_compact_canonical_go(t, 0, Seq::empty(), false);
}

/// A worked content-preservation instance: the rendered header of an
/// account-opening directive without currencies or comment is exactly the
/// trimmed date, the keyword, and the trimmed account, joined by single
/// spaces. Every field the source held is in the output, with only its
/// surrounding whitespace gone.
pub proof fn lemma_open_header_content(d: crate::ast::Open, cfg: Configuration)
    requires
        d.comment is None,
        d.currencies@.len() == 0,
        trim_spec(d.date@).len() > 0,
        trim_spec(d.account@).len() > 0,
    ensures
        crate::format::render_open_spec(d, cfg) == trim_spec(d.date@) + seq![SP]
            + "open".spec_bytes() + seq![SP] + trim_spec(d.account@),
{
    assert("open".spec_bytes().len() > 0) by {
        reveal_strlit("open");
        assert("open"@.len() == 4);
        vstd::utf8::encode_utf8_decode_utf8("open"@);
        if "open".spec_bytes().len() == 0 {
            assert(vstd::utf8::decode_utf8("open".spec_bytes()) =~= Seq::<char>::empty());
        }
    }
    assert(crate::format::vecs_views(d.currencies@) =~= Seq::<Seq<u8>>::empty());
    let j1 = crate::format::sp_join(trim_spec(d.date@), "open".spec_bytes());
    assert(j1 == trim_spec(d.date@) + seq![SP] + "open".spec_bytes());
    assert(j1.len() > 0);
    let j2 = crate::format::sp_join(j1, trim_spec(d.account@));
    assert(j2 == j1 + seq![SP] + trim_spec(d.account@));
    assert(j1 + seq![SP] + trim_spec(d.account@) =~= trim_spec(d.date@) + seq![SP]
        + "open".spec_bytes() + seq![SP] + trim_spec(d.account@));
}

proof fn lemma_lf_go_split(s: Seq<u8>, i: int, out: Seq<u8>)
    requires
        0 <= i,
    ensures
        lf_to_crlf_go(s, i, out) == out + lf_to_crlf_go(s, i, Seq::empty()),
    decreases s.len() - i,
{
    if i >= s.len() {
        assert(out + Seq::<u8>::empty() =~= out);
    } else if s[i] == LF {
        lemma_lf_go_split(s, i + 1, out + seq![CR, LF]);
        lemma_lf_go_split(s, i + 1, Seq::<u8>::empty() + seq![CR, LF]);
        assert(out + seq![CR, LF] + lf_to_crlf_go(s, i + 1, Seq::empty()) =~= out + (Seq::<
            u8,
        >::empty() + seq![CR, LF] + lf_to_crlf_go(s, i + 1, Seq::empty())));
    } else {
        lemma_lf_go_split(s, i + 1, out + seq![s[i]]);
        lemma_lf_go_split(s, i + 1, Seq::<u8>::empty() + seq![s[i]]);
        assert(out + seq![s[i]] + lf_to_crlf_go(s, i + 1, Seq::empty()) =~= out + (Seq::<
            u8,
        >::empty() + seq![s[i]] + lf_to_crlf_go(s, i + 1, Seq::empty())));
    }
}

proof fn lemma_crlf_go_split(s: Seq<u8>, i: int, out: Seq<u8>)
    requires
        0 <= i,
    ensures
        crlf_to_lf_go(s, i, out) == out + crlf_to_lf_go(s, i, Seq::empty()),
    decreases s.len() - i,
{
    if i >= s.len() {
        assert(out + Seq::<u8>::empty() =~= out);
    } else if s[i] == CR && i + 1 < s.len() && s[i + 1] == LF {
        lemma_crlf_go_split(s, i + 2, out + seq![LF]);
        lemma_crlf_go_split(s, i + 2, Seq::<u8>::empty() + seq![LF]);
        assert(out + seq![LF] + crlf_to_lf_go(s, i + 2, Seq::empty()) =~= out + (Seq::<
            u8,
        >::empty() + seq![LF] + crlf_to_lf_go(s, i + 2, Seq::empty())));
    } else {
        lemma_crlf_go_split(s, i + 1, out + seq![s[i]]);
        lemma_crlf_go_split(s, i + 1, Seq::<u8>::empty() + seq![s[i]]);
        assert(out + seq![s[i]] + crlf_to_lf_go(s, i + 1, Seq::empty()) =~= out + (Seq::<
            u8,
        >::empty() + seq![s[i]] + crlf_to_lf_go(s, i + 1, Seq::empty())));
    }
}

proof fn lemma_lf_go_shift(y: Seq<u8>, i: int, out: Seq<u8>)
    requires
        1 <= i,
        y.len() >= 1,
    ensures
        lf_to_crlf_go(y, i, out) == lf_to_crlf_go(y.drop_first(), i - 1, out),
    decreases y.len() - i,
{
    let t = y.drop_first();
    if i >= y.len() {
    } else {
        assert(t[i - 1] == y[i]);
        if y[i] == LF {
            lemma_lf_go_shift(y, i + 1, out + seq![CR, LF]);
        } else {
            lemma_lf_go_shift(y, i + 1, out + seq![y[i]]);
        }
    }
}

proof fn lemma_paired_roundtrip_from(s: Seq<u8>, i: int)
    requires
        crlf_paired(s),
        0 <= i <= s.len(),
        i < s.len() ==> s[i] != LF,
    ensures
        lf_to_crlf_spec(crlf_to_lf_go(s, i, Seq::empty())) == s.subrange(i, s.len() as int),
    decreases s.len() - i,
{
    if i >= s.len() {
        assert(s.subrange(i, s.len() as int) =~= Seq::<u8>::empty());
    } else if s[i] == CR {
        assert(s[i + 1] == LF);
        if i + 2 < s.len() && s[i + 2] == LF {
            assert(s[i + 1] == CR);
            assert(false);
        }
        lemma_paired_roundtrip_from(s, i + 2);
        let x = crlf_to_lf_go(s, i + 2, Seq::empty());
        lemma_crlf_go_split(s, i + 2, seq![LF]);
        assert(crlf_to_lf_go(s, i, Seq::empty()) == seq![LF] + x) by {
            assert(Seq::<u8>::empty() + seq![LF] =~= seq![LF]);
        }
        let y = seq![LF] + x;
        assert(y.len() >= 1 && y[0] == LF);
        assert(lf_to_crlf_spec(y) == lf_to_crlf_go(y, 1, seq![CR, LF])) by {
            assert(Seq::<u8>::empty() + seq![CR, LF] =~= seq![CR, LF]);
        }
        lemma_lf_go_shift(y, 1, seq![CR, LF]);
        assert(y.drop_first() =~= x);
        lemma_lf_go_split(x, 0, seq![CR, LF]);
        assert(lf_to_crlf_spec(y) == seq![CR, LF] + lf_to_crlf_spec(x));
        assert(seq![CR, LF] + s.subrange(i + 2, s.len() as int) =~= s.subrange(
            i,
            s.len() as int,
        ));
    } else {
        if i + 1 < s.len() && s[i + 1] == LF {
            assert(s[i] == CR);
            assert(false);
        }
        lemma_paired_roundtrip_from(s, i + 1);
        let x = crlf_to_lf_go(s, i + 1, Seq::empty());
        lemma_crlf_go_split(s, i + 1, seq![s[i]]);
        assert(crlf_to_lf_go(s, i, Seq::empty()) == seq![s[i]] + x) by {
            assert(Seq::<u8>::empty() + seq![s[i]] =~= seq![s[i]]);
        }
        let y = seq![s[i]] + x;
        assert(y.len() >= 1 && y[0] == s[i] && s[i] != LF);
        assert(lf_to_crlf_spec(y) == lf_to_crlf_go(y, 1, seq![s[i]])) by {
            assert(Seq::<u8>::empty() + seq![s[i]] =~= seq![s[i]]);
        }
        lemma_lf_go_shift(y, 1, seq![s[i]]);
        assert(y.drop_first() =~= x);
        lemma_lf_go_split(x, 0, seq![s[i]]);
        assert(lf_to_crlf_spec(y) == seq![s[i]] + lf_to_crlf_spec(x));
        assert(seq![s[i]] + s.subrange(i + 1, s.len() as int) =~= s.subrange(i, s.len() as int));
    }
}

/// On text whose every line break is a full carriage-return/line-feed
/// token, collapsing the pairs and re-expanding them is the identity.
pub proof fn lemma_paired_roundtrip(s: Seq<u8>)
    requires
        crlf_paired(s),
    ensures
        lf_to_crlf_spec(crlf_to_lf_spec(s)) == s,
{
    if s.len() > 0 && s[0] == LF {
        assert(false);
    }
    lemma_paired_roundtrip_from(s, 0);
    assert(s.subrange(0, s.len() as int) =~= s);
}

/// The idempotence of the final global passes, in the
/// carriage-return/line-feed style: finalizing already-finalized text
/// changes nothing, as long as the original text had no lone carriage
/// return.
pub proof fn lemma_finalize_idempotent_crlf(x: Seq<u8>)
    requires
        lone_cr_free(x),
    ensures
        finalize_spec(finalize_spec(x, NewLineKind::CRLF), NewLineKind::CRLF) == finalize_spec(
            x,
            NewLineKind::CRLF,
        ),
{
    let nl = nl_bytes(NewLineKind::CRLF);
    let y = finalize_spec(x, NewLineKind::CRLF);
    lemma_newline_style_crlf(x);
    lemma_trailing_newline(x, NewLineKind::CRLF);
    lemma_paired_roundtrip(y);
    let t = y.take(y.len() - nl.len());
    assert(y =~= t + nl) by {
        assert(ends_with(y, nl));
        assert(y.subrange(y.len() - nl.len(), y.len() as int) =~= nl);
    }
    assert(!ends_with(t, nl));
    assert(drop_trailing_nl(t, nl) == t);
    assert(y.take(y.len() - nl.len()) == t);
    assert(drop_trailing_nl(y, nl) == drop_trailing_nl(t, nl));
    assert(finalize_spec(y, NewLineKind::CRLF) == t + nl);
}

proof fn lemma_compact_outside_go_count(
    s: Seq<u8>,
    i: int,
    in_str: bool,
    esc: bool,
    out: Seq<u8>,
    pending: bool,
)
    requires
        esc ==> in_str,
        i >= 0,
    ensures
        tab_count(compact_outside_go(s, i, in_str, esc, out, pending)) == tab_count(out)
            + in_string_tabs(s, i, in_str, esc),
    decreases s.len() - i,
{
    if i < s.len() {
        let c = s[i];
        if in_str {
            lemma_tab_count_push(out, c);
            if esc {
                lemma_compact_outside_go_count(s, i + 1, true, false, out.push(c), false);
            } else {
                lemma_compact_outside_go_count(s, i + 1, c != DQ, c == BS, out.push(c), false);
            }
        } else if is_ws(c) {
            lemma_compact_outside_go_count(s, i + 1, false, false, out, pending || out.len() > 0);
        } else {
            let out2 = if pending {
                out + seq![SP] + seq![c]
            } else {
                out + seq![c]
            };
            assert(tab_count(out2) == tab_count(out)) by {
                if pending {
                    assert(out + seq![SP] + seq![c] =~= out.push(SP).push(c));
                    lemma_tab_count_push(out, SP);
                    lemma_tab_count_push(out.push(SP), c);
                } else {
                    assert(out + seq![c] =~= out.push(c));
                    lemma_tab_count_push(out, c);
                }
            }
            lemma_compact_outside_go_count(s, i + 1, c == DQ, false, out2, false);
        }
    }
}

/// The tab-in-string invariant for the string-aware compaction used on
/// cost specifications and price annotations: the compacted text holds
/// exactly the tabs that lay inside double-quoted string literals, and no
/// others.
pub proof fn lemma_compact_outside_tab_in_string(s: Seq<u8>)
    ensures
        tab_count(compact_outside_spec(s)) == in_string_tabs(s, 0, false, false),
{
    lemma_compact_outside_go_count(s, 0, false, false, Seq::empty(), false);
}

} // verus!
