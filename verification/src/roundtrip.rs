//! The DIDL-Lite round-trip law: decoding a fragment built from a metadata
//! value recovers its fields. The proof walks the tokenizer over the built
//! text, one segment at a time: lemmas here pin each scan down, shift the
//! scanner over consumed prefixes, and consume one tag or text run per
//! step.

use vstd::prelude::*;

use crate::escape::{esc_text_char, spec_escape_text, spec_unescape};
use crate::strutil::{is_space, scan_to, skip_ws};
use crate::parser::MetaScan;
use crate::xmltok::{
    is_name_end, local_of, scan_comment_end, scan_name, scan_pair, spec_attrs, spec_attrs_from,
    spec_step, spec_tokens, spec_tokens_from, TokV,
};

verus! {

/// A scan to `c` lands on the first `c`.
pub proof fn lemma_scan_to_pin(s: Seq<char>, i: int, c: char, e: int)
    requires
        0 <= i <= e < s.len(),
        s[e] == c,
        forall|j: int| i <= j < e ==> s[j] != c,
    ensures
        scan_to(s, i, c) == e,
    decreases e - i,
{
    if i < e {
        lemma_scan_to_pin(s, i + 1, c, e);
    }
}

/// A scan to `c` over a `c`-free region runs to the end.
pub proof fn lemma_scan_to_none(s: Seq<char>, i: int, c: char)
    requires
        0 <= i <= s.len(),
        forall|j: int| i <= j < s.len() ==> s[j] != c,
    ensures
        scan_to(s, i, c) == s.len(),
    decreases s.len() - i,
{
    if i < s.len() {
        lemma_scan_to_none(s, i + 1, c);
    }
}

/// A name scan lands on the first name-ending character.
pub proof fn lemma_scan_name_pin(s: Seq<char>, i: int, e: int)
    requires
        0 <= i <= e < s.len(),
        is_name_end(s[e]),
        forall|j: int| i <= j < e ==> !is_name_end(s[j]),
    ensures
        scan_name(s, i) == e,
    decreases e - i,
{
    if i < e {
        lemma_scan_name_pin(s, i + 1, e);
    }
}

/// A whitespace skip lands on the first non-whitespace character.
pub proof fn lemma_skip_ws_pin(s: Seq<char>, i: int, e: int)
    requires
        0 <= i <= e < s.len(),
        !is_space(s[e]),
        forall|j: int| i <= j < e ==> is_space(s[j]),
    ensures
        skip_ws(s, i) == e,
    decreases e - i,
{
    if i < e {
        lemma_skip_ws_pin(s, i + 1, e);
    }
}

/// Unescaping text that holds no ampersand changes nothing.
pub proof fn lemma_unescape_plain(s: Seq<char>)
    requires
        forall|j: int| 0 <= j < s.len() ==> s[j] != '&',
    ensures
        spec_unescape(s) == s,
    decreases s.len(),
{
    if s.len() == 0 {
        assert(spec_unescape(s) =~= s);
    } else {
        assert(forall|j: int| 0 <= j < s.skip(1).len() ==> s.skip(1)[j] != '&');
        lemma_unescape_plain(s.skip(1));
        assert(spec_unescape(s) =~= s);
    }
}

/// A text escape holds no `<`.
pub proof fn lemma_escape_text_no_lt(s: Seq<char>)
    ensures
        forall|j: int|
            0 <= j < spec_escape_text(s).len() ==> #[trigger] spec_escape_text(s)[j] != '<'
                && spec_escape_text(s)[j] != '>',
    decreases s.len(),
{
    if s.len() > 0 {
        lemma_escape_text_no_lt(s.skip(1));
        assert(forall|j: int|
            0 <= j < esc_text_char(s[0]).len() ==> #[trigger] esc_text_char(s[0])[j] != '<'
                && esc_text_char(s[0])[j] != '>');
        assert(forall|j: int|
            0 <= j < spec_escape_text(s).len() ==> #[trigger] spec_escape_text(s)[j] != '<'
                && spec_escape_text(s)[j] != '>') by {
            assert(spec_escape_text(s) == esc_text_char(s[0]) + spec_escape_text(s.skip(1)));
        }
    }
}

/// A text escape of something visible stays visible.
pub proof fn lemma_escape_text_nonws(s: Seq<char>)
    requires
        crate::xmltok::has_nonws(s),
    ensures
        crate::xmltok::has_nonws(spec_escape_text(s)),
        spec_escape_text(s).len() > 0,
    decreases s.len(),
{
    let k = choose|k: int| 0 <= k < s.len() && !is_space(s[k]);
    if k == 0 {
        let e = esc_text_char(s[0]);
        assert(e.len() > 0);
        assert(!is_space(e[0]));
        assert(spec_escape_text(s)[0] == e[0]);
        assert(!is_space(spec_escape_text(s)[0]));
    } else {
        assert(!is_space(s.skip(1)[k - 1]));
        assert(crate::xmltok::has_nonws(s.skip(1)));
        lemma_escape_text_nonws(s.skip(1));
        let e = esc_text_char(s[0]);
        let t = spec_escape_text(s.skip(1));
        let j = choose|j: int| 0 <= j < t.len() && !is_space(t[j]);
        assert(spec_escape_text(s)[e.len() + j] == t[j]);
        assert(!is_space(spec_escape_text(s)[e.len() + j]));
    }
}

} // verus!

verus! {

/// Scanning a concatenation past the first part is scanning the second.
pub proof fn lemma_scan_to_shift(x: Seq<char>, y: Seq<char>, j: int, c: char)
    requires
        0 <= j <= y.len(),
    ensures
        scan_to(x + y, x.len() + j, c) == x.len() + scan_to(y, j, c),
    decreases y.len() - j,
{
    assert((x + y).len() == x.len() + y.len());
    if j < y.len() {
        assert((x + y)[x.len() + j] == y[j]);
        if y[j] != c {
            lemma_scan_to_shift(x, y, j + 1, c);
        }
    }
}

pub proof fn lemma_skip_ws_shift(x: Seq<char>, y: Seq<char>, j: int)
    requires
        0 <= j <= y.len(),
    ensures
        skip_ws(x + y, x.len() + j) == x.len() + skip_ws(y, j),
    decreases y.len() - j,
{
    assert((x + y).len() == x.len() + y.len());
    if j < y.len() {
        assert((x + y)[x.len() + j] == y[j]);
        if is_space(y[j]) {
            lemma_skip_ws_shift(x, y, j + 1);
        }
    }
}

pub proof fn lemma_scan_name_shift(x: Seq<char>, y: Seq<char>, j: int)
    requires
        0 <= j <= y.len(),
    ensures
        scan_name(x + y, x.len() + j) == x.len() + scan_name(y, j),
    decreases y.len() - j,
{
    assert((x + y).len() == x.len() + y.len());
    if j < y.len() {
        assert((x + y)[x.len() + j] == y[j]);
        if !is_name_end(y[j]) {
            lemma_scan_name_shift(x, y, j + 1);
        }
    }
}

pub proof fn lemma_scan_pair_shift(x: Seq<char>, y: Seq<char>, j: int, a: char, b: char)
    requires
        0 <= j <= y.len(),
    ensures
        scan_pair(x + y, x.len() + j, a, b) == x.len() + scan_pair(y, j, a, b),
    decreases y.len() - j,
{
    assert((x + y).len() == x.len() + y.len());
    if j + 1 < y.len() {
        assert((x + y)[x.len() + j] == y[j]);
        assert((x + y)[x.len() + j + 1] == y[j + 1]);
        if !(y[j] == a && y[j + 1] == b) {
            lemma_scan_pair_shift(x, y, j + 1, a, b);
        }
    }
}

pub proof fn lemma_scan_comment_shift(x: Seq<char>, y: Seq<char>, j: int)
    requires
        0 <= j <= y.len(),
    ensures
        scan_comment_end(x + y, x.len() + j) == x.len() + scan_comment_end(y, j),
    decreases y.len() - j,
{
    assert((x + y).len() == x.len() + y.len());
    if j + 2 < y.len() {
        assert((x + y)[x.len() + j] == y[j]);
        assert((x + y)[x.len() + j + 1] == y[j + 1]);
        assert((x + y)[x.len() + j + 2] == y[j + 2]);
        if !(y[j] == '-' && y[j + 1] == '-' && y[j + 2] == '>') {
            lemma_scan_comment_shift(x, y, j + 1);
        }
    }
}

/// Subranges past the first part of a concatenation come from the second.
pub proof fn lemma_subrange_shift(x: Seq<char>, y: Seq<char>, a: int, b: int)
    requires
        0 <= a <= b <= y.len(),
    ensures
        (x + y).subrange(x.len() + a, x.len() + b) == y.subrange(a, b),
{
    assert((x + y).subrange(x.len() + a, x.len() + b) =~= y.subrange(a, b));
}

/// The attribute scan past the first part of a concatenation is the
/// attribute scan of the second, its positions shifted.
pub proof fn lemma_attrs_shift(x: Seq<char>, y: Seq<char>, j: int)
    requires
        0 <= j <= y.len(),
    ensures
        spec_attrs(x + y, x.len() + j).0 == spec_attrs(y, j).0,
        spec_attrs(x + y, x.len() + j).1 == x.len() + spec_attrs(y, j).1,
        spec_attrs(x + y, x.len() + j).2 == spec_attrs(y, j).2,
    decreases y.len() - j,
{
    let s = x + y;
    let n = x.len() as int;
    assert(s.len() == n + y.len());
    assert(forall|t: int| 0 <= t < y.len() ==> s[n + t] == y[t]);
    lemma_skip_ws_shift(x, y, j);
    let k = skip_ws(y, j);
    crate::strutil::lemma_skip_ws_bounds(y, j);
    if k >= y.len() {
    } else if y[k] == '>' {
    } else if y[k] == '/' {
        if k + 1 < y.len() && y[k + 1] == '>' {
        } else {
            lemma_attrs_shift(x, y, k + 1);
        }
    } else if y[k] == '=' {
        lemma_attrs_shift(x, y, k + 1);
    } else {
        assert(!is_name_end(y[k]));
        lemma_scan_name_shift(x, y, k);
        let e = scan_name(y, k);
        crate::xmltok::lemma_scan_name_bounds(y, k + 1);
        assert(scan_name(y, k) == scan_name(y, k + 1));
        lemma_subrange_shift(x, y, k, e);
        lemma_skip_ws_shift(x, y, e);
        let q = skip_ws(y, e);
        crate::strutil::lemma_skip_ws_bounds(y, e);
        if q < y.len() && y[q] == '=' {
            lemma_skip_ws_shift(x, y, q + 1);
            let v0 = skip_ws(y, q + 1);
            crate::strutil::lemma_skip_ws_bounds(y, q + 1);
            if v0 < y.len() && (y[v0] == '"' || y[v0] == '\'') {
                lemma_scan_to_shift(x, y, v0 + 1, y[v0]);
                let close = scan_to(y, v0 + 1, y[v0]);
                crate::strutil::lemma_scan_to_bounds(y, v0 + 1, y[v0]);
                if close < y.len() {
                    lemma_subrange_shift(x, y, v0 + 1, close);
                    lemma_attrs_shift(x, y, close + 1);
                }
            } else {
                lemma_attrs_shift(x, y, v0);
            }
        } else {
            lemma_attrs_shift(x, y, q);
        }
    }
}

/// One scan step past the first part of a concatenation is the step of the
/// second, its resumption point shifted.
pub proof fn lemma_step_shift(x: Seq<char>, y: Seq<char>, j: int)
    requires
        0 <= j < y.len(),
    ensures
        spec_step(x + y, x.len() + j).0 == spec_step(y, j).0,
        spec_step(x + y, x.len() + j).1 == x.len() + spec_step(y, j).1,
{
    let s = x + y;
    let n = x.len() as int;
    assert(s.len() == n + y.len());
    assert(forall|t: int| 0 <= t < y.len() ==> s[n + t] == y[t]);
    if y[j] != '<' {
        lemma_scan_to_shift(x, y, j, '<');
        let e = scan_to(y, j, '<');
        crate::strutil::lemma_scan_to_bounds(y, j, '<');
        lemma_subrange_shift(x, y, j, e);
    } else if j + 3 < y.len() && y[j + 1] == '!' && y[j + 2] == '-' && y[j + 3] == '-' {
        lemma_scan_comment_shift(x, y, j + 4);
    } else if j + 1 < y.len() && y[j + 1] == '!' {
        lemma_scan_to_shift(x, y, j + 1, '>');
    } else if j + 1 < y.len() && y[j + 1] == '?' {
        lemma_scan_pair_shift(x, y, j + 2, '?', '>');
    } else if j + 1 < y.len() && y[j + 1] == '/' {
        lemma_scan_to_shift(x, y, j + 2, '>');
        let e = scan_to(y, j + 2, '>');
        crate::strutil::lemma_scan_to_bounds(y, j + 2, '>');
        if e < y.len() {
            lemma_subrange_shift(x, y, j + 2, e);
        }
    } else {
        lemma_scan_name_shift(x, y, j + 1);
        let e = scan_name(y, j + 1);
        crate::xmltok::lemma_scan_name_bounds(y, j + 1);
        if e == j + 1 {
            lemma_scan_to_shift(x, y, j + 1, '>');
        } else {
            lemma_subrange_shift(x, y, j + 1, e);
            lemma_attrs_shift(x, y, e);
        }
    }
}

/// Tokenizing past the first part of a concatenation yields the second
/// part's tokens.
pub proof fn lemma_tokens_from_shift(x: Seq<char>, y: Seq<char>, j: int)
    requires
        0 <= j <= y.len(),
    ensures
        spec_tokens_from(x + y, x.len() + j) == spec_tokens_from(y, j),
    decreases y.len() - j,
{
    let s = x + y;
    let n = x.len() as int;
    assert(s.len() == n + y.len());
    if j >= y.len() {
        assert(spec_tokens_from(s, n + j) =~= spec_tokens_from(y, j));
    } else {
        lemma_step_shift(x, y, j);
        let r = spec_step(y, j);
        if j < r.1 <= y.len() {
            lemma_tokens_from_shift(x, y, r.1);
        }
    }
}

} // verus!

verus! {

/// Consumes one `name="value"` attribute at `p` (which holds the space
/// before it): the scan yields this attribute and continues after the
/// closing quote.
pub proof fn lemma_attr_one(s: Seq<char>, p: int, nm: Seq<char>, val: Seq<char>)
    requires
        0 <= p,
        nm.len() > 0,
        p + nm.len() + val.len() + 4 <= s.len(),
        s[p] == ' ',
        s.subrange(p + 1, p + 1 + nm.len()) == nm,
        forall|j: int| 0 <= j < nm.len() ==> !is_name_end(#[trigger] nm[j]),
        s[p + 1 + nm.len()] == '=',
        s[p + 2 + nm.len()] == '"',
        s.subrange(p + 3 + nm.len(), p + 3 + nm.len() + val.len()) == val,
        forall|j: int| 0 <= j < val.len() ==> #[trigger] val[j] != '"',
        s[p + 3 + nm.len() + val.len()] == '"',
    ensures
        spec_attrs(s, p).0 == seq![(nm, spec_unescape(val))] + spec_attrs(
            s,
            p + nm.len() + val.len() + 4,
        ).0,
        spec_attrs(s, p).1 == spec_attrs(s, p + nm.len() + val.len() + 4).1,
        spec_attrs(s, p).2 == spec_attrs(s, p + nm.len() + val.len() + 4).2,
{
    let ln = nm.len() as int;
    let lv = val.len() as int;
    assert forall|k: int| p + 1 <= k < p + 1 + ln implies !is_name_end(s[k]) by {
        assert(s[k] == s.subrange(p + 1, p + 1 + ln)[k - (p + 1)]);
        assert(s[k] == nm[k - (p + 1)]);
    }
    assert forall|k: int| p + 3 + ln <= k < p + 3 + ln + lv implies s[k] != '"' by {
        assert(s[k] == s.subrange(p + 3 + ln, p + 3 + ln + lv)[k - (p + 3 + ln)]);
        assert(s[k] == val[k - (p + 3 + ln)]);
    }
    assert(s[p + 1] == nm[0]) by {
        assert(s[p + 1] == s.subrange(p + 1, p + 1 + ln)[0]);
    }
    assert(!is_space(s[p + 1]) && !is_name_end(s[p + 1]));
    lemma_skip_ws_pin(s, p, p + 1);
    lemma_scan_name_pin(s, p + 1, p + 1 + ln);
    lemma_skip_ws_pin(s, p + 1 + ln, p + 1 + ln);
    lemma_skip_ws_pin(s, p + 2 + ln, p + 2 + ln);
    lemma_scan_to_pin(s, p + 3 + ln, '"', p + 3 + ln + lv);
    assert(s.subrange(p + 1, p + 1 + ln) == nm);
    assert(s.subrange(p + 3 + ln, p + 3 + ln + lv) == val);
    assert(spec_attrs_from(s, p, p + ln + lv + 4) == spec_attrs(s, p + ln + lv + 4));
}

/// The attribute scan standing on the closing `>` ends the tag.
pub proof fn lemma_attrs_close(s: Seq<char>, p: int)
    requires
        0 <= p < s.len(),
        s[p] == '>',
    ensures
        spec_attrs(s, p) == (Seq::<(Seq<char>, Seq<char>)>::empty(), p + 1, 0int),
{
    lemma_skip_ws_pin(s, p, p);
}

} // verus!

verus! {

/// A name without whitespace survives trimming.
pub proof fn lemma_trim_plain(t: Seq<char>)
    requires
        t.len() > 0,
        forall|j: int| 0 <= j < t.len() ==> !is_space(#[trigger] t[j]),
    ensures
        crate::strutil::trim(t) == t,
{
    lemma_skip_ws_pin(t, 0, 0);
    assert(crate::strutil::rskip_ws(t, t.len() as int) == t.len());
    assert(t.subrange(0, t.len() as int) =~= t);
}

/// One scan step on a start tag `<name ...>`: the element opens with the
/// attributes the attribute scan yields.
pub proof fn lemma_start_tag_step(s: Seq<char>, i: int, nm: Seq<char>)
    requires
        0 <= i < s.len(),
        s[i] == '<',
        nm.len() > 0,
        i + 1 + nm.len() < s.len(),
        s.subrange(i + 1, i + 1 + nm.len()) == nm,
        forall|j: int| 0 <= j < nm.len() ==> !is_name_end(#[trigger] nm[j]),
        nm[0] != '!',
        nm[0] != '?',
        is_name_end(s[i + 1 + nm.len()]),
        spec_attrs(s, i + 1 + nm.len()).2 == 0,
    ensures
        spec_step(s, i) == (
            seq![TokV::Start { name: nm, attrs: spec_attrs(s, i + 1 + nm.len()).0 }],
            spec_attrs(s, i + 1 + nm.len()).1,
        ),
{
    let ln = nm.len() as int;
    assert forall|k: int| i + 1 <= k < i + 1 + ln implies !is_name_end(s[k]) by {
        assert(s[k] == s.subrange(i + 1, i + 1 + ln)[k - (i + 1)]);
        assert(s[k] == nm[k - (i + 1)]);
    }
    assert(s[i + 1] == nm[0]) by {
        assert(s[i + 1] == s.subrange(i + 1, i + 1 + ln)[0]);
    }
    assert(!is_name_end(nm[0]));
    lemma_scan_name_pin(s, i + 1, i + 1 + ln);
}

/// One scan step on an end tag `</name>`.
pub proof fn lemma_end_tag_step(s: Seq<char>, i: int, nm: Seq<char>)
    requires
        0 <= i,
        nm.len() > 0,
        i + 2 + nm.len() < s.len(),
        s[i] == '<',
        s[i + 1] == '/',
        s.subrange(i + 2, i + 2 + nm.len()) == nm,
        forall|j: int| 0 <= j < nm.len() ==> !is_name_end(#[trigger] nm[j]),
        s[i + 2 + nm.len()] == '>',
    ensures
        spec_step(s, i) == (seq![TokV::End { name: nm }], i + 3 + nm.len()),
{
    let ln = nm.len() as int;
    assert forall|k: int| i + 2 <= k < i + 2 + ln implies s[k] != '>' by {
        assert(s[k] == s.subrange(i + 2, i + 2 + ln)[k - (i + 2)]);
        assert(s[k] == nm[k - (i + 2)]);
        assert(!is_name_end(nm[k - (i + 2)]));
    }
    lemma_scan_to_pin(s, i + 2, '>', i + 2 + ln);
    assert(forall|j: int| 0 <= j < nm.len() ==> !is_space(#[trigger] nm[j]));
    lemma_trim_plain(nm);
    assert(s.subrange(i + 2, i + 2 + ln) == nm);
}

/// One scan step on a visible text run that ends at a `<`.
pub proof fn lemma_text_step(s: Seq<char>, i: int, raw: Seq<char>)
    requires
        0 <= i,
        raw.len() > 0,
        i + raw.len() < s.len(),
        s.subrange(i, i + raw.len()) == raw,
        forall|j: int| 0 <= j < raw.len() ==> #[trigger] raw[j] != '<',
        crate::xmltok::has_nonws(raw),
        s[i + raw.len()] == '<',
    ensures
        spec_step(s, i) == (seq![TokV::Text { text: spec_unescape(raw) }], i + raw.len()),
{
    let lr = raw.len() as int;
    assert forall|k: int| i <= k < i + lr implies s[k] != '<' by {
        assert(s[k] == s.subrange(i, i + lr)[k - i]);
        assert(s[k] == raw[k - i]);
    }
    assert(s[i] == raw[0]) by {
        assert(s[i] == s.subrange(i, i + lr)[0]);
    }
    lemma_scan_to_pin(s, i, '<', i + lr);
    assert(s.subrange(i, i + lr) == raw);
}

} // verus!

verus! {

/// Escaping text without markup characters changes nothing.
pub proof fn lemma_escape_text_plain(s: Seq<char>)
    requires
        forall|j: int|
            0 <= j < s.len() ==> #[trigger] s[j] != '&' && s[j] != '<' && s[j] != '>',
    ensures
        spec_escape_text(s) == s,
    decreases s.len(),
{
    if s.len() == 0 {
        assert(spec_escape_text(s) =~= s);
    } else {
        assert(forall|j: int|
            0 <= j < s.skip(1).len() ==> #[trigger] s.skip(1)[j] != '&' && s.skip(1)[j] != '<'
                && s.skip(1)[j] != '>');
        lemma_escape_text_plain(s.skip(1));
        assert(spec_escape_text(s) =~= s);
    }
}

/// An attribute escape holds no quote and no angle bracket.
pub proof fn lemma_escape_attr_clean(s: Seq<char>)
    ensures
        forall|j: int|
            0 <= j < crate::escape::spec_escape_attr(s).len()
                ==> #[trigger] crate::escape::spec_escape_attr(s)[j] != '"'
                && crate::escape::spec_escape_attr(s)[j] != '<',
    decreases s.len(),
{
    let e = crate::escape::spec_escape_attr(s);
    if s.len() > 0 {
        lemma_escape_attr_clean(s.skip(1));
        assert(forall|j: int|
            0 <= j < crate::escape::esc_attr_char(s[0]).len()
                ==> #[trigger] crate::escape::esc_attr_char(s[0])[j] != '"'
                && crate::escape::esc_attr_char(s[0])[j] != '<');
        assert(e == crate::escape::esc_attr_char(s[0]) + crate::escape::spec_escape_attr(
            s.skip(1),
        ));
    }
}

/// All-whitespace text escapes to itself, so it stays without a visible
/// character.
pub proof fn lemma_escape_text_ws(s: Seq<char>)
    requires
        !crate::xmltok::has_nonws(s),
    ensures
        spec_escape_text(s) == s,
{
    assert(forall|j: int|
        0 <= j < s.len() ==> #[trigger] s[j] != '&' && s[j] != '<' && s[j] != '>') by {
        assert(forall|j: int| 0 <= j < s.len() ==> is_space(#[trigger] s[j]));
    }
    lemma_escape_text_plain(s);
}

/// Tokenizing one whole simple element `<name>text</name>` ahead of `rest`:
/// it opens, carries its text when the text is visible, and closes.
#[verifier::rlimit(100)]
#[verifier::spinoff_prover]
pub proof fn lemma_simple_elem_chunk(nm: Seq<char>, content: Seq<char>, rest: Seq<char>)
    requires
        nm.len() > 0,
        forall|j: int| 0 <= j < nm.len() ==> !is_name_end(#[trigger] nm[j]),
        nm[0] != '!',
        nm[0] != '?',
    ensures
        spec_tokens_from(
            (seq!['<'] + nm + seq!['>']) + spec_escape_text(content) + (seq!['<', '/'] + nm
                + seq!['>']) + rest,
            0,
        ) == (if crate::xmltok::has_nonws(content) {
            seq![
                TokV::Start { name: nm, attrs: Seq::empty() },
                TokV::Text { text: content },
                TokV::End { name: nm },
            ]
        } else {
            seq![TokV::Start { name: nm, attrs: Seq::empty() }, TokV::End { name: nm }]
        }) + spec_tokens_from(rest, 0),
{
    let ln = nm.len() as int;
    let open = seq!['<'] + nm + seq!['>'];
    let esc = spec_escape_text(content);
    let close = seq!['<', '/'] + nm + seq!['>'];
    let s = open + esc + close + rest;
    let tail1 = esc + (close + rest);
    assert(s =~= open + tail1);

    // The open tag.
    assert(s.subrange(1, 1 + ln) =~= nm);
    assert(s[0] == '<');
    assert(s[1 + ln] == '>');
    lemma_attrs_close(s, 1 + ln);
    lemma_start_tag_step(s, 0, nm);
    assert(spec_tokens_from(s, 0) == seq![TokV::Start { name: nm, attrs: Seq::empty() }]
        + spec_tokens_from(s, 2 + ln));
    lemma_tokens_from_shift(open, tail1, 0);
    assert(spec_tokens_from(s, 2 + ln) == spec_tokens_from(tail1, 0));

    // The text, when any is visible.
    let tail2 = close + rest;
    if crate::xmltok::has_nonws(content) {
        crate::escape::lemma_unescape_escape_text(content);
        lemma_escape_text_nonws(content);
        lemma_escape_text_no_lt(content);
        assert(tail1.subrange(0, esc.len() as int) =~= esc);
        assert(tail1[esc.len() as int] == '<');
        assert(crate::xmltok::has_nonws(esc));
        lemma_text_step(tail1, 0, esc);
        assert(spec_tokens_from(tail1, 0) == seq![TokV::Text { text: content }]
            + spec_tokens_from(tail1, esc.len() as int));
        lemma_tokens_from_shift(esc, tail2, 0);
        assert(tail1 =~= esc + tail2);
        assert(spec_tokens_from(tail1, esc.len() as int) == spec_tokens_from(tail2, 0));
    } else {
        lemma_escape_text_ws(content);
        if content.len() == 0 {
            assert(tail1 =~= tail2);
        } else {
            assert(forall|j: int| 0 <= j < esc.len() ==> is_space(#[trigger] esc[j]));
            assert(forall|j: int| 0 <= j < esc.len() ==> #[trigger] esc[j] != '<');
            assert(tail1.subrange(0, esc.len() as int) =~= esc);
            assert(tail1[esc.len() as int] == '<');
            assert forall|k: int| 0 <= k < esc.len() implies tail1[k] != '<' by {
                assert(tail1[k] == esc[k]);
            }
            assert(tail1[0] != '<');
            lemma_scan_to_pin(tail1, 0, '<', esc.len() as int);
            assert(!crate::xmltok::has_nonws(esc));
            assert(spec_step(tail1, 0).0 =~= Seq::<TokV>::empty());
            assert(spec_step(tail1, 0).1 == esc.len());
            assert(spec_tokens_from(tail1, 0) == spec_tokens_from(tail1, esc.len() as int));
            lemma_tokens_from_shift(esc, tail2, 0);
            assert(tail1 =~= esc + tail2);
            assert(spec_tokens_from(tail1, esc.len() as int) == spec_tokens_from(tail2, 0));
        }
    }

    // The end tag.
    assert(tail2.subrange(2, 2 + ln) =~= nm);
    assert(tail2[0] == '<');
    assert(tail2[1] == '/');
    assert(tail2[2 + ln] == '>');
    lemma_end_tag_step(tail2, 0, nm);
    assert(spec_tokens_from(tail2, 0) == seq![TokV::End { name: nm }] + spec_tokens_from(
        tail2,
        3 + ln,
    ));
    lemma_tokens_from_shift(close, rest, 0);
    assert(tail2 =~= close + rest);
    assert(spec_tokens_from(tail2, 3 + ln) == spec_tokens_from(rest, 0));

    if crate::xmltok::has_nonws(content) {
        assert(spec_tokens_from(s, 0) =~= seq![
            TokV::Start { name: nm, attrs: Seq::<(Seq<char>, Seq<char>)>::empty() },
            TokV::Text { text: content },
            TokV::End { name: nm },
        ] + spec_tokens_from(rest, 0));
    } else {
        assert(spec_tokens_from(s, 0) =~= seq![
            TokV::Start { name: nm, attrs: Seq::<(Seq<char>, Seq<char>)>::empty() },
            TokV::End { name: nm },
        ] + spec_tokens_from(rest, 0));
    }
}

} // verus!

verus! {

/// The attribute pairs of the tag this lemma consumes.
pub open spec fn root_tag_attrs() -> Seq<(Seq<char>, Seq<char>)> {
    seq![
        ("xmlns"@, "urn:schemas-upnp-org:metadata-1-0/DIDL-Lite/"@),
        ("xmlns:dc"@, "http://purl.org/dc/elements/1.1/"@),
        ("xmlns:upnp"@, "urn:schemas-upnp-org:metadata-1-0/upnp/"@),
        ("xmlns:dlna"@, "urn:schemas-dlna-org:metadata-1-0/"@),
        ("xmlns:xbmc"@, "urn:schemas-xbmc-org:metadata-1-0/"@),
        ("xmlns:sec"@, "http://www.sec.co.kr/"@),
    ]
}

/// Tokenizing the constant tag `<DIDL-Lite x...` ahead of `rest`.
#[verifier::rlimit(100)]
#[verifier::spinoff_prover]
pub proof fn lemma_root_tag_chunk(rest: Seq<char>)
    ensures
        spec_tokens_from("<DIDL-Lite xmlns=\"urn:schemas-upnp-org:metadata-1-0/DIDL-Lite/\" xmlns:dc=\"http://purl.org/dc/elements/1.1/\" xmlns:upnp=\"urn:schemas-upnp-org:metadata-1-0/upnp/\" xmlns:dlna=\"urn:schemas-dlna-org:metadata-1-0/\" xmlns:xbmc=\"urn:schemas-xbmc-org:metadata-1-0/\" xmlns:sec=\"http://www.sec.co.kr/\">"@ + rest, 0) == seq![
            TokV::Start { name: "DIDL-Lite"@, attrs: root_tag_attrs() },
        ] + spec_tokens_from(rest, 0),
{
    reveal_strlit("<DIDL-Lite xmlns=\"urn:schemas-upnp-org:metadata-1-0/DIDL-Lite/\" xmlns:dc=\"http://purl.org/dc/elements/1.1/\" xmlns:upnp=\"urn:schemas-upnp-org:metadata-1-0/upnp/\" xmlns:dlna=\"urn:schemas-dlna-org:metadata-1-0/\" xmlns:xbmc=\"urn:schemas-xbmc-org:metadata-1-0/\" xmlns:sec=\"http://www.sec.co.kr/\">");
    reveal_strlit("DIDL-Lite");
    reveal_strlit("xmlns");
    reveal_strlit("urn:schemas-upnp-org:metadata-1-0/DIDL-Lite/");
    reveal_strlit("xmlns:dc");
    reveal_strlit("http://purl.org/dc/elements/1.1/");
    reveal_strlit("xmlns:upnp");
    reveal_strlit("urn:schemas-upnp-org:metadata-1-0/upnp/");
    reveal_strlit("xmlns:dlna");
    reveal_strlit("urn:schemas-dlna-org:metadata-1-0/");
    reveal_strlit("xmlns:xbmc");
    reveal_strlit("urn:schemas-xbmc-org:metadata-1-0/");
    reveal_strlit("xmlns:sec");
    reveal_strlit("http://www.sec.co.kr/");
    let g = "<DIDL-Lite xmlns=\"urn:schemas-upnp-org:metadata-1-0/DIDL-Lite/\" xmlns:dc=\"http://purl.org/dc/elements/1.1/\" xmlns:upnp=\"urn:schemas-upnp-org:metadata-1-0/upnp/\" xmlns:dlna=\"urn:schemas-dlna-org:metadata-1-0/\" xmlns:xbmc=\"urn:schemas-xbmc-org:metadata-1-0/\" xmlns:sec=\"http://www.sec.co.kr/\">"@;
    let s = g + rest;
    assert(g.len() == 291);
    assert(forall|k: int| 0 <= k < g.len() ==> s[k] == g[k]);
    assert(s.subrange(11, 16) =~= "xmlns"@);
    assert(forall|j: int| 0 <= j < 5 ==> !is_name_end(#[trigger] "xmlns"@[j]));
    assert(s.subrange(18, 62) =~= "urn:schemas-upnp-org:metadata-1-0/DIDL-Lite/"@);
    assert(forall|j: int| 0 <= j < 44 ==> #[trigger] "urn:schemas-upnp-org:metadata-1-0/DIDL-Lite/"@[j] != '"');
    lemma_attr_one(s, 10, "xmlns"@, "urn:schemas-upnp-org:metadata-1-0/DIDL-Lite/"@);
    assert(forall|j: int| 0 <= j < 44 ==> #[trigger] "urn:schemas-upnp-org:metadata-1-0/DIDL-Lite/"@[j] != '&');
    lemma_unescape_plain("urn:schemas-upnp-org:metadata-1-0/DIDL-Lite/"@);
    assert(s.subrange(64, 72) =~= "xmlns:dc"@);
    assert(forall|j: int| 0 <= j < 8 ==> !is_name_end(#[trigger] "xmlns:dc"@[j]));
    assert(s.subrange(74, 106) =~= "http://purl.org/dc/elements/1.1/"@);
    assert(forall|j: int| 0 <= j < 32 ==> #[trigger] "http://purl.org/dc/elements/1.1/"@[j] != '"');
    lemma_attr_one(s, 63, "xmlns:dc"@, "http://purl.org/dc/elements/1.1/"@);
    assert(forall|j: int| 0 <= j < 32 ==> #[trigger] "http://purl.org/dc/elements/1.1/"@[j] != '&');
    lemma_unescape_plain("http://purl.org/dc/elements/1.1/"@);
    assert(s.subrange(108, 118) =~= "xmlns:upnp"@);
    assert(forall|j: int| 0 <= j < 10 ==> !is_name_end(#[trigger] "xmlns:upnp"@[j]));
    assert(s.subrange(120, 159) =~= "urn:schemas-upnp-org:metadata-1-0/upnp/"@);
    assert(forall|j: int| 0 <= j < 39 ==> #[trigger] "urn:schemas-upnp-org:metadata-1-0/upnp/"@[j] != '"');
    lemma_attr_one(s, 107, "xmlns:upnp"@, "urn:schemas-upnp-org:metadata-1-0/upnp/"@);
    assert(forall|j: int| 0 <= j < 39 ==> #[trigger] "urn:schemas-upnp-org:metadata-1-0/upnp/"@[j] != '&');
    lemma_unescape_plain("urn:schemas-upnp-org:metadata-1-0/upnp/"@);
    assert(s.subrange(161, 171) =~= "xmlns:dlna"@);
    assert(forall|j: int| 0 <= j < 10 ==> !is_name_end(#[trigger] "xmlns:dlna"@[j]));
    assert(s.subrange(173, 207) =~= "urn:schemas-dlna-org:metadata-1-0/"@);
    assert(forall|j: int| 0 <= j < 34 ==> #[trigger] "urn:schemas-dlna-org:metadata-1-0/"@[j] != '"');
    lemma_attr_one(s, 160, "xmlns:dlna"@, "urn:schemas-dlna-org:metadata-1-0/"@);
    assert(forall|j: int| 0 <= j < 34 ==> #[trigger] "urn:schemas-dlna-org:metadata-1-0/"@[j] != '&');
    lemma_unescape_plain("urn:schemas-dlna-org:metadata-1-0/"@);
    assert(s.subrange(209, 219) =~= "xmlns:xbmc"@);
    assert(forall|j: int| 0 <= j < 10 ==> !is_name_end(#[trigger] "xmlns:xbmc"@[j]));
    assert(s.subrange(221, 255) =~= "urn:schemas-xbmc-org:metadata-1-0/"@);
    assert(forall|j: int| 0 <= j < 34 ==> #[trigger] "urn:schemas-xbmc-org:metadata-1-0/"@[j] != '"');
    lemma_attr_one(s, 208, "xmlns:xbmc"@, "urn:schemas-xbmc-org:metadata-1-0/"@);
    assert(forall|j: int| 0 <= j < 34 ==> #[trigger] "urn:schemas-xbmc-org:metadata-1-0/"@[j] != '&');
    lemma_unescape_plain("urn:schemas-xbmc-org:metadata-1-0/"@);
    assert(s.subrange(257, 266) =~= "xmlns:sec"@);
    assert(forall|j: int| 0 <= j < 9 ==> !is_name_end(#[trigger] "xmlns:sec"@[j]));
    assert(s.subrange(268, 289) =~= "http://www.sec.co.kr/"@);
    assert(forall|j: int| 0 <= j < 21 ==> #[trigger] "http://www.sec.co.kr/"@[j] != '"');
    lemma_attr_one(s, 256, "xmlns:sec"@, "http://www.sec.co.kr/"@);
    assert(forall|j: int| 0 <= j < 21 ==> #[trigger] "http://www.sec.co.kr/"@[j] != '&');
    lemma_unescape_plain("http://www.sec.co.kr/"@);
    lemma_attrs_close(s, 290);
    assert(spec_attrs(s, 10).0 =~= root_tag_attrs());
    assert(spec_attrs(s, 10).1 == 291);
    assert(spec_attrs(s, 10).2 == 0);
    assert(s.subrange(1, 10) =~= "DIDL-Lite"@);
    assert(forall|j: int| 0 <= j < 9 ==> !is_name_end(#[trigger] "DIDL-Lite"@[j]));
    lemma_start_tag_step(s, 0, "DIDL-Lite"@);
    assert(spec_tokens_from(s, 0) == seq![
        TokV::Start { name: "DIDL-Lite"@, attrs: root_tag_attrs() },
    ] + spec_tokens_from(s, 291));
    lemma_tokens_from_shift(g, rest, 0);
    assert(spec_tokens_from(s, 291) == spec_tokens_from(rest, 0));
}

/// The attribute pairs of the tag this lemma consumes.
pub open spec fn item_tag_attrs() -> Seq<(Seq<char>, Seq<char>)> {
    seq![
        ("id"@, "0"@),
        ("parentID"@, "-1"@),
        ("restricted"@, "false"@),
    ]
}

/// Tokenizing the constant tag `<item id=\"0\"...` ahead of `rest`.
#[verifier::rlimit(100)]
#[verifier::spinoff_prover]
pub proof fn lemma_item_tag_chunk(rest: Seq<char>)
    ensures
        spec_tokens_from("<item id=\"0\" parentID=\"-1\" restricted=\"false\">"@ + rest, 0) == seq![
            TokV::Start { name: "item"@, attrs: item_tag_attrs() },
        ] + spec_tokens_from(rest, 0),
{
    reveal_strlit("<item id=\"0\" parentID=\"-1\" restricted=\"false\">");
    reveal_strlit("item");
    reveal_strlit("id");
    reveal_strlit("0");
    reveal_strlit("parentID");
    reveal_strlit("-1");
    reveal_strlit("restricted");
    reveal_strlit("false");
    let g = "<item id=\"0\" parentID=\"-1\" restricted=\"false\">"@;
    let s = g + rest;
    assert(g.len() == 46);
    assert(forall|k: int| 0 <= k < g.len() ==> s[k] == g[k]);
    assert(s.subrange(6, 8) =~= "id"@);
    assert(forall|j: int| 0 <= j < 2 ==> !is_name_end(#[trigger] "id"@[j]));
    assert(s.subrange(10, 11) =~= "0"@);
    assert(forall|j: int| 0 <= j < 1 ==> #[trigger] "0"@[j] != '"');
    lemma_attr_one(s, 5, "id"@, "0"@);
    assert(forall|j: int| 0 <= j < 1 ==> #[trigger] "0"@[j] != '&');
    lemma_unescape_plain("0"@);
    assert(s.subrange(13, 21) =~= "parentID"@);
    assert(forall|j: int| 0 <= j < 8 ==> !is_name_end(#[trigger] "parentID"@[j]));
    assert(s.subrange(23, 25) =~= "-1"@);
    assert(forall|j: int| 0 <= j < 2 ==> #[trigger] "-1"@[j] != '"');
    lemma_attr_one(s, 12, "parentID"@, "-1"@);
    assert(forall|j: int| 0 <= j < 2 ==> #[trigger] "-1"@[j] != '&');
    lemma_unescape_plain("-1"@);
    assert(s.subrange(27, 37) =~= "restricted"@);
    assert(forall|j: int| 0 <= j < 10 ==> !is_name_end(#[trigger] "restricted"@[j]));
    assert(s.subrange(39, 44) =~= "false"@);
    assert(forall|j: int| 0 <= j < 5 ==> #[trigger] "false"@[j] != '"');
    lemma_attr_one(s, 26, "restricted"@, "false"@);
    assert(forall|j: int| 0 <= j < 5 ==> #[trigger] "false"@[j] != '&');
    lemma_unescape_plain("false"@);
    lemma_attrs_close(s, 45);
    assert(spec_attrs(s, 5).0 =~= item_tag_attrs());
    assert(spec_attrs(s, 5).1 == 46);
    assert(spec_attrs(s, 5).2 == 0);
    assert(s.subrange(1, 5) =~= "item"@);
    assert(forall|j: int| 0 <= j < 4 ==> !is_name_end(#[trigger] "item"@[j]));
    lemma_start_tag_step(s, 0, "item"@);
    assert(spec_tokens_from(s, 0) == seq![
        TokV::Start { name: "item"@, attrs: item_tag_attrs() },
    ] + spec_tokens_from(s, 46));
    lemma_tokens_from_shift(g, rest, 0);
    assert(spec_tokens_from(s, 46) == spec_tokens_from(rest, 0));
}

/// The attribute pairs of the tag this lemma consumes.
pub open spec fn art_tag_attrs() -> Seq<(Seq<char>, Seq<char>)> {
    seq![
        ("dlna:profileID"@, "JPEG_TN"@),
        ("xmlns:dlna"@, "urn:schemas-dlna-org:metadata-1-0/"@),
    ]
}

/// Tokenizing the constant tag `<upnp:albumA...` ahead of `rest`.
#[verifier::rlimit(100)]
#[verifier::spinoff_prover]
pub proof fn lemma_art_tag_chunk(rest: Seq<char>)
    ensures
        spec_tokens_from("<upnp:albumArtURI dlna:profileID=\"JPEG_TN\" xmlns:dlna=\"urn:schemas-dlna-org:metadata-1-0/\">"@ + rest, 0) == seq![
            TokV::Start { name: "upnp:albumArtURI"@, attrs: art_tag_attrs() },
        ] + spec_tokens_from(rest, 0),
{
    reveal_strlit("<upnp:albumArtURI dlna:profileID=\"JPEG_TN\" xmlns:dlna=\"urn:schemas-dlna-org:metadata-1-0/\">");
    reveal_strlit("upnp:albumArtURI");
    reveal_strlit("dlna:profileID");
    reveal_strlit("JPEG_TN");
    reveal_strlit("xmlns:dlna");
    reveal_strlit("urn:schemas-dlna-org:metadata-1-0/");
    let g = "<upnp:albumArtURI dlna:profileID=\"JPEG_TN\" xmlns:dlna=\"urn:schemas-dlna-org:metadata-1-0/\">"@;
    let s = g + rest;
    assert(g.len() == 91);
    assert(forall|k: int| 0 <= k < g.len() ==> s[k] == g[k]);
    assert(s.subrange(18, 32) =~= "dlna:profileID"@);
    assert(forall|j: int| 0 <= j < 14 ==> !is_name_end(#[trigger] "dlna:profileID"@[j]));
    assert(s.subrange(34, 41) =~= "JPEG_TN"@);
    assert(forall|j: int| 0 <= j < 7 ==> #[trigger] "JPEG_TN"@[j] != '"');
    lemma_attr_one(s, 17, "dlna:profileID"@, "JPEG_TN"@);
    assert(forall|j: int| 0 <= j < 7 ==> #[trigger] "JPEG_TN"@[j] != '&');
    lemma_unescape_plain("JPEG_TN"@);
    assert(s.subrange(43, 53) =~= "xmlns:dlna"@);
    assert(forall|j: int| 0 <= j < 10 ==> !is_name_end(#[trigger] "xmlns:dlna"@[j]));
    assert(s.subrange(55, 89) =~= "urn:schemas-dlna-org:metadata-1-0/"@);
    assert(forall|j: int| 0 <= j < 34 ==> #[trigger] "urn:schemas-dlna-org:metadata-1-0/"@[j] != '"');
    lemma_attr_one(s, 42, "xmlns:dlna"@, "urn:schemas-dlna-org:metadata-1-0/"@);
    assert(forall|j: int| 0 <= j < 34 ==> #[trigger] "urn:schemas-dlna-org:metadata-1-0/"@[j] != '&');
    lemma_unescape_plain("urn:schemas-dlna-org:metadata-1-0/"@);
    lemma_attrs_close(s, 90);
    assert(spec_attrs(s, 17).0 =~= art_tag_attrs());
    assert(spec_attrs(s, 17).1 == 91);
    assert(spec_attrs(s, 17).2 == 0);
    assert(s.subrange(1, 17) =~= "upnp:albumArtURI"@);
    assert(forall|j: int| 0 <= j < 16 ==> !is_name_end(#[trigger] "upnp:albumArtURI"@[j]));
    lemma_start_tag_step(s, 0, "upnp:albumArtURI"@);
    assert(spec_tokens_from(s, 0) == seq![
        TokV::Start { name: "upnp:albumArtURI"@, attrs: art_tag_attrs() },
    ] + spec_tokens_from(s, 91));
    lemma_tokens_from_shift(g, rest, 0);
    assert(spec_tokens_from(s, 91) == spec_tokens_from(rest, 0));
}

} // verus!

verus! {

/// Tokenizing the `res` element ahead of `rest`: its protocol attribute
/// comes back unescaped, and its URL text when visible.
#[verifier::rlimit(100)]
#[verifier::spinoff_prover]
pub proof fn lemma_res_chunk(proto: Seq<char>, url: Seq<char>, rest: Seq<char>)
    requires
        rest.len() > 0,
        rest[0] == '<',
    ensures
        spec_tokens_from(
            "<res protocolInfo=\""@ + crate::escape::spec_escape_attr(proto) + "\">"@
                + spec_escape_text(url) + rest,
            0,
        ) == seq![
            TokV::Start { name: "res"@, attrs: seq![("protocolInfo"@, proto)] },
        ] + (if crate::xmltok::has_nonws(url) {
            seq![TokV::Text { text: url }]
        } else {
            Seq::<TokV>::empty()
        }) + spec_tokens_from(rest, 0),
{
    reveal_strlit("<res protocolInfo=\"");
    reveal_strlit("\">");
    reveal_strlit("res");
    reveal_strlit("protocolInfo");
    let lit1 = "<res protocolInfo=\""@;
    let ea = crate::escape::spec_escape_attr(proto);
    let lit2 = "\">"@;
    let et = spec_escape_text(url);
    let va = ea.len() as int;
    let open = lit1 + ea + lit2;
    let s = "<res protocolInfo=\""@ + crate::escape::spec_escape_attr(proto) + "\">"@
        + spec_escape_text(url) + rest;
    assert(lit1.len() == 19);
    assert(lit2.len() == 2);
    assert(forall|k: int| 0 <= k < 19 ==> s[k] == lit1[k]);
    assert forall|j: int| 0 <= j < va implies s[19 + j] == ea[j] by {
        assert((lit1 + ea)[19 + j] == ea[j]);
    }
    assert(s[19 + va] == '"') by {
        assert((lit1 + ea + lit2)[19 + va] == lit2[0]);
    }
    assert(s[20 + va] == '>') by {
        assert((lit1 + ea + lit2)[20 + va] == lit2[1]);
    }
    assert(s.subrange(5, 17) =~= "protocolInfo"@);
    assert(forall|j: int| 0 <= j < 12 ==> !is_name_end(#[trigger] "protocolInfo"@[j]));
    assert(s.subrange(19, 19 + va) =~= ea);
    lemma_escape_attr_clean(proto);
    lemma_attr_one(s, 4, "protocolInfo"@, ea);
    crate::escape::lemma_unescape_escape_attr(proto);
    lemma_attrs_close(s, 20 + va);
    assert(spec_attrs(s, 4).0 =~= seq![("protocolInfo"@, proto)]);
    assert(spec_attrs(s, 4).1 == 21 + va);
    assert(spec_attrs(s, 4).2 == 0);
    assert(s.subrange(1, 4) =~= "res"@);
    assert(forall|j: int| 0 <= j < 3 ==> !is_name_end(#[trigger] "res"@[j]));
    assert(is_name_end(s[4]));
    lemma_start_tag_step(s, 0, "res"@);
    assert(open.len() == 21 + va);
    assert(spec_tokens_from(s, 0) == seq![
        TokV::Start { name: "res"@, attrs: seq![("protocolInfo"@, proto)] },
    ] + spec_tokens_from(s, 21 + va));

    let tail1 = et + rest;
    assert(s =~= open + tail1);
    lemma_tokens_from_shift(open, tail1, 0);
    assert(spec_tokens_from(s, 21 + va) == spec_tokens_from(tail1, 0));

    if crate::xmltok::has_nonws(url) {
        crate::escape::lemma_unescape_escape_text(url);
        lemma_escape_text_nonws(url);
        lemma_escape_text_no_lt(url);
        assert(tail1.subrange(0, et.len() as int) =~= et);
        assert(tail1[et.len() as int] == '<');
        lemma_text_step(tail1, 0, et);
        assert(spec_tokens_from(tail1, 0) == seq![TokV::Text { text: url }] + spec_tokens_from(
            tail1,
            et.len() as int,
        ));
        lemma_tokens_from_shift(et, rest, 0);
        assert(tail1 =~= et + rest);
        assert(spec_tokens_from(tail1, et.len() as int) == spec_tokens_from(rest, 0));
        assert(spec_tokens_from(s, 0) =~= seq![
            TokV::Start { name: "res"@, attrs: seq![("protocolInfo"@, proto)] },
        ] + seq![TokV::Text { text: url }] + spec_tokens_from(rest, 0));
    } else {
        lemma_escape_text_ws(url);
        if url.len() == 0 {
            assert(tail1 =~= rest);
        } else {
            assert(forall|j: int| 0 <= j < et.len() ==> is_space(#[trigger] et[j]));
            assert(tail1.subrange(0, et.len() as int) =~= et);
            assert(tail1[et.len() as int] == '<');
            assert forall|k: int| 0 <= k < et.len() implies tail1[k] != '<' by {
                assert(tail1[k] == et[k]);
                assert(is_space(et[k]));
            }
            assert(tail1[0] != '<');
            lemma_scan_to_pin(tail1, 0, '<', et.len() as int);
            assert(!crate::xmltok::has_nonws(et));
            assert(spec_step(tail1, 0).0 =~= Seq::<TokV>::empty());
            assert(spec_step(tail1, 0).1 == et.len());
            assert(spec_tokens_from(tail1, 0) == spec_tokens_from(tail1, et.len() as int));
            lemma_tokens_from_shift(et, rest, 0);
            assert(tail1 =~= et + rest);
            assert(spec_tokens_from(tail1, et.len() as int) == spec_tokens_from(rest, 0));
        }
        assert(spec_tokens_from(s, 0) =~= seq![
            TokV::Start { name: "res"@, attrs: seq![("protocolInfo"@, proto)] },
        ] + spec_tokens_from(rest, 0));
    }
}

/// Tokenizing the closing run of a fragment: the three end tags and
/// nothing more.
#[verifier::rlimit(100)]
#[verifier::spinoff_prover]
pub proof fn lemma_tail_chunk()
    ensures
        spec_tokens_from("</res></item></DIDL-Lite>"@, 0) == seq![
            TokV::End { name: "res"@ },
            TokV::End { name: "item"@ },
            TokV::End { name: "DIDL-Lite"@ },
        ],
{
    reveal_strlit("</res></item></DIDL-Lite>");
    reveal_strlit("res");
    reveal_strlit("item");
    reveal_strlit("DIDL-Lite");
    let s = "</res></item></DIDL-Lite>"@;
    assert(s.len() == 25);
    assert(s.subrange(2, 5) =~= "res"@);
    assert(forall|j: int| 0 <= j < 3 ==> !is_name_end(#[trigger] "res"@[j]));
    lemma_end_tag_step(s, 0, "res"@);
    assert(s.subrange(8, 12) =~= "item"@);
    assert(forall|j: int| 0 <= j < 4 ==> !is_name_end(#[trigger] "item"@[j]));
    lemma_end_tag_step(s, 6, "item"@);
    assert(s.subrange(15, 24) =~= "DIDL-Lite"@);
    assert(forall|j: int| 0 <= j < 9 ==> !is_name_end(#[trigger] "DIDL-Lite"@[j]));
    lemma_end_tag_step(s, 13, "DIDL-Lite"@);
    assert(spec_tokens_from(s, 25) =~= Seq::<TokV>::empty());
    assert(spec_tokens_from(s, 13) == seq![TokV::End { name: "DIDL-Lite"@ }] + spec_tokens_from(
        s,
        25,
    ));
    assert(spec_tokens_from(s, 6) == seq![TokV::End { name: "item"@ }] + spec_tokens_from(s, 13));
    assert(spec_tokens_from(s, 0) == seq![TokV::End { name: "res"@ }] + spec_tokens_from(s, 6));
    assert(spec_tokens_from(s, 0) =~= seq![
        TokV::End { name: "res"@ },
        TokV::End { name: "item"@ },
        TokV::End { name: "DIDL-Lite"@ },
    ]);
}

} // verus!

verus! {

/// Tokenizing a text run followed by its end tag, ahead of `rest`.
#[verifier::rlimit(100)]
#[verifier::spinoff_prover]
pub proof fn lemma_text_and_end(nm: Seq<char>, content: Seq<char>, rest: Seq<char>)
    requires
        nm.len() > 0,
        forall|j: int| 0 <= j < nm.len() ==> !is_name_end(#[trigger] nm[j]),
    ensures
        spec_tokens_from(
            spec_escape_text(content) + (seq!['<', '/'] + nm + seq!['>']) + rest,
            0,
        ) == (if crate::xmltok::has_nonws(content) {
            seq![TokV::Text { text: content }, TokV::End { name: nm }]
        } else {
            seq![TokV::End { name: nm }]
        }) + spec_tokens_from(rest, 0),
{
    let ln = nm.len() as int;
    let esc = spec_escape_text(content);
    let close = seq!['<', '/'] + nm + seq!['>'];
    let tail1 = esc + close + rest;
    let tail2 = close + rest;

    if crate::xmltok::has_nonws(content) {
        crate::escape::lemma_unescape_escape_text(content);
        lemma_escape_text_nonws(content);
        lemma_escape_text_no_lt(content);
        assert(tail1.subrange(0, esc.len() as int) =~= esc);
        assert(tail1[esc.len() as int] == '<');
        assert(crate::xmltok::has_nonws(esc));
        lemma_text_step(tail1, 0, esc);
        assert(spec_tokens_from(tail1, 0) == seq![TokV::Text { text: content }]
            + spec_tokens_from(tail1, esc.len() as int));
        lemma_tokens_from_shift(esc, tail2, 0);
        assert(tail1 =~= esc + tail2);
        assert(spec_tokens_from(tail1, esc.len() as int) == spec_tokens_from(tail2, 0));
    } else {
        lemma_escape_text_ws(content);
        if content.len() == 0 {
            assert(tail1 =~= tail2);
        } else {
            assert(forall|j: int| 0 <= j < esc.len() ==> is_space(#[trigger] esc[j]));
            assert(tail1.subrange(0, esc.len() as int) =~= esc);
            assert(tail1[esc.len() as int] == '<');
            assert forall|k: int| 0 <= k < esc.len() implies tail1[k] != '<' by {
                assert(tail1[k] == esc[k]);
                assert(is_space(esc[k]));
            }
            assert(tail1[0] != '<');
            lemma_scan_to_pin(tail1, 0, '<', esc.len() as int);
            assert(!crate::xmltok::has_nonws(esc));
            assert(spec_step(tail1, 0).0 =~= Seq::<TokV>::empty());
            assert(spec_step(tail1, 0).1 == esc.len());
            assert(spec_tokens_from(tail1, 0) == spec_tokens_from(tail1, esc.len() as int));
            lemma_tokens_from_shift(esc, tail2, 0);
            assert(tail1 =~= esc + tail2);
            assert(spec_tokens_from(tail1, esc.len() as int) == spec_tokens_from(tail2, 0));
        }
    }

    assert(tail2.subrange(2, 2 + ln) =~= nm);
    assert(tail2[0] == '<');
    assert(tail2[1] == '/');
    assert(tail2[2 + ln] == '>');
    lemma_end_tag_step(tail2, 0, nm);
    assert(spec_tokens_from(tail2, 0) == seq![TokV::End { name: nm }] + spec_tokens_from(
        tail2,
        3 + ln,
    ));
    lemma_tokens_from_shift(close, rest, 0);
    assert(tail2 =~= close + rest);
    assert(spec_tokens_from(tail2, 3 + ln) == spec_tokens_from(rest, 0));

    if crate::xmltok::has_nonws(content) {
        assert(spec_tokens_from(tail1, 0) =~= seq![
            TokV::Text { text: content },
            TokV::End { name: nm },
        ] + spec_tokens_from(rest, 0));
    } else {
        assert(spec_tokens_from(tail1, 0) =~= seq![TokV::End { name: nm }] + spec_tokens_from(
            rest,
            0,
        ));
    }
}

} // verus!

verus! {

/// The token stream of a fully-described item's fragment.
pub open spec fn didl_all_tokens(m: crate::didl::MetaV, class: crate::types::ObjectClass) -> Seq<
    TokV,
> {
    seq![
        TokV::Start { name: "DIDL-Lite"@, attrs: root_tag_attrs() },
        TokV::Start { name: "item"@, attrs: item_tag_attrs() },
        TokV::Start { name: "dc:title"@, attrs: Seq::empty() },
        TokV::Text { text: m.title },
        TokV::End { name: "dc:title"@ },
        TokV::Start { name: "upnp:class"@, attrs: Seq::empty() },
        TokV::Text { text: crate::types::object_class_str(class) },
        TokV::End { name: "upnp:class"@ },
        TokV::Start { name: "upnp:artist"@, attrs: Seq::empty() },
        TokV::Text { text: m.artist->0 },
        TokV::End { name: "upnp:artist"@ },
        TokV::Start { name: "upnp:album"@, attrs: Seq::empty() },
        TokV::Text { text: m.album->0 },
        TokV::End { name: "upnp:album"@ },
        TokV::Start { name: "upnp:albumArtURI"@, attrs: art_tag_attrs() },
        TokV::Text { text: m.album_art->0 },
        TokV::End { name: "upnp:albumArtURI"@ },
        TokV::Start { name: "upnp:genre"@, attrs: Seq::empty() },
        TokV::Text { text: m.genre->0 },
        TokV::End { name: "upnp:genre"@ },
        TokV::Start { name: "res"@, attrs: seq![("protocolInfo"@, m.protocol_info)] },
    ] + (if crate::xmltok::has_nonws(m.url) {
        seq![TokV::Text { text: m.url }]
    } else {
        Seq::<TokV>::empty()
    }) + seq![
        TokV::End { name: "res"@ },
        TokV::End { name: "item"@ },
        TokV::End { name: "DIDL-Lite"@ },
    ]
}

/// The fragment of a fully-described item scans to exactly its tokens.
#[verifier::rlimit(100)]
#[verifier::spinoff_prover]
pub proof fn lemma_didl_all_tokens(m: crate::didl::MetaV, class: crate::types::ObjectClass)
    requires
        crate::xmltok::has_nonws(m.title),
        m.artist is Some,
        crate::xmltok::has_nonws(m.artist->0),
        m.album is Some,
        crate::xmltok::has_nonws(m.album->0),
        m.album_art is Some,
        crate::xmltok::has_nonws(m.album_art->0),
        m.genre is Some,
        crate::xmltok::has_nonws(m.genre->0),
    ensures
        spec_tokens(crate::didl::didl_text(m, class)) == didl_all_tokens(m, class),
{
    reveal_strlit("dc:title");
    reveal_strlit("upnp:class");
    reveal_strlit("upnp:artist");
    reveal_strlit("upnp:album");
    reveal_strlit("upnp:albumArtURI");
    reveal_strlit("upnp:genre");
    reveal_strlit("<dc:title>");
    reveal_strlit("</dc:title><upnp:class>");
    reveal_strlit("</upnp:class>");
    reveal_strlit("<upnp:artist>");
    reveal_strlit("</upnp:artist>");
    reveal_strlit("<upnp:album>");
    reveal_strlit("</upnp:album>");
    reveal_strlit("</upnp:albumArtURI>");
    reveal_strlit("<upnp:genre>");
    reveal_strlit("</upnp:genre>");
    reveal_strlit("</res></item></DIDL-Lite>");
    reveal_strlit(
        "<DIDL-Lite xmlns=\"urn:schemas-upnp-org:metadata-1-0/DIDL-Lite/\" xmlns:dc=\"http://purl.org/dc/elements/1.1/\" xmlns:upnp=\"urn:schemas-upnp-org:metadata-1-0/upnp/\" xmlns:dlna=\"urn:schemas-dlna-org:metadata-1-0/\" xmlns:xbmc=\"urn:schemas-xbmc-org:metadata-1-0/\" xmlns:sec=\"http://www.sec.co.kr/\"><item id=\"0\" parentID=\"-1\" restricted=\"false\"><dc:title>",
    );
    reveal_strlit(
        "<DIDL-Lite xmlns=\"urn:schemas-upnp-org:metadata-1-0/DIDL-Lite/\" xmlns:dc=\"http://purl.org/dc/elements/1.1/\" xmlns:upnp=\"urn:schemas-upnp-org:metadata-1-0/upnp/\" xmlns:dlna=\"urn:schemas-dlna-org:metadata-1-0/\" xmlns:xbmc=\"urn:schemas-xbmc-org:metadata-1-0/\" xmlns:sec=\"http://www.sec.co.kr/\">",
    );
    reveal_strlit("<item id=\"0\" parentID=\"-1\" restricted=\"false\">");
    reveal_strlit(
        "<upnp:albumArtURI dlna:profileID=\"JPEG_TN\" xmlns:dlna=\"urn:schemas-dlna-org:metadata-1-0/\">",
    );

    let title = m.title;
    let cls = crate::types::object_class_str(class);
    let artist = m.artist->0;
    let album = m.album->0;
    let art = m.album_art->0;
    let genre = m.genre->0;
    let proto = m.protocol_info;
    let url = m.url;

    let root =
        "<DIDL-Lite xmlns=\"urn:schemas-upnp-org:metadata-1-0/DIDL-Lite/\" xmlns:dc=\"http://purl.org/dc/elements/1.1/\" xmlns:upnp=\"urn:schemas-upnp-org:metadata-1-0/upnp/\" xmlns:dlna=\"urn:schemas-dlna-org:metadata-1-0/\" xmlns:xbmc=\"urn:schemas-xbmc-org:metadata-1-0/\" xmlns:sec=\"http://www.sec.co.kr/\">"@;
    let item = "<item id=\"0\" parentID=\"-1\" restricted=\"false\">"@;
    let artopen =
        "<upnp:albumArtURI dlna:profileID=\"JPEG_TN\" xmlns:dlna=\"urn:schemas-dlna-org:metadata-1-0/\">"@;

    let r9 = "</res></item></DIDL-Lite>"@;
    let r8 = "<res protocolInfo=\""@ + crate::escape::spec_escape_attr(proto) + "\">"@
        + spec_escape_text(url) + r9;
    let r7 = (seq!['<'] + "upnp:genre"@ + seq!['>']) + spec_escape_text(genre) + (seq!['<', '/']
        + "upnp:genre"@ + seq!['>']) + r8;
    let r6tail = spec_escape_text(art) + (seq!['<', '/'] + "upnp:albumArtURI"@ + seq!['>']) + r7;
    let r6 = artopen + r6tail;
    let r5 = (seq!['<'] + "upnp:album"@ + seq!['>']) + spec_escape_text(album) + (seq!['<', '/']
        + "upnp:album"@ + seq!['>']) + r6;
    let r4 = (seq!['<'] + "upnp:artist"@ + seq!['>']) + spec_escape_text(artist) + (seq!['<', '/']
        + "upnp:artist"@ + seq!['>']) + r5;
    let r3 = (seq!['<'] + "upnp:class"@ + seq!['>']) + spec_escape_text(cls) + (seq!['<', '/']
        + "upnp:class"@ + seq!['>']) + r4;
    let r2 = (seq!['<'] + "dc:title"@ + seq!['>']) + spec_escape_text(title) + (seq!['<', '/']
        + "dc:title"@ + seq!['>']) + r3;
    let r1 = item + r2;
    let r0 = root + r1;

    // The class text has no markup characters, so it escapes to itself and
    // stays visible.
    assert(forall|j: int|
        0 <= j < cls.len() ==> #[trigger] cls[j] != '&' && cls[j] != '<' && cls[j] != '>') by {
        reveal_strlit("object.item.audioItem.musicTrack");
        reveal_strlit("object.item.videoItem.movie");
        reveal_strlit("object.item.imageItem.photo");
        reveal_strlit("object.container");
    }
    lemma_escape_text_plain(cls);
    assert(crate::xmltok::has_nonws(cls)) by {
        reveal_strlit("object.item.audioItem.musicTrack");
        reveal_strlit("object.item.videoItem.movie");
        reveal_strlit("object.item.imageItem.photo");
        reveal_strlit("object.container");
        assert(cls.len() > 0);
        assert(!is_space(cls[0]));
    }

    // The fragment reassociated into its chunks.
    assert(crate::didl::didl_text(m, class) =~= r0);

    // Name facts of the five simple element names.
    assert(forall|j: int| 0 <= j < 8 ==> !is_name_end(#[trigger] "dc:title"@[j]));
    assert(forall|j: int| 0 <= j < 10 ==> !is_name_end(#[trigger] "upnp:class"@[j]));
    assert(forall|j: int| 0 <= j < 11 ==> !is_name_end(#[trigger] "upnp:artist"@[j]));
    assert(forall|j: int| 0 <= j < 10 ==> !is_name_end(#[trigger] "upnp:album"@[j]));
    assert(forall|j: int| 0 <= j < 16 ==> !is_name_end(#[trigger] "upnp:albumArtURI"@[j]));
    assert(forall|j: int| 0 <= j < 10 ==> !is_name_end(#[trigger] "upnp:genre"@[j]));

    // Consuming the chunks, last first.
    lemma_tail_chunk();
    assert(r9[0] == '<');
    lemma_res_chunk(proto, url, r9);
    lemma_simple_elem_chunk("upnp:genre"@, genre, r8);
    lemma_text_and_end("upnp:albumArtURI"@, art, r7);
    lemma_art_tag_chunk(r6tail);
    assert(spec_tokens_from(r6, 0) == seq![
        TokV::Start { name: "upnp:albumArtURI"@, attrs: art_tag_attrs() },
    ] + spec_tokens_from(r6tail, 0));
    lemma_simple_elem_chunk("upnp:album"@, album, r6);
    lemma_simple_elem_chunk("upnp:artist"@, artist, r5);
    lemma_simple_elem_chunk("upnp:class"@, cls, r4);
    lemma_simple_elem_chunk("dc:title"@, title, r3);
    lemma_item_tag_chunk(r2);
    lemma_root_tag_chunk(r1);

    assert(spec_tokens(crate::didl::didl_text(m, class)) =~= didl_all_tokens(m, class));
}

} // verus!

verus! {

/// Ground facts of the element and attribute names the decoder meets:
/// their local parts and the distinctions among them.
proof fn lemma_decode_name_facts()
    ensures
        local_of("DIDL-Lite"@) == "DIDL-Lite"@,
        local_of("item"@) == "item"@,
        local_of("res"@) == "res"@,
        local_of("id"@) == "id"@,
        local_of("parentID"@) == "parentID"@,
        local_of("restricted"@) == "restricted"@,
        local_of("dc:title"@) == "title"@,
        local_of("upnp:class"@) == "class"@,
        local_of("upnp:artist"@) == "artist"@,
        local_of("upnp:album"@) == "album"@,
        local_of("upnp:albumArtURI"@) == "albumArtURI"@,
        local_of("upnp:genre"@) == "genre"@,
        "DIDL-Lite"@.len() == 9,
        "item"@.len() == 4,
        "res"@.len() == 3,
        "id"@.len() == 2,
        "parentID"@.len() == 8,
        "restricted"@.len() == 10,
        "title"@.len() == 5,
        "class"@.len() == 5,
        "artist"@.len() == 6,
        "album"@.len() == 5,
        "albumArtURI"@.len() == 11,
        "genre"@.len() == 5,
        "title"@ != "class"@,
        "title"@ != "album"@,
        "title"@ != "genre"@,
        "class"@ != "album"@,
        "class"@ != "genre"@,
        "album"@ != "genre"@,
{
    reveal_strlit("dc:title");
    reveal_strlit("restricted");
    reveal_strlit("title");
    reveal_strlit("class");
    reveal_strlit("upnp:albumArtURI");
    reveal_strlit("item");
    reveal_strlit("genre");
    reveal_strlit("id");
    reveal_strlit("parentID");
    reveal_strlit("res");
    reveal_strlit("upnp:genre");
    reveal_strlit("artist");
    reveal_strlit("upnp:class");
    reveal_strlit("upnp:artist");
    reveal_strlit("upnp:album");
    reveal_strlit("DIDL-Lite");
    reveal_strlit("albumArtURI");
    reveal_strlit("album");
    assert(forall|j: int| 0 <= j < "DIDL-Lite"@.len() ==> #[trigger] "DIDL-Lite"@[j] != ':');
    lemma_scan_to_none("DIDL-Lite"@, 0, ':');
    assert(forall|j: int| 0 <= j < "item"@.len() ==> #[trigger] "item"@[j] != ':');
    lemma_scan_to_none("item"@, 0, ':');
    assert(forall|j: int| 0 <= j < "res"@.len() ==> #[trigger] "res"@[j] != ':');
    lemma_scan_to_none("res"@, 0, ':');
    assert(forall|j: int| 0 <= j < "id"@.len() ==> #[trigger] "id"@[j] != ':');
    lemma_scan_to_none("id"@, 0, ':');
    assert(forall|j: int| 0 <= j < "parentID"@.len() ==> #[trigger] "parentID"@[j] != ':');
    lemma_scan_to_none("parentID"@, 0, ':');
    assert(forall|j: int| 0 <= j < "restricted"@.len() ==> #[trigger] "restricted"@[j] != ':');
    lemma_scan_to_none("restricted"@, 0, ':');
    assert("dc:title"@[2] == ':');
    assert(forall|j: int| 0 <= j < 2 ==> #[trigger] "dc:title"@[j] != ':');
    lemma_scan_to_pin("dc:title"@, 0, ':', 2);
    assert("dc:title"@.subrange(3, "dc:title"@.len() as int) =~= "title"@);
    assert("upnp:class"@[4] == ':');
    assert(forall|j: int| 0 <= j < 4 ==> #[trigger] "upnp:class"@[j] != ':');
    lemma_scan_to_pin("upnp:class"@, 0, ':', 4);
    assert("upnp:class"@.subrange(5, "upnp:class"@.len() as int) =~= "class"@);
    assert("upnp:artist"@[4] == ':');
    assert(forall|j: int| 0 <= j < 4 ==> #[trigger] "upnp:artist"@[j] != ':');
    lemma_scan_to_pin("upnp:artist"@, 0, ':', 4);
    assert("upnp:artist"@.subrange(5, "upnp:artist"@.len() as int) =~= "artist"@);
    assert("upnp:album"@[4] == ':');
    assert(forall|j: int| 0 <= j < 4 ==> #[trigger] "upnp:album"@[j] != ':');
    lemma_scan_to_pin("upnp:album"@, 0, ':', 4);
    assert("upnp:album"@.subrange(5, "upnp:album"@.len() as int) =~= "album"@);
    assert("upnp:albumArtURI"@[4] == ':');
    assert(forall|j: int| 0 <= j < 4 ==> #[trigger] "upnp:albumArtURI"@[j] != ':');
    lemma_scan_to_pin("upnp:albumArtURI"@, 0, ':', 4);
    assert("upnp:albumArtURI"@.subrange(5, "upnp:albumArtURI"@.len() as int) =~= "albumArtURI"@);
    assert("upnp:genre"@[4] == ':');
    assert(forall|j: int| 0 <= j < 4 ==> #[trigger] "upnp:genre"@[j] != ':');
    lemma_scan_to_pin("upnp:genre"@, 0, ':', 4);
    assert("upnp:genre"@.subrange(5, "upnp:genre"@.len() as int) =~= "genre"@);
    assert("title"@ != "class"@) by {
        assert("title"@[0] != "class"@[0]);
    }
    assert("title"@ != "album"@) by {
        assert("title"@[0] != "album"@[0]);
    }
    assert("title"@ != "genre"@) by {
        assert("title"@[0] != "genre"@[0]);
    }
    assert("class"@ != "album"@) by {
        assert("class"@[0] != "album"@[0]);
    }
    assert("class"@ != "genre"@) by {
        assert("class"@[0] != "genre"@[0]);
    }
    assert("album"@ != "genre"@) by {
        assert("album"@[0] != "genre"@[0]);
    }
}

/// The `id` attribute of the constant `item` tag.
proof fn lemma_item_id_attr()
    ensures
        crate::xmltok::spec_attr_last(item_tag_attrs(), "id"@) == Some("0"@),
{
    lemma_decode_name_facts();
    let avs = item_tag_attrs();
    assert(avs.drop_last() =~= seq![("id"@, "0"@), ("parentID"@, "-1"@)]);
    assert(avs.drop_last().drop_last() =~= seq![("id"@, "0"@)]);
    assert(crate::xmltok::spec_attr_last(avs, "id"@) == crate::xmltok::spec_attr_last(
        avs.drop_last(),
        "id"@,
    ));
    assert(crate::xmltok::spec_attr_last(avs.drop_last(), "id"@)
        == crate::xmltok::spec_attr_last(avs.drop_last().drop_last(), "id"@));
    assert(crate::xmltok::spec_attr_last(avs.drop_last().drop_last(), "id"@) == Some("0"@));
}

/// Scanning the fully-described token stream recovers the fields.
#[verifier::rlimit(100)]
#[verifier::spinoff_prover]
pub proof fn lemma_decode_all(m: crate::didl::MetaV, class: crate::types::ObjectClass)
    requires
        m.artist is Some,
        m.album is Some,
        m.album_art is Some,
        m.genre is Some,
    ensures
        ({
            let fin = crate::parser::meta_scan(didl_all_tokens(m, class), 0, crate::parser::meta_init());
            &&& fin.title == Some(m.title)
            &&& fin.artist == m.artist
            &&& fin.album == m.album
            &&& fin.album_art == m.album_art
            &&& fin.genre == m.genre
        }),
{
    lemma_decode_name_facts();
    lemma_item_id_attr();
    let ts = didl_all_tokens(m, class);
    assert(ts.len() == (if crate::xmltok::has_nonws(m.url) { 25int } else { 24int }));
    assert(ts[0] == (TokV::Start { name: "DIDL-Lite"@, attrs: root_tag_attrs() }));
    assert(ts[1] == (TokV::Start { name: "item"@, attrs: item_tag_attrs() }));
    assert(ts[2] == (TokV::Start { name: "dc:title"@, attrs: Seq::empty() }));
    assert(ts[3] == (TokV::Text { text: m.title }));
    assert(ts[4] == (TokV::End { name: "dc:title"@ }));
    assert(ts[5] == (TokV::Start { name: "upnp:class"@, attrs: Seq::empty() }));
    assert(ts[6] == (TokV::Text { text: crate::types::object_class_str(class) }));
    assert(ts[7] == (TokV::End { name: "upnp:class"@ }));
    assert(ts[8] == (TokV::Start { name: "upnp:artist"@, attrs: Seq::empty() }));
    assert(ts[9] == (TokV::Text { text: m.artist->0 }));
    assert(ts[10] == (TokV::End { name: "upnp:artist"@ }));
    assert(ts[11] == (TokV::Start { name: "upnp:album"@, attrs: Seq::empty() }));
    assert(ts[12] == (TokV::Text { text: m.album->0 }));
    assert(ts[13] == (TokV::End { name: "upnp:album"@ }));
    assert(ts[14] == (TokV::Start { name: "upnp:albumArtURI"@, attrs: art_tag_attrs() }));
    assert(ts[15] == (TokV::Text { text: m.album_art->0 }));
    assert(ts[16] == (TokV::End { name: "upnp:albumArtURI"@ }));
    assert(ts[17] == (TokV::Start { name: "upnp:genre"@, attrs: Seq::empty() }));
    assert(ts[18] == (TokV::Text { text: m.genre->0 }));
    assert(ts[19] == (TokV::End { name: "upnp:genre"@ }));
    assert(ts[20] == (TokV::Start { name: "res"@, attrs: seq![("protocolInfo"@, m.protocol_info)] }));
    let st0 = crate::parser::meta_init();
    let st1 = crate::parser::meta_step(st0, ts[0]);
    assert(st1 == (MetaScan { in_title: false, in_artist: false, in_album: false, in_album_art: false, in_genre: false, url: Seq::empty(), title: None, artist: None, album: None, album_art: None, genre: None }));
    assert(crate::parser::meta_scan(ts, 0, st0) == crate::parser::meta_scan(ts, 1, st1));
    let st2 = crate::parser::meta_step(st1, ts[1]);
    assert(st2 == (MetaScan { in_title: false, in_artist: false, in_album: false, in_album_art: false, in_genre: false, url: "0"@, title: None, artist: None, album: None, album_art: None, genre: None }));
    assert(crate::parser::meta_scan(ts, 1, st1) == crate::parser::meta_scan(ts, 2, st2));
    let st3 = crate::parser::meta_step(st2, ts[2]);
    assert(st3 == (MetaScan { in_title: true, in_artist: false, in_album: false, in_album_art: false, in_genre: false, url: "0"@, title: None, artist: None, album: None, album_art: None, genre: None }));
    assert(crate::parser::meta_scan(ts, 2, st2) == crate::parser::meta_scan(ts, 3, st3));
    let st4 = crate::parser::meta_step(st3, ts[3]);
    assert(st4 == (MetaScan { in_title: true, in_artist: false, in_album: false, in_album_art: false, in_genre: false, url: "0"@, title: Some(m.title), artist: None, album: None, album_art: None, genre: None }));
    assert(crate::parser::meta_scan(ts, 3, st3) == crate::parser::meta_scan(ts, 4, st4));
    let st5 = crate::parser::meta_step(st4, ts[4]);
    assert(st5 == (MetaScan { in_title: false, in_artist: false, in_album: false, in_album_art: false, in_genre: false, url: "0"@, title: Some(m.title), artist: None, album: None, album_art: None, genre: None }));
    assert(crate::parser::meta_scan(ts, 4, st4) == crate::parser::meta_scan(ts, 5, st5));
    let st6 = crate::parser::meta_step(st5, ts[5]);
    assert(st6 == (MetaScan { in_title: false, in_artist: false, in_album: false, in_album_art: false, in_genre: false, url: "0"@, title: Some(m.title), artist: None, album: None, album_art: None, genre: None }));
    assert(crate::parser::meta_scan(ts, 5, st5) == crate::parser::meta_scan(ts, 6, st6));
    let st7 = crate::parser::meta_step(st6, ts[6]);
    assert(st7 == (MetaScan { in_title: false, in_artist: false, in_album: false, in_album_art: false, in_genre: false, url: "0"@, title: Some(m.title), artist: None, album: None, album_art: None, genre: None }));
    assert(crate::parser::meta_scan(ts, 6, st6) == crate::parser::meta_scan(ts, 7, st7));
    let st8 = crate::parser::meta_step(st7, ts[7]);
    assert(st8 == (MetaScan { in_title: false, in_artist: false, in_album: false, in_album_art: false, in_genre: false, url: "0"@, title: Some(m.title), artist: None, album: None, album_art: None, genre: None }));
    assert(crate::parser::meta_scan(ts, 7, st7) == crate::parser::meta_scan(ts, 8, st8));
    let st9 = crate::parser::meta_step(st8, ts[8]);
    assert(st9 == (MetaScan { in_title: false, in_artist: true, in_album: false, in_album_art: false, in_genre: false, url: "0"@, title: Some(m.title), artist: None, album: None, album_art: None, genre: None }));
    assert(crate::parser::meta_scan(ts, 8, st8) == crate::parser::meta_scan(ts, 9, st9));
    let st10 = crate::parser::meta_step(st9, ts[9]);
    assert(st10 == (MetaScan { in_title: false, in_artist: true, in_album: false, in_album_art: false, in_genre: false, url: "0"@, title: Some(m.title), artist: Some(m.artist->0), album: None, album_art: None, genre: None }));
    assert(crate::parser::meta_scan(ts, 9, st9) == crate::parser::meta_scan(ts, 10, st10));
    let st11 = crate::parser::meta_step(st10, ts[10]);
    assert(st11 == (MetaScan { in_title: false, in_artist: false, in_album: false, in_album_art: false, in_genre: false, url: "0"@, title: Some(m.title), artist: Some(m.artist->0), album: None, album_art: None, genre: None }));
    assert(crate::parser::meta_scan(ts, 10, st10) == crate::parser::meta_scan(ts, 11, st11));
    let st12 = crate::parser::meta_step(st11, ts[11]);
    assert(st12 == (MetaScan { in_title: false, in_artist: false, in_album: true, in_album_art: false, in_genre: false, url: "0"@, title: Some(m.title), artist: Some(m.artist->0), album: None, album_art: None, genre: None }));
    assert(crate::parser::meta_scan(ts, 11, st11) == crate::parser::meta_scan(ts, 12, st12));
    let st13 = crate::parser::meta_step(st12, ts[12]);
    assert(st13 == (MetaScan { in_title: false, in_artist: false, in_album: true, in_album_art: false, in_genre: false, url: "0"@, title: Some(m.title), artist: Some(m.artist->0), album: Some(m.album->0), album_art: None, genre: None }));
    assert(crate::parser::meta_scan(ts, 12, st12) == crate::parser::meta_scan(ts, 13, st13));
    let st14 = crate::parser::meta_step(st13, ts[13]);
    assert(st14 == (MetaScan { in_title: false, in_artist: false, in_album: false, in_album_art: false, in_genre: false, url: "0"@, title: Some(m.title), artist: Some(m.artist->0), album: Some(m.album->0), album_art: None, genre: None }));
    assert(crate::parser::meta_scan(ts, 13, st13) == crate::parser::meta_scan(ts, 14, st14));
    let st15 = crate::parser::meta_step(st14, ts[14]);
    assert(st15 == (MetaScan { in_title: false, in_artist: false, in_album: false, in_album_art: true, in_genre: false, url: "0"@, title: Some(m.title), artist: Some(m.artist->0), album: Some(m.album->0), album_art: None, genre: None }));
    assert(crate::parser::meta_scan(ts, 14, st14) == crate::parser::meta_scan(ts, 15, st15));
    let st16 = crate::parser::meta_step(st15, ts[15]);
    assert(st16 == (MetaScan { in_title: false, in_artist: false, in_album: false, in_album_art: true, in_genre: false, url: "0"@, title: Some(m.title), artist: Some(m.artist->0), album: Some(m.album->0), album_art: Some(m.album_art->0), genre: None }));
    assert(crate::parser::meta_scan(ts, 15, st15) == crate::parser::meta_scan(ts, 16, st16));
    let st17 = crate::parser::meta_step(st16, ts[16]);
    assert(st17 == (MetaScan { in_title: false, in_artist: false, in_album: false, in_album_art: false, in_genre: false, url: "0"@, title: Some(m.title), artist: Some(m.artist->0), album: Some(m.album->0), album_art: Some(m.album_art->0), genre: None }));
    assert(crate::parser::meta_scan(ts, 16, st16) == crate::parser::meta_scan(ts, 17, st17));
    let st18 = crate::parser::meta_step(st17, ts[17]);
    assert(st18 == (MetaScan { in_title: false, in_artist: false, in_album: false, in_album_art: false, in_genre: true, url: "0"@, title: Some(m.title), artist: Some(m.artist->0), album: Some(m.album->0), album_art: Some(m.album_art->0), genre: None }));
    assert(crate::parser::meta_scan(ts, 17, st17) == crate::parser::meta_scan(ts, 18, st18));
    let st19 = crate::parser::meta_step(st18, ts[18]);
    assert(st19 == (MetaScan { in_title: false, in_artist: false, in_album: false, in_album_art: false, in_genre: true, url: "0"@, title: Some(m.title), artist: Some(m.artist->0), album: Some(m.album->0), album_art: Some(m.album_art->0), genre: Some(m.genre->0) }));
    assert(crate::parser::meta_scan(ts, 18, st18) == crate::parser::meta_scan(ts, 19, st19));
    let st20 = crate::parser::meta_step(st19, ts[19]);
    assert(st20 == (MetaScan { in_title: false, in_artist: false, in_album: false, in_album_art: false, in_genre: false, url: "0"@, title: Some(m.title), artist: Some(m.artist->0), album: Some(m.album->0), album_art: Some(m.album_art->0), genre: Some(m.genre->0) }));
    assert(crate::parser::meta_scan(ts, 19, st19) == crate::parser::meta_scan(ts, 20, st20));
    let st21 = crate::parser::meta_step(st20, ts[20]);
    assert(st21 == (MetaScan { in_title: false, in_artist: false, in_album: false, in_album_art: false, in_genre: false, url: "0"@, title: Some(m.title), artist: Some(m.artist->0), album: Some(m.album->0), album_art: Some(m.album_art->0), genre: Some(m.genre->0) }));
    assert(crate::parser::meta_scan(ts, 20, st20) == crate::parser::meta_scan(ts, 21, st21));
    // What stands after the open `res` tag never changes the captured
    // fields: the remaining tokens carry no tracked element name.
    if crate::xmltok::has_nonws(m.url) {
        assert(ts[21] == (TokV::Text { text: m.url }));
        assert(ts[22] == (TokV::End { name: "res"@ }));
        assert(ts[23] == (TokV::End { name: "item"@ }));
        assert(ts[24] == (TokV::End { name: "DIDL-Lite"@ }));
        let st22 = crate::parser::meta_step(st21, ts[21]);
        assert(st22 == st21);
        let st23 = crate::parser::meta_step(st22, ts[22]);
        assert(st23 == st22);
        let st24 = crate::parser::meta_step(st23, ts[23]);
        assert(st24 == st23);
        let st25 = crate::parser::meta_step(st24, ts[24]);
        assert(st25 == st24);
        assert(crate::parser::meta_scan(ts, 21, st21) == crate::parser::meta_scan(ts, 22, st22));
        assert(crate::parser::meta_scan(ts, 22, st22) == crate::parser::meta_scan(ts, 23, st23));
        assert(crate::parser::meta_scan(ts, 23, st23) == crate::parser::meta_scan(ts, 24, st24));
        assert(crate::parser::meta_scan(ts, 24, st24) == crate::parser::meta_scan(ts, 25, st25));
        assert(crate::parser::meta_scan(ts, 25, st25) == st25);
    } else {
        assert(ts[21] == (TokV::End { name: "res"@ }));
        assert(ts[22] == (TokV::End { name: "item"@ }));
        assert(ts[23] == (TokV::End { name: "DIDL-Lite"@ }));
        let st22 = crate::parser::meta_step(st21, ts[21]);
        assert(st22 == st21);
        let st23 = crate::parser::meta_step(st22, ts[22]);
        assert(st23 == st22);
        let st24 = crate::parser::meta_step(st23, ts[23]);
        assert(st24 == st23);
        assert(crate::parser::meta_scan(ts, 21, st21) == crate::parser::meta_scan(ts, 22, st22));
        assert(crate::parser::meta_scan(ts, 22, st22) == crate::parser::meta_scan(ts, 23, st23));
        assert(crate::parser::meta_scan(ts, 23, st23) == crate::parser::meta_scan(ts, 24, st24));
        assert(crate::parser::meta_scan(ts, 24, st24) == st24);
    }
}

} // verus!

verus! {

/// The round-trip law of DIDL-Lite metadata: building a fragment from a
/// playable-item description and decoding it back yields the title, the
/// artist, the album, the album-art URI and the genre unchanged, for any
/// description whose title and present optional fields hold a visible
/// character.
pub proof fn lemma_didl_round_trip(m: crate::didl::MetaV, class: crate::types::ObjectClass)
    requires
        crate::xmltok::has_nonws(m.title),
        m.artist is Some,
        crate::xmltok::has_nonws(m.artist->0),
        m.album is Some,
        crate::xmltok::has_nonws(m.album->0),
        m.album_art is Some,
        crate::xmltok::has_nonws(m.album_art->0),
        m.genre is Some,
        crate::xmltok::has_nonws(m.genre->0),
    ensures
        ({
            let fin = crate::parser::spec_deserialize_metadata(crate::didl::didl_text(m, class));
            &&& fin.title == Some(m.title)
            &&& fin.artist == m.artist
            &&& fin.album == m.album
            &&& fin.album_art == m.album_art
            &&& fin.genre == m.genre
        }),
{
    lemma_didl_all_tokens(m, class);
    lemma_decode_all(m, class);
}

} // verus!
