//! A lenient XML tokenizer over character sequences. A document is scanned
//! into start-element, end-element and text tokens; declarations, comments
//! and anything malformed are skipped, so tokenizing never fails. The
//! executable scanner is proved equal to the specification scanner
//! `spec_tokens`, which every decoder's contract is then stated over.

use vstd::prelude::*;

use crate::escape::{spec_unescape, unescape_range};
use crate::strutil::{
    is_space, scan_to, scan_to_x, skip_ws, skip_ws_x, slice_chars, trim, trim_range,
};

verus! {

/// One attribute of a start tag: the name as written, and the value with
/// entities resolved.
pub struct XmlAttr {
    pub name: Vec<char>,
    pub value: Vec<char>,
}

/// A token of the scanned document. Element names are kept as written,
/// prefix included; text carries its entities resolved.
pub enum XmlToken {
    Start { name: Vec<char>, attrs: Vec<XmlAttr> },
    End { name: Vec<char> },
    Text { text: Vec<char> },
}

/// The mathematical image of a token.
pub enum TokV {
    Start { name: Seq<char>, attrs: Seq<(Seq<char>, Seq<char>)> },
    End { name: Seq<char> },
    Text { text: Seq<char> },
}

impl View for XmlAttr {
    type V = (Seq<char>, Seq<char>);

    open spec fn view(&self) -> (Seq<char>, Seq<char>) {
        (self.name@, self.value@)
    }
}

impl View for XmlToken {
    type V = TokV;

    open spec fn view(&self) -> TokV {
        match self {
            XmlToken::Start { name, attrs } => TokV::Start {
                name: name@,
                attrs: attrs@.map_values(|a: XmlAttr| a@),
            },
            XmlToken::End { name } => TokV::End { name: name@ },
            XmlToken::Text { text } => TokV::Text { text: text@ },
        }
    }
}

/// The images of a token vector, in order.
pub open spec fn toks_view(ts: Seq<XmlToken>) -> Seq<TokV> {
    ts.map_values(|t: XmlToken| t@)
}

/// Whether `c` ends a name: whitespace or one of `>`, `/`, `=`.
pub open spec fn is_name_end(c: char) -> bool {
    is_space(c) || c == '>' || c == '/' || c == '='
}

/// Index of the first name-ending character at or after `i`, or `s.len()`.
pub open spec fn scan_name(s: Seq<char>, i: int) -> int
    decreases s.len() - i when 0 <= i <= s.len()
{
    if i >= s.len() {
        s.len() as int
    } else if is_name_end(s[i]) {
        i
    } else {
        scan_name(s, i + 1)
    }
}

pub fn scan_name_x(v: &Vec<char>, i: usize) -> (r: usize)
    requires
        i <= v@.len(),
    ensures
        r as int == scan_name(v@, i as int),
        i <= r <= v@.len(),
    decreases v@.len() - i,
{
    if i >= v.len() {
        i
    } else {
        let c = v[i];
        if c == ' ' || c == '\t' || c == '\r' || c == '\n' || c == '>' || c == '/' || c == '=' {
            i
        } else {
            scan_name_x(v, i + 1)
        }
    }
}

/// Index of the first `a` directly followed by `b` at or after `i`, or
/// `s.len()` when there is none.
pub open spec fn scan_pair(s: Seq<char>, i: int, a: char, b: char) -> int
    decreases s.len() - i when 0 <= i <= s.len()
{
    if i + 1 >= s.len() {
        s.len() as int
    } else if s[i] == a && s[i + 1] == b {
        i
    } else {
        scan_pair(s, i + 1, a, b)
    }
}

pub fn scan_pair_x(v: &Vec<char>, i: usize, a: char, b: char) -> (r: usize)
    requires
        i <= v@.len(),
    ensures
        r as int == scan_pair(v@, i as int, a, b),
        i <= r <= v@.len(),
        r < v@.len() ==> r + 1 < v@.len(),
    decreases v@.len() - i,
{
    if v.len() - i < 2 {
        v.len()
    } else if v[i] == a && v[i + 1] == b {
        i
    } else {
        scan_pair_x(v, i + 1, a, b)
    }
}

/// Index of the first `-->` at or after `i`, or `s.len()`.
pub open spec fn scan_comment_end(s: Seq<char>, i: int) -> int
    decreases s.len() - i when 0 <= i <= s.len()
{
    if i + 2 >= s.len() {
        s.len() as int
    } else if s[i] == '-' && s[i + 1] == '-' && s[i + 2] == '>' {
        i
    } else {
        scan_comment_end(s, i + 1)
    }
}

pub fn scan_comment_end_x(v: &Vec<char>, i: usize) -> (r: usize)
    requires
        i <= v@.len(),
    ensures
        r as int == scan_comment_end(v@, i as int),
        i <= r <= v@.len(),
        r < v@.len() ==> r + 2 < v@.len(),
    decreases v@.len() - i,
{
    if v.len() - i < 3 {
        v.len()
    } else if v[i] == '-' && v[i + 1] == '-' && v[i + 2] == '>' {
        i
    } else {
        scan_comment_end_x(v, i + 1)
    }
}

/// Whether `s` holds at least one non-whitespace character.
pub open spec fn has_nonws(s: Seq<char>) -> bool {
    exists|k: int| 0 <= k < s.len() && !is_space(s[k])
}

pub fn has_nonws_range(v: &Vec<char>, from: usize, to: usize) -> (r: bool)
    requires
        from <= to <= v@.len(),
    ensures
        r == has_nonws(v@.subrange(from as int, to as int)),
{
    let ghost sub = v@.subrange(from as int, to as int);
    let mut i: usize = from;
    while i < to
        invariant
            from <= i <= to <= v@.len(),
            sub == v@.subrange(from as int, to as int),
            forall|k: int| 0 <= k < i - from ==> is_space(#[trigger] sub[k]),
        decreases to - i,
    {
        let c = v[i];
        if !(c == ' ' || c == '\t' || c == '\r' || c == '\n') {
            proof {
                assert(sub[i - from] == c);
                assert(!is_space(sub[i - from]));
            }
            return true;
        }
        proof {
            assert(sub[i - from] == c);
        }
        i = i + 1;
    }
    false
}

/// Scans the attribute list of a start tag beginning at `i` (just past the
/// tag name). Yields the attributes, the index after the closing `>` or
/// `/>`, and a kind: 0 for `>`, 1 for `/>`, 2 for a tag the input cuts off.
/// Attributes without a quoted value are skipped.
pub open spec fn spec_attrs(s: Seq<char>, i: int) -> (Seq<(Seq<char>, Seq<char>)>, int, int)
    decreases s.len() - i, 1int when 0 <= i <= s.len()
{
    let k = skip_ws(s, i);
    if k >= s.len() {
        (Seq::empty(), s.len() as int, 2)
    } else if s[k] == '>' {
        (Seq::empty(), k + 1, 0)
    } else if s[k] == '/' {
        if k + 1 < s.len() && s[k + 1] == '>' {
            (Seq::empty(), k + 2, 1)
        } else {
            spec_attrs_from(s, i, k + 1)
        }
    } else if s[k] == '=' {
        spec_attrs_from(s, i, k + 1)
    } else {
        let e = scan_name(s, k);
        let name = s.subrange(k, e);
        let q = skip_ws(s, e);
        if q < s.len() && s[q] == '=' {
            let v0 = skip_ws(s, q + 1);
            if v0 < s.len() && (s[v0] == '"' || s[v0] == '\'') {
                let close = scan_to(s, v0 + 1, s[v0]);
                if close < s.len() {
                    let rest = spec_attrs_from(s, i, close + 1);
                    (seq![(name, spec_unescape(s.subrange(v0 + 1, close)))] + rest.0, rest.1, rest.2)
                } else {
                    (Seq::empty(), s.len() as int, 2)
                }
            } else {
                spec_attrs_from(s, i, v0)
            }
        } else {
            spec_attrs_from(s, i, q)
        }
    }
}

/// The attribute scan resumed at `j`, which the scan only ever reaches with
/// `i < j <= s.len()`; the clamp below never bites and only makes the
/// recursion's progress plain.
pub open spec fn spec_attrs_from(s: Seq<char>, i: int, j: int) -> (
    Seq<(Seq<char>, Seq<char>)>,
    int,
    int,
)
    decreases s.len() - i, 0int when 0 <= i <= s.len()
{
    let j2 = if j < i + 1 {
        i + 1
    } else {
        j
    };
    if j2 <= s.len() {
        spec_attrs(s, j2)
    } else {
        (Seq::empty(), s.len() as int, 2)
    }
}

pub proof fn lemma_attrs_bounds(s: Seq<char>, i: int)
    requires
        0 <= i <= s.len(),
    ensures
        i <= spec_attrs(s, i).1 <= s.len(),
    decreases s.len() - i,
{
    let k = skip_ws(s, i);
    crate::strutil::lemma_skip_ws_bounds(s, i);
    if k >= s.len() {
    } else if s[k] == '>' {
    } else if s[k] == '/' {
        if k + 1 < s.len() && s[k + 1] == '>' {
        } else {
            lemma_attrs_bounds(s, k + 1);
        }
    } else if s[k] == '=' {
        lemma_attrs_bounds(s, k + 1);
    } else {
        let e = scan_name(s, k);
        assert(!is_name_end(s[k]));
        lemma_scan_name_bounds(s, k + 1);
        assert(e == scan_name(s, k + 1));
        let q = skip_ws(s, e);
        crate::strutil::lemma_skip_ws_bounds(s, e);
        if q < s.len() && s[q] == '=' {
            let v0 = skip_ws(s, q + 1);
            crate::strutil::lemma_skip_ws_bounds(s, q + 1);
            if v0 < s.len() && (s[v0] == '"' || s[v0] == '\'') {
                let close = scan_to(s, v0 + 1, s[v0]);
                crate::strutil::lemma_scan_to_bounds(s, v0 + 1, s[v0]);
                if close < s.len() {
                    lemma_attrs_bounds(s, close + 1);
                }
            } else {
                lemma_attrs_bounds(s, v0);
            }
        } else {
            lemma_attrs_bounds(s, q);
        }
    }
}

pub proof fn lemma_scan_name_bounds(s: Seq<char>, i: int)
    requires
        0 <= i <= s.len(),
    ensures
        i <= scan_name(s, i) <= s.len(),
    decreases s.len() - i,
{
    if i < s.len() && !is_name_end(s[i]) {
        lemma_scan_name_bounds(s, i + 1);
    }
}

/// Executable attribute scan, equal to `spec_attrs`.
pub fn attrs_x(v: &Vec<char>, i: usize) -> (r: (Vec<XmlAttr>, usize, u8))
    requires
        i <= v@.len(),
    ensures
        r.0@.map_values(|a: XmlAttr| a@) == spec_attrs(v@, i as int).0,
        r.1 as int == spec_attrs(v@, i as int).1,
        r.2 as int == spec_attrs(v@, i as int).2,
        i <= r.1 <= v@.len(),
        r.2 <= 2,
    decreases v@.len() - i,
{
    proof {
        lemma_attrs_bounds(v@, i as int);
    }
    let k = skip_ws_x(v, i);
    if k >= v.len() {
        proof {
            assert(Seq::<XmlAttr>::empty().map_values(|a: XmlAttr| a@) =~= Seq::<(
                Seq<char>,
                Seq<char>,
            )>::empty());
        }
        (Vec::new(), v.len(), 2)
    } else if v[k] == '>' {
        proof {
            assert(Seq::<XmlAttr>::empty().map_values(|a: XmlAttr| a@) =~= Seq::<(
                Seq<char>,
                Seq<char>,
            )>::empty());
        }
        (Vec::new(), k + 1, 0)
    } else if v[k] == '/' {
        if k + 1 < v.len() && v[k + 1] == '>' {
            proof {
                assert(Seq::<XmlAttr>::empty().map_values(|a: XmlAttr| a@) =~= Seq::<(
                    Seq<char>,
                    Seq<char>,
                )>::empty());
            }
            (Vec::new(), k + 2, 1)
        } else {
            attrs_x(v, k + 1)
        }
    } else if v[k] == '=' {
        attrs_x(v, k + 1)
    } else {
        proof {
            crate::strutil::lemma_skip_ws_bounds(v@, i as int);
            lemma_scan_name_bounds(v@, k as int + 1);
        }
        let e = scan_name_x(v, k);
        proof {
            assert(!is_name_end(v@[k as int]));
            assert(scan_name(v@, k as int) == scan_name(v@, k as int + 1));
        }
        let q = skip_ws_x(v, e);
        if q < v.len() && v[q] == '=' {
            let v0 = skip_ws_x(v, q + 1);
            if v0 < v.len() && (v[v0] == '"' || v[v0] == '\'') {
                let close = scan_to_x(v, v0 + 1, v[v0]);
                if close < v.len() {
                    let name = slice_chars(v, k, e);
                    let value = unescape_range(v, v0 + 1, close);
                    let (mut restattrs, restnext, restkind) = attrs_x(v, close + 1);
                    let ghost restv = restattrs@.map_values(|a: XmlAttr| a@);
                    let mut out: Vec<XmlAttr> = Vec::new();
                    out.push(XmlAttr { name, value });
                    let ghost first = out@.map_values(|a: XmlAttr| a@);
                    out.append(&mut restattrs);
                    proof {
                        assert(out@.map_values(|a: XmlAttr| a@) =~= first + restv);
                        assert(first =~= seq![
                            (
                                v@.subrange(k as int, e as int),
                                spec_unescape(v@.subrange(v0 + 1, close as int)),
                            ),
                        ]);
                    }
                    (out, restnext, restkind)
                } else {
                    proof {
                        assert(Seq::<XmlAttr>::empty().map_values(|a: XmlAttr| a@) =~= Seq::<(
                            Seq<char>,
                            Seq<char>,
                        )>::empty());
                    }
                    (Vec::new(), v.len(), 2)
                }
            } else {
                attrs_x(v, v0)
            }
        } else {
            attrs_x(v, q)
        }
    }
}

/// One scan step at `i`: the tokens it yields and the index where the next
/// step begins. Always advances.
pub open spec fn spec_step(s: Seq<char>, i: int) -> (Seq<TokV>, int) {
    if s[i] != '<' {
        let e = scan_to(s, i, '<');
        let raw = s.subrange(i, e);
        if has_nonws(raw) {
            (seq![TokV::Text { text: spec_unescape(raw) }], e)
        } else {
            (Seq::empty(), e)
        }
    } else if i + 3 < s.len() && s[i + 1] == '!' && s[i + 2] == '-' && s[i + 3] == '-' {
        let j = scan_comment_end(s, i + 4);
        if j < s.len() {
            (Seq::empty(), j + 3)
        } else {
            (Seq::empty(), s.len() as int)
        }
    } else if i + 1 < s.len() && s[i + 1] == '!' {
        let j = scan_to(s, i + 1, '>');
        if j < s.len() {
            (Seq::empty(), j + 1)
        } else {
            (Seq::empty(), s.len() as int)
        }
    } else if i + 1 < s.len() && s[i + 1] == '?' {
        let j = scan_pair(s, i + 2, '?', '>');
        if j < s.len() {
            (Seq::empty(), j + 2)
        } else {
            (Seq::empty(), s.len() as int)
        }
    } else if i + 1 < s.len() && s[i + 1] == '/' {
        let j = scan_to(s, i + 2, '>');
        if j < s.len() {
            (seq![TokV::End { name: trim(s.subrange(i + 2, j)) }], j + 1)
        } else {
            (Seq::empty(), s.len() as int)
        }
    } else {
        let e = scan_name(s, i + 1);
        if e == i + 1 {
            let j = scan_to(s, i + 1, '>');
            if j < s.len() {
                (Seq::empty(), j + 1)
            } else {
                (Seq::empty(), s.len() as int)
            }
        } else {
            let name = s.subrange(i + 1, e);
            let r = spec_attrs(s, e);
            if r.2 == 2 {
                (Seq::empty(), s.len() as int)
            } else if r.2 == 1 {
                (seq![TokV::Start { name, attrs: r.0 }, TokV::End { name }], r.1)
            } else {
                (seq![TokV::Start { name, attrs: r.0 }], r.1)
            }
        }
    }
}

/// Executable scan step, equal to `spec_step`, and strictly advancing.
pub fn step_x(v: &Vec<char>, i: usize) -> (r: (Vec<XmlToken>, usize))
    requires
        i < v@.len(),
    ensures
        toks_view(r.0@) == spec_step(v@, i as int).0,
        r.1 as int == spec_step(v@, i as int).1,
        i < r.1 <= v@.len(),
{
    let n = v.len();
    if v[i] != '<' {
        let e = scan_to_x(v, i, '<');
        proof {
            crate::strutil::lemma_scan_to_bounds(v@, i as int, '<');
            assert(v@[i as int] != '<');
            assert(e > i);
        }
        if has_nonws_range(v, i, e) {
            let raw = unescape_range(v, i, e);
            let mut out: Vec<XmlToken> = Vec::new();
            out.push(XmlToken::Text { text: raw });
            proof {
                assert(toks_view(out@) =~= spec_step(v@, i as int).0);
            }
            (out, e)
        } else {
            proof {
                assert(toks_view(Seq::<XmlToken>::empty()) =~= Seq::<TokV>::empty());
            }
            (Vec::new(), e)
        }
    } else if n - i > 3 && v[i + 1] == '!' && v[i + 2] == '-' && v[i + 3] == '-' {
        let j = scan_comment_end_x(v, i + 4);
        proof {
            assert(toks_view(Seq::<XmlToken>::empty()) =~= Seq::<TokV>::empty());
        }
        if j < n {
            (Vec::new(), j + 3)
        } else {
            (Vec::new(), n)
        }
    } else if n - i > 1 && v[i + 1] == '!' {
        let j = scan_to_x(v, i + 1, '>');
        proof {
            assert(toks_view(Seq::<XmlToken>::empty()) =~= Seq::<TokV>::empty());
        }
        if j < n {
            (Vec::new(), j + 1)
        } else {
            (Vec::new(), n)
        }
    } else if n - i > 1 && v[i + 1] == '?' {
        let j = scan_pair_x(v, i + 2, '?', '>');
        proof {
            assert(toks_view(Seq::<XmlToken>::empty()) =~= Seq::<TokV>::empty());
        }
        if j < n {
            (Vec::new(), j + 2)
        } else {
            (Vec::new(), n)
        }
    } else if n - i > 1 && v[i + 1] == '/' {
        let j = scan_to_x(v, i + 2, '>');
        if j < n {
            let name = trim_range(v, i + 2, j);
            let mut out: Vec<XmlToken> = Vec::new();
            out.push(XmlToken::End { name });
            proof {
                assert(toks_view(out@) =~= spec_step(v@, i as int).0);
            }
            (out, j + 1)
        } else {
            proof {
                assert(toks_view(Seq::<XmlToken>::empty()) =~= Seq::<TokV>::empty());
            }
            (Vec::new(), n)
        }
    } else {
        let e = scan_name_x(v, i + 1);
        proof {
            lemma_scan_name_bounds(v@, i as int + 1);
            lemma_attrs_bounds(v@, e as int);
        }
        if e == i + 1 {
            let j = scan_to_x(v, i + 1, '>');
            proof {
                assert(toks_view(Seq::<XmlToken>::empty()) =~= Seq::<TokV>::empty());
            }
            if j < n {
                (Vec::new(), j + 1)
            } else {
                (Vec::new(), n)
            }
        } else {
            let (attrs, nx, kind) = attrs_x(v, e);
            if kind == 2 {
                proof {
                    assert(toks_view(Seq::<XmlToken>::empty()) =~= Seq::<TokV>::empty());
                }
                (Vec::new(), n)
            } else if kind == 1 {
                let name = slice_chars(v, i + 1, e);
                let name2 = slice_chars(v, i + 1, e);
                let mut out: Vec<XmlToken> = Vec::new();
                out.push(XmlToken::Start { name, attrs });
                out.push(XmlToken::End { name: name2 });
                proof {
                    assert(toks_view(out@) =~= spec_step(v@, i as int).0);
                }
                (out, nx)
            } else {
                let name = slice_chars(v, i + 1, e);
                let mut out: Vec<XmlToken> = Vec::new();
                out.push(XmlToken::Start { name, attrs });
                proof {
                    assert(toks_view(out@) =~= spec_step(v@, i as int).0);
                }
                (out, nx)
            }
        }
    }
}

/// The tokens of `s` from position `i` on.
pub open spec fn spec_tokens_from(s: Seq<char>, i: int) -> Seq<TokV>
    decreases s.len() - i when 0 <= i <= s.len()
{
    if i >= s.len() {
        Seq::empty()
    } else {
        let r = spec_step(s, i);
        if i < r.1 <= s.len() {
            r.0 + spec_tokens_from(s, r.1)
        } else {
            r.0
        }
    }
}

/// The tokens of the whole document `s`.
pub open spec fn spec_tokens(s: Seq<char>) -> Seq<TokV> {
    spec_tokens_from(s, 0)
}

/// Scans `v` into its tokens.
pub fn tokenize(v: &Vec<char>) -> (r: Vec<XmlToken>)
    ensures
        toks_view(r@) == spec_tokens(v@),
{
    let mut out: Vec<XmlToken> = Vec::new();
    let mut i: usize = 0;
    proof {
        assert(toks_view(Seq::<XmlToken>::empty()) =~= Seq::<TokV>::empty());
        assert(Seq::<TokV>::empty() + spec_tokens_from(v@, 0) =~= spec_tokens_from(v@, 0));
    }
    while i < v.len()
        invariant
            i <= v@.len(),
            spec_tokens(v@) == toks_view(out@) + spec_tokens_from(v@, i as int),
        decreases v@.len() - i,
    {
        let ghost prev = toks_view(out@);
        let (mut ts, j) = step_x(v, i);
        proof {
            assert(spec_tokens_from(v@, i as int) == toks_view(ts@) + spec_tokens_from(
                v@,
                j as int,
            ));
        }
        out.append(&mut ts);
        proof {
            assert(toks_view(out@) =~= prev + spec_step(v@, i as int).0);
            assert(prev + (spec_step(v@, i as int).0 + spec_tokens_from(v@, j as int)) =~= (prev
                + spec_step(v@, i as int).0) + spec_tokens_from(v@, j as int));
        }
        i = j;
    }
    proof {
        assert(toks_view(out@) + Seq::<TokV>::empty() =~= toks_view(out@));
    }
    out
}

/// The local part of an element or attribute name: what follows the first
/// `:`, or the whole name when it has none.
pub open spec fn local_of(s: Seq<char>) -> Seq<char> {
    let k = scan_to(s, 0, ':');
    if k < s.len() {
        s.subrange(k + 1, s.len() as int)
    } else {
        s
    }
}

/// Whether the local part of `name` is `lit`.
pub fn local_eq(name: &Vec<char>, lit: &str) -> (r: bool)
    ensures
        r == (local_of(name@) == lit@),
{
    let k = scan_to_x(name, 0, ':');
    if k < name.len() {
        crate::strutil::range_eq_str(name, k + 1, name.len(), lit)
    } else {
        proof {
            assert(name@.subrange(0, name@.len() as int) =~= name@);
        }
        crate::strutil::range_eq_str(name, 0, name.len(), lit)
    }
}

/// The value of the last attribute in `attrs` whose local name is `n`.
pub open spec fn spec_attr_last(attrs: Seq<(Seq<char>, Seq<char>)>, n: Seq<char>) -> Option<
    Seq<char>,
>
    decreases attrs.len(),
{
    if attrs.len() == 0 {
        None
    } else if local_of(attrs.last().0) == n {
        Some(attrs.last().1)
    } else {
        spec_attr_last(attrs.drop_last(), n)
    }
}

/// Looks an attribute up by local name, last occurrence winning.
pub fn attr_last(attrs: &Vec<XmlAttr>, n: &str) -> (r: Option<Vec<char>>)
    ensures
        match r {
            Some(val) => spec_attr_last(attrs@.map_values(|a: XmlAttr| a@), n@) == Some(val@),
            None => spec_attr_last(attrs@.map_values(|a: XmlAttr| a@), n@) is None,
        },
{
    let ghost av = attrs@.map_values(|a: XmlAttr| a@);
    let mut found: Option<Vec<char>> = None;
    let mut i: usize = 0;
    while i < attrs.len()
        invariant
            i <= attrs@.len(),
            av == attrs@.map_values(|a: XmlAttr| a@),
            match found {
                Some(val) => spec_attr_last(av.subrange(0, i as int), n@) == Some(val@),
                None => spec_attr_last(av.subrange(0, i as int), n@) is None,
            },
        decreases attrs@.len() - i,
    {
        if local_eq(&attrs[i].name, n) {
            found = Some(slice_chars(&attrs[i].value, 0, attrs[i].value.len()));
            proof {
                assert(av.subrange(0, i + 1).last() == av[i as int]);
                assert(av[i as int] == attrs@[i as int]@);
                assert(attrs@[i as int].value@.subrange(
                    0,
                    attrs@[i as int].value@.len() as int,
                ) =~= attrs@[i as int].value@);
            }
        } else {
            proof {
                assert(av.subrange(0, i + 1).last() == av[i as int]);
                assert(av.subrange(0, i + 1).drop_last() =~= av.subrange(0, i as int));
            }
        }
        i = i + 1;
    }
    proof {
        assert(av.subrange(0, av.len() as int) =~= av);
    }
    found
}

} // verus!
