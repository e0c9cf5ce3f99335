//! XML entity escaping and unescaping over character sequences, with exact
//! specifications and the inverse lemmas the DIDL-Lite round trip rests on.

use vstd::prelude::*;

verus! {

/// One unescaping step applied at the head of `s`: the five predefined XML
/// entities become their characters; a bare `&` is kept as it stands.
pub open spec fn spec_unescape(s: Seq<char>) -> Seq<char>
    decreases s.len(),
{
    if s.len() == 0 {
        Seq::empty()
    } else if s[0] == '&' {
        if s.len() >= 5 && s[1] == 'a' && s[2] == 'm' && s[3] == 'p' && s[4] == ';' {
            seq!['&'] + spec_unescape(s.skip(5))
        } else if s.len() >= 4 && s[1] == 'l' && s[2] == 't' && s[3] == ';' {
            seq!['<'] + spec_unescape(s.skip(4))
        } else if s.len() >= 4 && s[1] == 'g' && s[2] == 't' && s[3] == ';' {
            seq!['>'] + spec_unescape(s.skip(4))
        } else if s.len() >= 6 && s[1] == 'q' && s[2] == 'u' && s[3] == 'o' && s[4] == 't' && s[5]
            == ';' {
            seq!['"'] + spec_unescape(s.skip(6))
        } else if s.len() >= 6 && s[1] == 'a' && s[2] == 'p' && s[3] == 'o' && s[4] == 's' && s[5]
            == ';' {
            seq!['\''] + spec_unescape(s.skip(6))
        } else {
            seq!['&'] + spec_unescape(s.skip(1))
        }
    } else {
        seq![s[0]] + spec_unescape(s.skip(1))
    }
}

/// The escape of one character in element text.
pub open spec fn esc_text_char(c: char) -> Seq<char> {
    if c == '&' {
        seq!['&', 'a', 'm', 'p', ';']
    } else if c == '<' {
        seq!['&', 'l', 't', ';']
    } else if c == '>' {
        seq!['&', 'g', 't', ';']
    } else {
        seq![c]
    }
}

/// The escape of one character in an attribute value: as in text, and both
/// quote characters as well.
pub open spec fn esc_attr_char(c: char) -> Seq<char> {
    if c == '"' {
        seq!['&', 'q', 'u', 'o', 't', ';']
    } else if c == '\'' {
        seq!['&', 'a', 'p', 'o', 's', ';']
    } else {
        esc_text_char(c)
    }
}

/// `s` with `&`, `<` and `>` written as entities.
pub open spec fn spec_escape_text(s: Seq<char>) -> Seq<char>
    decreases s.len(),
{
    if s.len() == 0 {
        Seq::empty()
    } else {
        esc_text_char(s[0]) + spec_escape_text(s.skip(1))
    }
}

/// `s` with `&`, `<`, `>`, `"` and `'` written as entities.
pub open spec fn spec_escape_attr(s: Seq<char>) -> Seq<char>
    decreases s.len(),
{
    if s.len() == 0 {
        Seq::empty()
    } else {
        esc_attr_char(s[0]) + spec_escape_attr(s.skip(1))
    }
}

/// Unescapes `v[from..to]`.
pub fn unescape_range(v: &Vec<char>, from: usize, to: usize) -> (r: Vec<char>)
    requires
        from <= to <= v@.len(),
    ensures
        r@ == spec_unescape(v@.subrange(from as int, to as int)),
{
    let ghost whole = v@.subrange(from as int, to as int);
    let mut out: Vec<char> = Vec::new();
    let mut i: usize = from;
    while i < to
        invariant
            from <= i <= to <= v@.len(),
            whole == v@.subrange(from as int, to as int),
            spec_unescape(whole) == out@ + spec_unescape(v@.subrange(i as int, to as int)),
        decreases to - i,
    {
        let ghost rem = v@.subrange(i as int, to as int);
        let c = v[i];
        proof {
            assert(rem[0] == c);
        }
        if c == '&' {
            if to - i > 4 && v[i + 1] == 'a' && v[i + 2] == 'm' && v[i + 3] == 'p' && v[i + 4]
                == ';' {
                out.push('&');
                proof {
                    assert(rem.skip(5) =~= v@.subrange(i + 5, to as int));
                }
                i = i + 5;
            } else if to - i > 3 && v[i + 1] == 'l' && v[i + 2] == 't' && v[i + 3] == ';' {
                out.push('<');
                proof {
                    assert(rem.skip(4) =~= v@.subrange(i + 4, to as int));
                }
                i = i + 4;
            } else if to - i > 3 && v[i + 1] == 'g' && v[i + 2] == 't' && v[i + 3] == ';' {
                out.push('>');
                proof {
                    assert(rem.skip(4) =~= v@.subrange(i + 4, to as int));
                }
                i = i + 4;
            } else if to - i > 5 && v[i + 1] == 'q' && v[i + 2] == 'u' && v[i + 3] == 'o' && v[i
                + 4] == 't' && v[i + 5] == ';' {
                out.push('"');
                proof {
                    assert(rem.skip(6) =~= v@.subrange(i + 6, to as int));
                }
                i = i + 6;
            } else if to - i > 5 && v[i + 1] == 'a' && v[i + 2] == 'p' && v[i + 3] == 'o' && v[i
                + 4] == 's' && v[i + 5] == ';' {
                out.push('\'');
                proof {
                    assert(rem.skip(6) =~= v@.subrange(i + 6, to as int));
                }
                i = i + 6;
            } else {
                out.push('&');
                proof {
                    assert(rem.skip(1) =~= v@.subrange(i + 1, to as int));
                }
                i = i + 1;
            }
        } else {
            out.push(c);
            proof {
                assert(rem.skip(1) =~= v@.subrange(i + 1, to as int));
            }
            i = i + 1;
        }
    }
    proof {
        assert(v@.subrange(i as int, to as int) =~= Seq::<char>::empty());
        assert(out@ + Seq::<char>::empty() =~= out@);
    }
    out
}

/// Escapes `v[from..to]` for element text.
pub fn escape_text_range(v: &Vec<char>, from: usize, to: usize) -> (r: Vec<char>)
    requires
        from <= to <= v@.len(),
    ensures
        r@ == spec_escape_text(v@.subrange(from as int, to as int)),
{
    let ghost whole = v@.subrange(from as int, to as int);
    let mut out: Vec<char> = Vec::new();
    let mut i: usize = from;
    while i < to
        invariant
            from <= i <= to <= v@.len(),
            whole == v@.subrange(from as int, to as int),
            spec_escape_text(whole) == out@ + spec_escape_text(v@.subrange(i as int, to as int)),
        decreases to - i,
    {
        let ghost rem = v@.subrange(i as int, to as int);
        let c = v[i];
        proof {
            assert(rem[0] == c);
            assert(rem.skip(1) =~= v@.subrange(i + 1, to as int));
        }
        if c == '&' {
            out.push('&');
            out.push('a');
            out.push('m');
            out.push('p');
            out.push(';');
        } else if c == '<' {
            out.push('&');
            out.push('l');
            out.push('t');
            out.push(';');
        } else if c == '>' {
            out.push('&');
            out.push('g');
            out.push('t');
            out.push(';');
        } else {
            out.push(c);
        }
        i = i + 1;
    }
    proof {
        assert(v@.subrange(i as int, to as int) =~= Seq::<char>::empty());
        assert(out@ + Seq::<char>::empty() =~= out@);
    }
    out
}

/// Escapes `v[from..to]` for an attribute value.
pub fn escape_attr_range(v: &Vec<char>, from: usize, to: usize) -> (r: Vec<char>)
    requires
        from <= to <= v@.len(),
    ensures
        r@ == spec_escape_attr(v@.subrange(from as int, to as int)),
{
    let ghost whole = v@.subrange(from as int, to as int);
    let mut out: Vec<char> = Vec::new();
    let mut i: usize = from;
    while i < to
        invariant
            from <= i <= to <= v@.len(),
            whole == v@.subrange(from as int, to as int),
            spec_escape_attr(whole) == out@ + spec_escape_attr(v@.subrange(i as int, to as int)),
        decreases to - i,
    {
        let ghost rem = v@.subrange(i as int, to as int);
        let c = v[i];
        proof {
            assert(rem[0] == c);
            assert(rem.skip(1) =~= v@.subrange(i + 1, to as int));
        }
        if c == '&' {
            out.push('&');
            out.push('a');
            out.push('m');
            out.push('p');
            out.push(';');
        } else if c == '<' {
            out.push('&');
            out.push('l');
            out.push('t');
            out.push(';');
        } else if c == '>' {
            out.push('&');
            out.push('g');
            out.push('t');
            out.push(';');
        } else if c == '"' {
            out.push('&');
            out.push('q');
            out.push('u');
            out.push('o');
            out.push('t');
            out.push(';');
        } else if c == '\'' {
            out.push('&');
            out.push('a');
            out.push('p');
            out.push('o');
            out.push('s');
            out.push(';');
        } else {
            out.push(c);
        }
        i = i + 1;
    }
    proof {
        assert(v@.subrange(i as int, to as int) =~= Seq::<char>::empty());
        assert(out@ + Seq::<char>::empty() =~= out@);
    }
    out
}

/// Escapes the whole of `v` for element text.
pub fn escape_text_all(v: &Vec<char>) -> (r: Vec<char>)
    ensures
        r@ == spec_escape_text(v@),
{
    let r = escape_text_range(v, 0, v.len());
    proof {
        assert(v@.subrange(0, v@.len() as int) =~= v@);
    }
    r
}

/// Escapes the whole of `v` for an attribute value.
pub fn escape_attr_all(v: &Vec<char>) -> (r: Vec<char>)
    ensures
        r@ == spec_escape_attr(v@),
{
    let r = escape_attr_range(v, 0, v.len());
    proof {
        assert(v@.subrange(0, v@.len() as int) =~= v@);
    }
    r
}

/// Unescaping a text escape gives the characters back: the two are inverse.
pub proof fn lemma_unescape_escape_text(s: Seq<char>)
    ensures
        spec_unescape(spec_escape_text(s)) == s,
    decreases s.len(),
{
    if s.len() == 0 {
        assert(spec_unescape(spec_escape_text(s)) =~= s);
    } else {
        lemma_unescape_escape_text(s.skip(1));
        lemma_unescape_step(esc_text_char(s[0]), s[0], spec_escape_text(s.skip(1)));
        assert(spec_unescape(spec_escape_text(s)) =~= s);
    }
}

/// Unescaping an attribute escape gives the characters back.
pub proof fn lemma_unescape_escape_attr(s: Seq<char>)
    ensures
        spec_unescape(spec_escape_attr(s)) == s,
    decreases s.len(),
{
    if s.len() == 0 {
        assert(spec_unescape(spec_escape_attr(s)) =~= s);
    } else {
        lemma_unescape_escape_attr(s.skip(1));
        lemma_unescape_step(esc_attr_char(s[0]), s[0], spec_escape_attr(s.skip(1)));
        assert(spec_unescape(spec_escape_attr(s)) =~= s);
    }
}

/// Unescaping the escape of one character followed by anything else peels
/// exactly that character off.
proof fn lemma_unescape_step(e: Seq<char>, c: char, rest: Seq<char>)
    requires
        e == esc_text_char(c) || e == esc_attr_char(c),
    ensures
        spec_unescape(e + rest) == seq![c] + spec_unescape(rest),
{
    let s = e + rest;
    if c == '&' {
        assert(s.skip(5) =~= rest);
    } else if c == '<' {
        assert(s.skip(4) =~= rest);
    } else if c == '>' {
        assert(s.skip(4) =~= rest);
    } else if c == '"' && e == esc_attr_char(c) {
        assert(s.skip(6) =~= rest);
    } else if c == '\'' && e == esc_attr_char(c) {
        assert(s.skip(6) =~= rest);
    } else {
        assert(e =~= seq![c]);
        assert(s[0] == c);
        assert(s.skip(1) =~= rest);
        if c != '&' {
            assert(spec_unescape(s) == seq![c] + spec_unescape(rest));
        }
    }
}

} // verus!
