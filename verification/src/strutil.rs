//! Character-level string utilities shared by the wire-format modules:
//! conversions between `&str`/`String` and `Vec<char>`, whitespace handling,
//! decimal parsing and formatting, and scanning primitives, each with an
//! exact specification over `Seq<char>`.

use vstd::prelude::*;

verus! {

/// ASCII whitespace as HTTP header folding and XML treat it.
pub open spec fn is_space(c: char) -> bool {
    c == ' ' || c == '\t' || c == '\r' || c == '\n'
}

/// Whether `c` is an ASCII decimal digit.
pub open spec fn is_digit(c: char) -> bool {
    48 <= c as int && c as int <= 57
}

pub open spec fn lower_char(c: char) -> char {
    if 65 <= c as int && c as int <= 90 {
        ((c as u8) + 32) as char
    } else {
        c
    }
}

/// `s` lower-cased in the ASCII range, as `str::to_ascii_lowercase` does.
pub open spec fn lower(s: Seq<char>) -> Seq<char> {
    s.map_values(|c: char| lower_char(c))
}

pub fn lower_char_x(c: char) -> (r: char)
    ensures
        r == lower_char(c),
{
    let b = c as u32;
    if 65 <= b && b <= 90 {
        ((b + 32) as u8) as char
    } else {
        c
    }
}

pub fn is_digit_x(c: char) -> (r: bool)
    ensures
        r == is_digit(c),
{
    let b = c as u32;
    48 <= b && b <= 57
}

/// The digit value of `c`, which must be an ASCII digit.
pub fn digit_val_x(c: char) -> (r: u8)
    requires
        is_digit(c),
    ensures
        r as int == c as int - 48,
{
    ((c as u32) - 48) as u8
}

/// The characters of `s`, in order.
pub fn chars_of(s: &str) -> (r: Vec<char>)
    ensures
        r@ == s@,
{
    let n = s.unicode_len();
    let mut out: Vec<char> = Vec::new();
    let mut i: usize = 0;
    while i < n
        invariant
            n == s@.len(),
            i <= n,
            out@ == s@.subrange(0, i as int),
        decreases n - i,
    {
        out.push(s.get_char(i));
        i = i + 1;
        proof {
            assert(out@ =~= s@.subrange(0, i as int));
        }
    }
    proof {
        assert(out@ =~= s@);
    }
    out
}

/// Relies on `String: FromIterator<char>`: collecting chars yields the string
/// of exactly those characters in order.
#[verifier::external_body]
pub fn string_from_chars(v: &Vec<char>) -> (r: String)
    ensures
        r@ == v@,
{
    v.iter().collect()
}

/// The characters `v[from..to]` as a fresh vector.
pub fn slice_chars(v: &Vec<char>, from: usize, to: usize) -> (r: Vec<char>)
    requires
        from <= to <= v@.len(),
    ensures
        r@ == v@.subrange(from as int, to as int),
{
    let mut out: Vec<char> = Vec::new();
    let mut i: usize = from;
    while i < to
        invariant
            from <= i <= to <= v@.len(),
            out@ == v@.subrange(from as int, i as int),
        decreases to - i,
    {
        out.push(v[i]);
        i = i + 1;
        proof {
            assert(out@ =~= v@.subrange(from as int, i as int));
        }
    }
    out
}

/// Whether `v@ == s@`.
pub fn chars_eq_str(v: &Vec<char>, s: &str) -> (r: bool)
    ensures
        r == (v@ == s@),
{
    let n = s.unicode_len();
    if v.len() != n {
        return false;
    }
    let mut i: usize = 0;
    while i < n
        invariant
            n == s@.len() == v@.len(),
            i <= n,
            v@.subrange(0, i as int) == s@.subrange(0, i as int),
        decreases n - i,
    {
        if v[i] != s.get_char(i) {
            proof {
                assert(v@[i as int] != s@[i as int]);
            }
            return false;
        }
        i = i + 1;
        proof {
            assert(v@.subrange(0, i as int) =~= s@.subrange(0, i as int));
        }
    }
    proof {
        assert(v@ =~= v@.subrange(0, n as int));
        assert(s@ =~= s@.subrange(0, n as int));
    }
    true
}

/// Whether `v@.subrange(from, to) == s@`.
pub fn range_eq_str(v: &Vec<char>, from: usize, to: usize, s: &str) -> (r: bool)
    requires
        from <= to <= v@.len(),
    ensures
        r == (v@.subrange(from as int, to as int) == s@),
{
    let n = s.unicode_len();
    if to - from != n {
        proof {
            assert(v@.subrange(from as int, to as int).len() != s@.len());
        }
        return false;
    }
    let mut i: usize = 0;
    while i < n
        invariant
            from <= to <= v@.len(),
            n == s@.len(),
            to - from == n,
            i <= n,
            v@.subrange(from as int, from + i) == s@.subrange(0, i as int),
        decreases n - i,
    {
        if v[from + i] != s.get_char(i) {
            proof {
                assert(v@.subrange(from as int, to as int)[i as int] != s@[i as int]);
            }
            return false;
        }
        i = i + 1;
        proof {
            assert(v@.subrange(from as int, from + i) =~= s@.subrange(0, i as int));
        }
    }
    proof {
        assert(v@.subrange(from as int, to as int) =~= s@);
    }
    true
}

/// Index of the first occurrence of `c` in `s` at or after `i`, or `s.len()`.
pub open spec fn scan_to(s: Seq<char>, i: int, c: char) -> int
    decreases s.len() - i when 0 <= i <= s.len()
{
    if i >= s.len() {
        s.len() as int
    } else if s[i] == c {
        i
    } else {
        scan_to(s, i + 1, c)
    }
}

pub proof fn lemma_scan_to_bounds(s: Seq<char>, i: int, c: char)
    requires
        0 <= i <= s.len(),
    ensures
        i <= scan_to(s, i, c) <= s.len(),
        scan_to(s, i, c) < s.len() ==> s[scan_to(s, i, c)] == c,
        forall|j: int| i <= j < scan_to(s, i, c) ==> s[j] != c,
    decreases s.len() - i,
{
    if i < s.len() && s[i] != c {
        lemma_scan_to_bounds(s, i + 1, c);
    }
}

pub fn scan_to_x(v: &Vec<char>, i: usize, c: char) -> (r: usize)
    requires
        i <= v@.len(),
    ensures
        r as int == scan_to(v@, i as int, c),
        i <= r <= v@.len(),
    decreases v@.len() - i,
{
    if i >= v.len() {
        i
    } else if v[i] == c {
        i
    } else {
        scan_to_x(v, i + 1, c)
    }
}

/// Index of the first non-whitespace character at or after `i`, or `s.len()`.
pub open spec fn skip_ws(s: Seq<char>, i: int) -> int
    decreases s.len() - i when 0 <= i <= s.len()
{
    if i >= s.len() {
        s.len() as int
    } else if is_space(s[i]) {
        skip_ws(s, i + 1)
    } else {
        i
    }
}

pub proof fn lemma_skip_ws_bounds(s: Seq<char>, i: int)
    requires
        0 <= i <= s.len(),
    ensures
        i <= skip_ws(s, i) <= s.len(),
        skip_ws(s, i) < s.len() ==> !is_space(s[skip_ws(s, i)]),
        forall|j: int| i <= j < skip_ws(s, i) ==> is_space(s[j]),
    decreases s.len() - i,
{
    if i < s.len() && is_space(s[i]) {
        lemma_skip_ws_bounds(s, i + 1);
    }
}

pub fn skip_ws_x(v: &Vec<char>, i: usize) -> (r: usize)
    requires
        i <= v@.len(),
    ensures
        r as int == skip_ws(v@, i as int),
        i <= r <= v@.len(),
    decreases v@.len() - i,
{
    if i >= v.len() {
        i
    } else if v[i] == ' ' || v[i] == '\t' || v[i] == '\r' || v[i] == '\n' {
        skip_ws_x(v, i + 1)
    } else {
        i
    }
}

/// Index after the trailing whitespace run that ends at `j`, scanning left.
pub open spec fn rskip_ws(s: Seq<char>, j: int) -> int
    decreases j when 0 <= j <= s.len()
{
    if j <= 0 {
        0
    } else if is_space(s[j - 1]) {
        rskip_ws(s, j - 1)
    } else {
        j
    }
}

pub fn rskip_ws_x(v: &Vec<char>, j: usize) -> (r: usize)
    requires
        j <= v@.len(),
    ensures
        r as int == rskip_ws(v@, j as int),
        r <= j,
    decreases j,
{
    if j == 0 {
        0
    } else if v[j - 1] == ' ' || v[j - 1] == '\t' || v[j - 1] == '\r' || v[j - 1] == '\n' {
        rskip_ws_x(v, j - 1)
    } else {
        j
    }
}

/// `s` with leading and trailing ASCII whitespace removed.
pub open spec fn trim(s: Seq<char>) -> Seq<char> {
    let a = skip_ws(s, 0);
    let b = rskip_ws(s, s.len() as int);
    if a <= b {
        s.subrange(a, b)
    } else {
        Seq::empty()
    }
}

/// The trimmed copy of `v[from..to]`.
pub fn trim_range(v: &Vec<char>, from: usize, to: usize) -> (r: Vec<char>)
    requires
        from <= to <= v@.len(),
    ensures
        r@ == trim(v@.subrange(from as int, to as int)),
{
    let sub = slice_chars(v, from, to);
    let a = skip_ws_x(&sub, 0);
    let b = rskip_ws_x(&sub, sub.len());
    if a <= b {
        slice_chars(&sub, a, b)
    } else {
        Vec::new()
    }
}

/// The numeric value of the digit string `s` (each char assumed a digit).
pub open spec fn dec_val(s: Seq<char>) -> int
    decreases s.len(),
{
    if s.len() == 0 {
        0
    } else {
        dec_val(s.drop_last()) * 10 + (s.last() as int - 48)
    }
}

pub open spec fn all_digits(s: Seq<char>) -> bool {
    forall|i: int| 0 <= i < s.len() ==> is_digit(#[trigger] s[i])
}

/// The digit part of a decimal string: everything after an optional
/// leading `+`.
pub open spec fn dec_tail(s: Seq<char>) -> Seq<char> {
    if s.len() > 0 && s[0] == '+' {
        s.skip(1)
    } else {
        s
    }
}

/// The value `str::parse` gives an unsigned integer: an optional leading `+`,
/// then one or more digits; `None` on any other shape.
pub open spec fn spec_parse_dec(s: Seq<char>) -> Option<int> {
    if dec_tail(s).len() > 0 && all_digits(dec_tail(s)) {
        Some(dec_val(dec_tail(s)))
    } else {
        None
    }
}

pub proof fn lemma_dec_val_nonneg(s: Seq<char>)
    requires
        all_digits(s),
    ensures
        dec_val(s) >= 0,
    decreases s.len(),
{
    if s.len() > 0 {
        assert(all_digits(s.drop_last())) by {
            assert(forall|i: int|
                0 <= i < s.len() - 1 ==> is_digit(#[trigger] s.drop_last()[i]) == is_digit(s[i]));
        }
        lemma_dec_val_nonneg(s.drop_last());
    }
}

pub proof fn lemma_dec_val_step(s: Seq<char>, i: int)
    requires
        0 <= i < s.len(),
    ensures
        dec_val(s.subrange(0, i + 1)) == dec_val(s.subrange(0, i)) * 10 + (s[i] as int - 48),
{
    assert(s.subrange(0, i + 1).drop_last() =~= s.subrange(0, i));
    assert(s.subrange(0, i + 1).last() == s[i]);
}

pub proof fn lemma_dec_val_monotone(s: Seq<char>, i: int, j: int)
    requires
        all_digits(s),
        0 <= i <= j <= s.len(),
    ensures
        dec_val(s.subrange(0, i)) <= dec_val(s.subrange(0, j)),
    decreases j - i,
{
    if i < j {
        lemma_dec_val_step(s, j - 1);
        assert(all_digits(s.subrange(0, j - 1))) by {
            assert(forall|k: int|
                0 <= k < j - 1 ==> is_digit(#[trigger] s.subrange(0, j - 1)[k]) == is_digit(s[k]));
        }
        lemma_dec_val_nonneg(s.subrange(0, j - 1));
        lemma_dec_val_monotone(s, i, j - 1);
    }
}

/// Parses `v[from..to]` as `str::parse::<u64>` would.
pub fn parse_u64_range(v: &Vec<char>, from: usize, to: usize) -> (r: Option<u64>)
    requires
        from <= to <= v@.len(),
    ensures
        r matches Some(n) ==> spec_parse_dec(v@.subrange(from as int, to as int)) == Some(
            n as int,
        ),
        r is None ==> (spec_parse_dec(v@.subrange(from as int, to as int)) matches Some(m) ==> m
            > u64::MAX),
{
    let ghost s = v@.subrange(from as int, to as int);
    let mut i: usize = from;
    if i < to && v[i] == '+' {
        i = i + 1;
    }
    let ghost t = dec_tail(s);
    proof {
        assert(t =~= v@.subrange(i as int, to as int));
    }
    if i == to {
        return None;
    }
    let start = i;
    let mut acc: u64 = 0;
    while i < to
        invariant
            from <= start <= i <= to <= v@.len(),
            s == v@.subrange(from as int, to as int),
            t == dec_tail(s),
            t == v@.subrange(start as int, to as int),
            t.len() > 0,
            all_digits(t.subrange(0, i - start)),
            acc as int == dec_val(t.subrange(0, i - start)),
        decreases to - i,
    {
        let c = v[i];
        proof {
            assert(t[i - start] == v@[i as int]);
        }
        if !is_digit_x(c) {
            proof {
                assert(!all_digits(t));
                assert(spec_parse_dec(s) is None);
            }
            return None;
        }
        let d: u64 = digit_val_x(c) as u64;
        proof {
            lemma_dec_val_step(t, i - start);
            assert(all_digits(t.subrange(0, i - start + 1))) by {
                assert(forall|k: int|
                    0 <= k < i - start ==> #[trigger] t.subrange(0, i - start + 1)[k]
                        == t.subrange(0, i - start)[k]);
                assert(t.subrange(0, i - start + 1)[i - start] == t[i - start]);
            }
        }
        if acc > (u64::MAX - d) / 10 {
            // The value held so far already overflows once extended; any
            // digits that follow only increase it.
            proof {
                assert(dec_val(t.subrange(0, i - start + 1)) > u64::MAX);
                if all_digits(t) {
                    lemma_dec_val_monotone_overflow(t, i - start + 1);
                    assert(spec_parse_dec(s) == Some(dec_val(t)));
                } else {
                    assert(spec_parse_dec(s) is None);
                }
            }
            return None;
        }
        acc = acc * 10 + d;
        i = i + 1;
    }
    proof {
        assert(t.subrange(0, t.len() as int) =~= t);
    }
    Some(acc)
}

proof fn lemma_dec_val_monotone_overflow(t: Seq<char>, i: int)
    requires
        all_digits(t),
        0 <= i <= t.len(),
        dec_val(t.subrange(0, i)) > u64::MAX,
    ensures
        dec_val(t) > u64::MAX,
{
    lemma_dec_val_monotone(t, i, t.len() as int);
    assert(t.subrange(0, t.len() as int) =~= t);
}

/// `str::parse::<u8>` on `v[from..to]`.
pub fn parse_u8_range(v: &Vec<char>, from: usize, to: usize) -> (r: Option<u8>)
    requires
        from <= to <= v@.len(),
    ensures
        r == spec_parse_u8(v@.subrange(from as int, to as int)),
{
    proof {
        reveal(spec_parse_u8);
    }
    match parse_u64_range(v, from, to) {
        Some(n) => {
            if n <= 255 {
                Some(n as u8)
            } else {
                None
            }
        },
        None => None,
    }
}

/// The `u8` a decimal string denotes, or `None` when it is not one.
#[verifier::opaque]
pub open spec fn spec_parse_u8(s: Seq<char>) -> Option<u8> {
    match spec_parse_dec(s) {
        Some(n) => if 0 <= n <= 255 {
            Some(n as u8)
        } else {
            None
        },
        None => None,
    }
}

/// The `u32` a decimal string denotes, or `None` when it is not one.
#[verifier::opaque]
pub open spec fn spec_parse_u32(s: Seq<char>) -> Option<u32> {
    match spec_parse_dec(s) {
        Some(n) => if 0 <= n <= u32::MAX {
            Some(n as u32)
        } else {
            None
        },
        None => None,
    }
}

/// The `u64` a decimal string denotes, or `None` when it is not one.
#[verifier::opaque]
pub open spec fn spec_parse_u64(s: Seq<char>) -> Option<u64> {
    match spec_parse_dec(s) {
        Some(n) => if 0 <= n <= u64::MAX {
            Some(n as u64)
        } else {
            None
        },
        None => None,
    }
}

/// `str::parse::<u32>` on `v[from..to]`.
pub fn parse_u32_range(v: &Vec<char>, from: usize, to: usize) -> (r: Option<u32>)
    requires
        from <= to <= v@.len(),
    ensures
        r == spec_parse_u32(v@.subrange(from as int, to as int)),
{
    proof {
        reveal(spec_parse_u32);
    }
    match parse_u64_range(v, from, to) {
        Some(n) => {
            if n <= u32::MAX as u64 {
                Some(n as u32)
            } else {
                None
            }
        },
        None => None,
    }
}

/// `str::parse::<u64>` on the whole of `v`.
pub fn parse_u64_all(v: &Vec<char>) -> (r: Option<u64>)
    ensures
        r == spec_parse_u64(v@),
{
    proof {
        reveal(spec_parse_u64);
        assert(v@.subrange(0, v@.len() as int) =~= v@);
        if spec_parse_dec(v@) matches Some(m) {
            let t = if v@.len() > 0 && v@[0] == '+' {
                v@.skip(1)
            } else {
                v@
            };
            lemma_dec_val_nonneg(t);
        }
    }
    parse_u64_range(v, 0, v.len())
}

/// The decimal digits of `n`, most significant first.
pub open spec fn dec_str(n: int) -> Seq<char>
    decreases n when n >= 0
{
    if n < 10 {
        seq![((n + 48) as u8) as char]
    } else {
        dec_str(n / 10) + seq![((n % 10 + 48) as u8) as char]
    }
}

/// The digits of `n`, left-padded with `0` to width two, as `{:02}` formats.
pub open spec fn dec_str2(n: int) -> Seq<char> {
    if 0 <= n < 10 {
        seq!['0'] + dec_str(n)
    } else {
        dec_str(n)
    }
}

pub fn dec_chars(n: u64) -> (r: Vec<char>)
    ensures
        r@ == dec_str(n as int),
    decreases n,
{
    if n < 10 {
        let c = ((n + 48) as u8) as char;
        let mut out: Vec<char> = Vec::new();
        out.push(c);
        proof {
            assert(out@ =~= dec_str(n as int));
        }
        out
    } else {
        let mut out = dec_chars(n / 10);
        let c = ((n % 10 + 48) as u8) as char;
        out.push(c);
        proof {
            assert(out@ =~= dec_str(n as int));
        }
        out
    }
}

pub fn dec_chars2(n: u64) -> (r: Vec<char>)
    ensures
        r@ == dec_str2(n as int),
{
    if n < 10 {
        let mut out: Vec<char> = Vec::new();
        out.push('0');
        let c = ((n + 48) as u8) as char;
        out.push(c);
        proof {
            assert(out@ =~= seq!['0'] + dec_str(n as int));
        }
        out
    } else {
        dec_chars(n)
    }
}

} // verus!


verus! {

/// The `Option` of a character vector seen as an `Option` of its view.
pub open spec fn oview(o: Option<Vec<char>>) -> Option<Seq<char>> {
    match o {
        Some(v) => Some(v@),
        None => None,
    }
}

/// The `Option` of a string seen as an `Option` of its view.
pub open spec fn oview_str(o: Option<String>) -> Option<Seq<char>> {
    match o {
        Some(v) => Some(v@),
        None => None,
    }
}

/// Whether `w` occurs in `s` as a contiguous run.
pub open spec fn has_sub(s: Seq<char>, w: Seq<char>) -> bool {
    exists|k: int| 0 <= k <= s.len() - w.len() && #[trigger] s.subrange(k, k + w.len()) == w
}

/// Whether the characters of `w` occur contiguously in `v`.
pub fn contains_sub(v: &Vec<char>, w: &str) -> (r: bool)
    ensures
        r == has_sub(v@, w@),
{
    let m = w.unicode_len();
    if m > v.len() {
        return false;
    }
    if m == 0 {
        proof {
            assert(v@.subrange(0, 0 + w@.len() as int) =~= w@);
        }
        return true;
    }
    let n = v.len() - m;
    let mut k: usize = 0;
    while k <= n
        invariant
            m == w@.len(),
            1 <= m <= v@.len(),
            n == v@.len() - m,
            v@.len() <= usize::MAX,
            k <= n + 1,
            forall|j: int| 0 <= j < k ==> #[trigger] v@.subrange(j, j + w@.len()) != w@,
        decreases n + 1 - k,
    {
        proof {
            assert(k + m <= v@.len());
        }
        if range_eq_str(v, k, k + m, w) {
            return true;
        }
        k = k + 1;
    }
    false
}

/// Whether the characters of `w` occur contiguously in the string `s`.
pub fn str_contains_sub(s: &String, w: &str) -> (r: bool)
    ensures
        r == has_sub(s@, w@),
{
    let v = chars_of(s.as_str());
    contains_sub(&v, w)
}

} // verus!
