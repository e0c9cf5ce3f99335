//! Resolving device descriptions: reading the device's fields and service
//! declarations out of the description document, resolving service URLs
//! against the description's origin, and reading SCPD documents into action
//! lists. Elements are matched by local name; fields are read from the
//! first matching element within the device element's region, and services
//! from within its first `serviceList`, as descriptions declare each once.

use vstd::prelude::*;

use crate::strutil::{chars_of, scan_to, scan_to_x, slice_chars, string_from_chars};
use crate::types::{Action, Argument, Device, Service};
use crate::xmltok::{local_of, spec_tokens, tokenize, toks_view, TokV, XmlToken};
use crate::UpnpError;

verus! {

/// Index of the first start tag with local name `n` in `ts[a..b)`, or `b`.
pub open spec fn first_start_in(ts: Seq<TokV>, a: int, b: int, n: Seq<char>) -> int
    decreases b - a when 0 <= a <= b <= ts.len()
{
    if a >= b {
        b
    } else {
        match ts[a] {
            TokV::Start { name, .. } => if local_of(name) == n {
                a
            } else {
                first_start_in(ts, a + 1, b, n)
            },
            _ => first_start_in(ts, a + 1, b, n),
        }
    }
}

pub fn first_start_in_x(toks: &Vec<XmlToken>, a: usize, b: usize, n: &str) -> (r: usize)
    requires
        a <= b <= toks@.len(),
    ensures
        r as int == first_start_in(toks_view(toks@), a as int, b as int, n@),
        a <= r <= b,
    decreases b - a,
{
    proof {
        assert(toks_view(toks@).len() == toks@.len());
    }
    if a >= b {
        a
    } else {
        proof {
            assert(toks_view(toks@)[a as int] == toks@[a as int]@);
        }
        match &toks[a] {
            XmlToken::Start { name, .. } => {
                if crate::xmltok::local_eq(name, n) {
                    a
                } else {
                    first_start_in_x(toks, a + 1, b, n)
                }
            },
            _ => first_start_in_x(toks, a + 1, b, n),
        }
    }
}

/// Index of the first end tag with local name `n` in `ts[a..b)`, or `b`.
pub open spec fn first_end_in(ts: Seq<TokV>, a: int, b: int, n: Seq<char>) -> int
    decreases b - a when 0 <= a <= b <= ts.len()
{
    if a >= b {
        b
    } else {
        match ts[a] {
            TokV::End { name } => if local_of(name) == n {
                a
            } else {
                first_end_in(ts, a + 1, b, n)
            },
            _ => first_end_in(ts, a + 1, b, n),
        }
    }
}

pub fn first_end_in_x(toks: &Vec<XmlToken>, a: usize, b: usize, n: &str) -> (r: usize)
    requires
        a <= b <= toks@.len(),
    ensures
        r as int == first_end_in(toks_view(toks@), a as int, b as int, n@),
        a <= r <= b,
    decreases b - a,
{
    proof {
        assert(toks_view(toks@).len() == toks@.len());
    }
    if a >= b {
        a
    } else {
        proof {
            assert(toks_view(toks@)[a as int] == toks@[a as int]@);
        }
        match &toks[a] {
            XmlToken::End { name } => {
                if crate::xmltok::local_eq(name, n) {
                    a
                } else {
                    first_end_in_x(toks, a + 1, b, n)
                }
            },
            _ => first_end_in_x(toks, a + 1, b, n),
        }
    }
}

/// Whether an element of local name `n` starts in `ts[a..b)`.
pub open spec fn elem_exists(ts: Seq<TokV>, a: int, b: int, n: Seq<char>) -> bool {
    first_start_in(ts, a, b, n) < b
}

/// The direct text of the first element of local name `n` in `ts[a..b)`:
/// the text token directly following its start tag, or the empty string
/// when the element is absent or empty.
pub open spec fn leaf_text_in(ts: Seq<TokV>, a: int, b: int, n: Seq<char>) -> Seq<char> {
    let i = first_start_in(ts, a, b, n);
    if i < b && i + 1 < b {
        match ts[i + 1] {
            TokV::Text { text } => text,
            _ => Seq::empty(),
        }
    } else {
        Seq::empty()
    }
}

pub fn leaf_text_in_x(toks: &Vec<XmlToken>, a: usize, b: usize, n: &str) -> (r: Vec<char>)
    requires
        a <= b <= toks@.len(),
    ensures
        r@ == leaf_text_in(toks_view(toks@), a as int, b as int, n@),
{
    proof {
        assert(toks_view(toks@).len() == toks@.len());
    }
    let i = first_start_in_x(toks, a, b, n);
    if i < b && i + 1 < b {
        proof {
            assert(toks_view(toks@)[i as int + 1] == toks@[i as int + 1]@);
        }
        match &toks[i + 1] {
            XmlToken::Text { text } => {
                let r = slice_chars(text, 0, text.len());
                proof {
                    assert(r@ =~= text@);
                }
                r
            },
            _ => Vec::new(),
        }
    } else {
        Vec::new()
    }
}

/// The origin of a URL as the description resolver uses it: everything up
/// to the third `/`, so scheme, host and port.
pub open spec fn spec_origin_of(s: Seq<char>) -> Seq<char> {
    let a = scan_to(s, 0, '/');
    if a >= s.len() {
        s
    } else {
        let b = scan_to(s, a + 1, '/');
        if b >= s.len() {
            s
        } else {
            let c = scan_to(s, b + 1, '/');
            s.subrange(0, c)
        }
    }
}

/// The scheme-host-port origin of `location`.
pub fn origin_of(location: &str) -> (r: String)
    ensures
        r@ == spec_origin_of(location@),
{
    let v = chars_of(location);
    let a = scan_to_x(&v, 0, '/');
    if a >= v.len() {
        proof {
            assert(v@.subrange(0, v@.len() as int) =~= v@);
        }
        return string_from_chars(&v);
    }
    let b = scan_to_x(&v, a + 1, '/');
    if b >= v.len() {
        proof {
            assert(v@.subrange(0, v@.len() as int) =~= v@);
        }
        return string_from_chars(&v);
    }
    let c = scan_to_x(&v, b + 1, '/');
    let head = slice_chars(&v, 0, c);
    string_from_chars(&head)
}

/// Whether `s` starts with `w`.
pub open spec fn starts_with(s: Seq<char>, w: Seq<char>) -> bool {
    s.len() >= w.len() && s.subrange(0, w.len() as int) == w
}

fn starts_with_x(v: &Vec<char>, w: &str) -> (r: bool)
    ensures
        r == starts_with(v@, w@),
{
    let m = w.unicode_len();
    if v.len() < m {
        return false;
    }
    crate::strutil::range_eq_str(v, 0, m, w)
}

/// The scheme of an origin URL, colon included; the whole origin when it
/// has no colon.
pub open spec fn spec_scheme_of(base: Seq<char>) -> Seq<char> {
    let k = scan_to(base, 0, ':');
    if k < base.len() {
        base.subrange(0, k + 1)
    } else {
        base
    }
}

/// Where a reference's path ends: at the first `?` or `#`, or at its end.
pub open spec fn path_end(p: Seq<char>) -> int {
    let q = scan_to(p, 0, '?');
    let h = scan_to(p, 0, '#');
    if q < h {
        q
    } else {
        h
    }
}

/// `s` split on slashes; an empty string yields one empty segment.
pub open spec fn seg_split(s: Seq<char>) -> Seq<Seq<char>>
    decreases s.len(),
{
    let k = scan_to(s, 0, '/');
    if 0 <= k < s.len() {
        seq![s.subrange(0, k)] + seg_split(s.subrange(k + 1, s.len() as int))
    } else {
        seq![s]
    }
}

/// Removes dot segments as generic URL resolution does: `.` is dropped,
/// `..` removes the segment before it, and a trailing `.` or `..` keeps
/// the closing slash.
pub open spec fn dot_fold(segs: Seq<Seq<char>>, i: int, out: Seq<Seq<char>>) -> Seq<Seq<char>>
    decreases segs.len() - i when 0 <= i <= segs.len()
{
    if i >= segs.len() {
        out
    } else {
        let sg = segs[i];
        let out2 = if sg == "."@ {
            out
        } else if sg == ".."@ {
            if out.len() > 0 {
                out.drop_last()
            } else {
                out
            }
        } else {
            out.push(sg)
        };
        let out3 = if i == segs.len() - 1 && (sg == "."@ || sg == ".."@) {
            out2.push(Seq::empty())
        } else {
            out2
        };
        dot_fold(segs, i + 1, out3)
    }
}

/// Segments joined back into a rooted path, one `/` before each.
pub open spec fn join_segs(segs: Seq<Seq<char>>, i: int) -> Seq<char>
    decreases segs.len() - i when 0 <= i <= segs.len()
{
    if i >= segs.len() {
        Seq::empty()
    } else {
        seq!['/'] + segs[i] + join_segs(segs, i + 1)
    }
}

/// A rooted path with its dot segments removed.
pub open spec fn remove_dots(p: Seq<char>) -> Seq<char> {
    join_segs(dot_fold(seg_split(p.skip(1)), 0, Seq::empty()), 0)
}

/// An absolute URL for `rel` against the origin `base`, as generic URL
/// resolution forms it: an `http` or `https` reference stands as given
/// (it is not re-normalized); a network-path reference `//host/...` takes
/// the origin's scheme; any other reference is rooted at the origin, its
/// path's dot segments removed and its query or fragment kept.
pub open spec fn spec_absolutize(base: Seq<char>, rel: Seq<char>) -> Seq<char> {
    if starts_with(rel, "http://"@) || starts_with(rel, "https://"@) {
        rel
    } else if starts_with(rel, "//"@) {
        spec_scheme_of(base) + rel
    } else {
        let p = if rel.len() > 0 && rel[0] == '/' {
            rel
        } else {
            "/"@ + rel
        };
        let e = path_end(p);
        base + remove_dots(p.subrange(0, e)) + p.subrange(e, p.len() as int)
    }
}

/// The views of a segment list.
pub open spec fn segs_view(segs: Seq<Vec<char>>) -> Seq<Seq<char>> {
    segs.map_values(|v: Vec<char>| v@)
}

/// Splits `v` on slashes.
fn seg_split_x(v: &Vec<char>) -> (r: Vec<Vec<char>>)
    ensures
        segs_view(r@) == seg_split(v@),
    decreases v@.len(),
{
    proof {
        crate::strutil::lemma_scan_to_bounds(v@, 0, '/');
    }
    let k = scan_to_x(v, 0, '/');
    if k < v.len() {
        let head = slice_chars(v, 0, k);
        let tail = slice_chars(v, k + 1, v.len());
        let mut rest = seg_split_x(&tail);
        let ghost restv = segs_view(rest@);
        let mut out: Vec<Vec<char>> = Vec::new();
        out.push(head);
        out.append(&mut rest);
        proof {
            assert(segs_view(out@) =~= seq![v@.subrange(0, k as int)] + restv);
            assert(v@.subrange(k + 1, v@.len() as int) == tail@);
        }
        out
    } else {
        let whole = slice_chars(v, 0, v.len());
        let mut out: Vec<Vec<char>> = Vec::new();
        out.push(whole);
        proof {
            assert(v@.subrange(0, v@.len() as int) =~= v@);
            assert(segs_view(out@) =~= seq![v@]);
        }
        out
    }
}

/// Removes the dot segments of the rooted path `p`.
fn remove_dots_x(p: &Vec<char>) -> (r: Vec<char>)
    requires
        p@.len() >= 1,
    ensures
        r@ == remove_dots(p@),
{
    let tail = slice_chars(p, 1, p.len());
    proof {
        assert(tail@ =~= p@.skip(1));
    }
    let segs = seg_split_x(&tail);
    let ghost sv = segs_view(segs@);
    let mut out: Vec<Vec<char>> = Vec::new();
    let mut i: usize = 0;
    proof {
        assert(segs_view(out@) =~= Seq::<Seq<char>>::empty());
    }
    while i < segs.len()
        invariant
            i <= segs@.len(),
            sv == segs_view(segs@),
            sv.len() == segs@.len(),
            dot_fold(sv, 0, Seq::empty()) == dot_fold(sv, i as int, segs_view(out@)),
        decreases segs@.len() - i,
    {
        proof {
            assert(sv[i as int] == segs@[i as int]@);
        }
        let ghost before = segs_view(out@);
        if crate::strutil::chars_eq_str(&segs[i], ".") {
        } else if crate::strutil::chars_eq_str(&segs[i], "..") {
            if out.len() > 0 {
                let _ = out.pop();
                proof {
                    assert(segs_view(out@) =~= before.drop_last());
                }
            }
        } else {
            let sg = slice_chars(&segs[i], 0, segs[i].len());
            proof {
                assert(sg@ =~= segs@[i as int]@);
            }
            out.push(sg);
            proof {
                assert(segs_view(out@) =~= before.push(sv[i as int]));
            }
        }
        if i == segs.len() - 1 && (crate::strutil::chars_eq_str(&segs[i], ".")
            || crate::strutil::chars_eq_str(&segs[i], "..")) {
            let ghost mid = segs_view(out@);
            out.push(Vec::new());
            proof {
                assert(segs_view(out@) =~= mid.push(Seq::empty()));
            }
        }
        i = i + 1;
    }
    let ghost folded = dot_fold(sv, 0, Seq::empty());
    proof {
        assert(folded == segs_view(out@));
    }
    let mut joined: Vec<char> = Vec::new();
    let mut j: usize = 0;
    proof {
        assert(joined@ + join_segs(folded, 0) =~= join_segs(folded, 0));
    }
    while j < out.len()
        invariant
            j <= out@.len(),
            folded == segs_view(out@),
            folded.len() == out@.len(),
            join_segs(folded, 0) == joined@ + join_segs(folded, j as int),
        decreases out@.len() - j,
    {
        proof {
            assert(folded[j as int] == out@[j as int]@);
        }
        joined.push('/');
        let mut k: usize = 0;
        let ghost seg = out@[j as int]@;
        while k < out[j].len()
            invariant
                j < out@.len(),
                seg == out@[j as int]@,
                k <= seg.len(),
                folded == segs_view(out@),
                folded.len() == out@.len(),
                join_segs(folded, 0) == joined@ + seg.skip(k as int) + join_segs(
                    folded,
                    j + 1,
                ),
            decreases seg.len() - k,
        {
            joined.push(out[j][k]);
            proof {
                assert(seg.skip(k as int) =~= seq![seg[k as int]] + seg.skip(k as int + 1));
            }
            k = k + 1;
        }
        proof {
            assert(seg.skip(k as int) =~= Seq::<char>::empty());
            assert(joined@ + Seq::<char>::empty() + join_segs(folded, j + 1) =~= joined@
                + join_segs(folded, j + 1));
        }
        j = j + 1;
    }
    proof {
        assert(join_segs(folded, out@.len() as int) =~= Seq::<char>::empty());
        assert(joined@ + Seq::<char>::empty() =~= joined@);
    }
    joined
}

/// Resolves `relative_url` against the origin `base_url`.
pub fn build_absolute_url(base_url: &str, relative_url: &str) -> (r: String)
    ensures
        r@ == spec_absolutize(base_url@, relative_url@),
{
    let rv = chars_of(relative_url);
    if starts_with_x(&rv, "http://") || starts_with_x(&rv, "https://") {
        let mut out = String::new();
        out.append(relative_url);
        return out;
    }
    if starts_with_x(&rv, "//") {
        let bv = chars_of(base_url);
        let k = scan_to_x(&bv, 0, ':');
        let scheme = if k < bv.len() {
            slice_chars(&bv, 0, k + 1)
        } else {
            slice_chars(&bv, 0, bv.len())
        };
        proof {
            if !(scan_to(base_url@, 0, ':') < base_url@.len()) {
                assert(bv@.subrange(0, bv@.len() as int) =~= bv@);
            }
        }
        let mut out = string_from_chars(&scheme);
        out.append(relative_url);
        return out;
    }
    let mut p: Vec<char> = Vec::new();
    if rv.len() > 0 && rv[0] == '/' {
        p = slice_chars(&rv, 0, rv.len());
        proof {
            assert(p@ =~= rv@);
        }
    } else {
        p.push('/');
        let mut rest = slice_chars(&rv, 0, rv.len());
        p.append(&mut rest);
        proof {
            reveal_strlit("/");
            assert("/"@.len() == 1);
            assert(p@ =~= "/"@ + rv@);
        }
    }
    proof {
        crate::strutil::lemma_scan_to_bounds(p@, 0, '?');
        crate::strutil::lemma_scan_to_bounds(p@, 0, '#');
    }
    let q = scan_to_x(&p, 0, '?');
    let h = scan_to_x(&p, 0, '#');
    let e = if q < h {
        q
    } else {
        h
    };
    let path = slice_chars(&p, 0, e);
    let cleaned = remove_dots_x(&path);
    let suffix = slice_chars(&p, e, p.len());
    let mut out = String::new();
    out.append(base_url);
    out.append(string_from_chars(&cleaned).as_str());
    out.append(string_from_chars(&suffix).as_str());
    proof {
        assert(out@ =~= spec_absolutize(base_url@, relative_url@));
    }
    out
}

/// The host of an `http` URL: what stands between `://` and the next `/`,
/// up to an optional `:port`.
pub open spec fn spec_host_of(s: Seq<char>) -> Seq<char> {
    let k = scan_to(s, 0, ':');
    if k + 3 <= s.len() && s.subrange(k, k + 3) == "://"@ {
        let hp_end = scan_to(s, k + 3, '/');
        let hp = s.subrange(k + 3, hp_end);
        let c = scan_to(hp, 0, ':');
        hp.subrange(0, c)
    } else {
        Seq::empty()
    }
}

/// The host part of a device's location URL.
pub fn host_of(location: &str) -> (r: String)
    ensures
        r@ == spec_host_of(location@),
{
    let v = chars_of(location);
    let k = scan_to_x(&v, 0, ':');
    if v.len() - k >= 3 && crate::strutil::range_eq_str(&v, k, k + 3, "://") {
        let hp_end = scan_to_x(&v, k + 3, '/');
        let hp = slice_chars(&v, k + 3, hp_end);
        let c = scan_to_x(&hp, 0, ':');
        let h = slice_chars(&hp, 0, c);
        string_from_chars(&h)
    } else {
        String::new()
    }
}

} // verus!

verus! {

/// The five declaration fields of one service.
pub struct SvcV {
    pub stype: Seq<char>,
    pub sid: Seq<char>,
    pub control: Seq<char>,
    pub event: Seq<char>,
    pub scpd: Seq<char>,
}

/// Reads a service's five required fields from `ts[a..b)`; `None` when one
/// of the five elements is missing.
pub open spec fn svc_fields(ts: Seq<TokV>, a: int, b: int) -> Option<SvcV> {
    if elem_exists(ts, a, b, "serviceType"@) && elem_exists(ts, a, b, "serviceId"@) && elem_exists(
        ts,
        a,
        b,
        "controlURL"@,
    ) && elem_exists(ts, a, b, "eventSubURL"@) && elem_exists(ts, a, b, "SCPDURL"@) {
        Some(
            SvcV {
                stype: leaf_text_in(ts, a, b, "serviceType"@),
                sid: leaf_text_in(ts, a, b, "serviceId"@),
                control: leaf_text_in(ts, a, b, "controlURL"@),
                event: leaf_text_in(ts, a, b, "eventSubURL"@),
                scpd: leaf_text_in(ts, a, b, "SCPDURL"@),
            },
        )
    } else {
        None
    }
}

/// Where the scan resumes after a region that ends at `j`: past `j`, within
/// bounds, and always beyond `i`.
pub open spec fn resume_at(ts: Seq<TokV>, i: int, j: int) -> int {
    if j < i + 1 {
        ts.len() as int
    } else if j >= ts.len() {
        ts.len() as int
    } else {
        j + 1
    }
}

/// Scans `ts[i..b)` for `service` elements, reading each one's fields;
/// `None` when a service lacks a required field.
pub open spec fn svc_scan(ts: Seq<TokV>, i: int, b: int) -> Option<Seq<SvcV>>
    decreases b - i when 0 <= i <= b <= ts.len()
{
    if i >= b {
        Some(Seq::empty())
    } else {
        match ts[i] {
            TokV::Start { name, .. } => {
                if local_of(name) == "service"@ {
                    let j = first_end_in(ts, i + 1, b, "service"@);
                    match svc_fields(ts, i + 1, j) {
                        Some(v) => match svc_scan(ts, resume_at_in(i, j, b), b) {
                            Some(rest) => Some(seq![v] + rest),
                            None => None,
                        },
                        None => None,
                    }
                } else {
                    svc_scan(ts, i + 1, b)
                }
            },
            _ => svc_scan(ts, i + 1, b),
        }
    }
}

/// The region of the device element: from past its start tag to its first
/// end tag.
pub open spec fn device_region(ts: Seq<TokV>) -> (int, int) {
    let d = first_start_in(ts, 0, ts.len() as int, "device"@);
    (d + 1, first_end_in(ts, d + 1, ts.len() as int, "device"@))
}

/// What service parsing yields of a description document: `None` when the
/// document has no `device` element or a service lacks a required field;
/// the empty sequence when the device element holds no `serviceList`.
/// Services are read from the device's first `serviceList` region only, so
/// an embedded device list's services are not the root device's.
pub open spec fn spec_parse_services(s: Seq<char>) -> Option<Seq<SvcV>> {
    let ts = spec_tokens(s);
    if !elem_exists(ts, 0, ts.len() as int, "device"@) {
        None
    } else {
        let (da, db) = device_region(ts);
        let sl = first_start_in(ts, da, db, "serviceList"@);
        if sl >= db {
            Some(Seq::empty())
        } else {
            svc_scan(ts, sl + 1, first_end_in(ts, sl + 1, db, "serviceList"@))
        }
    }
}

/// A description that declares a device but no service list resolves to a
/// device with no services — it is not an error.
pub proof fn lemma_no_service_list_is_empty(s: Seq<char>)
    requires
        elem_exists(spec_tokens(s), 0, spec_tokens(s).len() as int, "device"@),
        !elem_exists(
            spec_tokens(s),
            device_region(spec_tokens(s)).0,
            device_region(spec_tokens(s)).1,
            "serviceList"@,
        ),
    ensures
        spec_parse_services(s) == Some(Seq::<SvcV>::empty()),
{
}

/// Whether an exec service carries the scanned fields, with its URLs
/// resolved against `base` and an empty action list.
pub open spec fn service_matches(svc: Service, v: SvcV, base: Seq<char>) -> bool {
    &&& svc.service_type@ == v.stype
    &&& svc.service_id@ == v.sid
    &&& svc.control_url@ == spec_absolutize(base, v.control)
    &&& svc.event_sub_url@ == spec_absolutize(base, v.event)
    &&& svc.scpd_url@ == spec_absolutize(base, v.scpd)
    &&& svc.actions@.len() == 0
}

/// Builds the service list the scan yields from `ts[i..b)`.
fn build_services(toks: &Vec<XmlToken>, i: usize, b: usize, base_url: &str) -> (r: Result<
    Vec<Service>,
    UpnpError,
>)
    requires
        i <= b <= toks@.len(),
    ensures
        match r {
            Ok(svcs) => ({
                let vs = svc_scan(toks_view(toks@), i as int, b as int);
                &&& vs is Some
                &&& svcs@.len() == vs->0.len()
                &&& forall|k: int|
                    0 <= k < svcs@.len() ==> service_matches(
                        #[trigger] svcs@[k],
                        vs->0[k],
                        base_url@,
                    )
            }),
            Err(e) => svc_scan(toks_view(toks@), i as int, b as int) is None && e
                == UpnpError::MalformedDescription,
        },
    decreases b - i,
{
    proof {
        assert(toks_view(toks@).len() == toks@.len());
    }
    if i >= b {
        return Ok(Vec::new());
    }
    proof {
        assert(toks_view(toks@)[i as int] == toks@[i as int]@);
    }
    let is_service = match &toks[i] {
        XmlToken::Start { name, .. } => crate::xmltok::local_eq(name, "service"),
        _ => false,
    };
    if is_service {
        let j = first_end_in_x(toks, i + 1, b, "service");
        let ghost ts = toks_view(toks@);
        if !(first_start_in_x(toks, i + 1, j, "serviceType") < j && first_start_in_x(
            toks,
            i + 1,
            j,
            "serviceId",
        ) < j && first_start_in_x(toks, i + 1, j, "controlURL") < j && first_start_in_x(
            toks,
            i + 1,
            j,
            "eventSubURL",
        ) < j && first_start_in_x(toks, i + 1, j, "SCPDURL") < j) {
            return Err(UpnpError::MalformedDescription);
        }
        let stype = leaf_text_in_x(toks, i + 1, j, "serviceType");
        let sid = leaf_text_in_x(toks, i + 1, j, "serviceId");
        let control = leaf_text_in_x(toks, i + 1, j, "controlURL");
        let event = leaf_text_in_x(toks, i + 1, j, "eventSubURL");
        let scpd = leaf_text_in_x(toks, i + 1, j, "SCPDURL");
        let next = if j >= b {
            b
        } else {
            j + 1
        };
        proof {
            assert(next as int == resume_at_in(i as int, j as int, b as int));
        }
        let rest = build_services(toks, next, b, base_url)?;
        let svc = Service {
            service_type: string_from_chars(&stype),
            service_id: string_from_chars(&sid),
            control_url: build_absolute_url(base_url, string_from_chars(&control).as_str()),
            event_sub_url: build_absolute_url(base_url, string_from_chars(&event).as_str()),
            scpd_url: build_absolute_url(base_url, string_from_chars(&scpd).as_str()),
            actions: Vec::new(),
        };
        let mut out: Vec<Service> = Vec::new();
        out.push(svc);
        let mut rest2 = rest;
        out.append(&mut rest2);
        proof {
            let vs = svc_scan(ts, i as int, b as int)->0;
            assert(out@.len() == vs.len());
            assert forall|k: int| 0 <= k < out@.len() implies service_matches(
                #[trigger] out@[k],
                vs[k],
                base_url@,
            ) by {
                if k == 0 {
                    assert(out@[0] == svc);
                } else {
                    assert(out@[k] == rest@[k - 1]);
                    assert(vs[k] == svc_scan(
                        ts,
                        resume_at_in(i as int, j as int, b as int),
                        b as int,
                    )->0[k - 1]);
                }
            }
        }
        Ok(out)
    } else {
        build_services(toks, i + 1, b, base_url)
    }
}

/// Reads the service declarations out of a device description. The device
/// element must exist; a device without a `serviceList` yields an empty
/// list; each service declared in the list must carry its five fields, and
/// its URLs come back resolved against `base_url`.
pub fn parse_services(base_url: &str, xml_root: &str) -> (r: Result<Vec<Service>, UpnpError>)
    ensures
        match r {
            Ok(svcs) => ({
                let vs = spec_parse_services(xml_root@);
                &&& vs is Some
                &&& svcs@.len() == vs->0.len()
                &&& forall|k: int|
                    0 <= k < svcs@.len() ==> service_matches(
                        #[trigger] svcs@[k],
                        vs->0[k],
                        base_url@,
                    )
            }),
            Err(e) => spec_parse_services(xml_root@) is None && e
                == UpnpError::MalformedDescription,
        },
{
    let v = chars_of(xml_root);
    let toks = tokenize(&v);
    proof {
        assert(toks_view(toks@).len() == toks@.len());
    }
    let d = first_start_in_x(&toks, 0, toks.len(), "device");
    if !(d < toks.len()) {
        return Err(UpnpError::MalformedDescription);
    }
    let db = first_end_in_x(&toks, d + 1, toks.len(), "device");
    let sl = first_start_in_x(&toks, d + 1, db, "serviceList");
    if !(sl < db) {
        return Ok(Vec::new());
    }
    let slend = first_end_in_x(&toks, sl + 1, db, "serviceList");
    build_services(&toks, sl + 1, slend, base_url)
}

} // verus!

verus! {

/// The three declaration fields of one action argument.
pub struct ArgV {
    pub name: Seq<char>,
    pub direction: Seq<char>,
    pub related: Seq<char>,
}

/// One action declaration: its name and its arguments.
pub struct ActV {
    pub name: Seq<char>,
    pub args: Seq<ArgV>,
}

/// Where a bounded scan resumes after a region ending at `j`: past `j`,
/// never beyond `b`, and always beyond `i`.
pub open spec fn resume_at_in(i: int, j: int, b: int) -> int {
    if j < i + 1 {
        b
    } else if j >= b {
        b
    } else {
        j + 1
    }
}

/// Reads an argument's three required fields from `ts[a..b)`.
pub open spec fn arg_fields(ts: Seq<TokV>, a: int, b: int) -> Option<ArgV> {
    if elem_exists(ts, a, b, "name"@) && elem_exists(ts, a, b, "direction"@) && elem_exists(
        ts,
        a,
        b,
        "relatedStateVariable"@,
    ) {
        Some(
            ArgV {
                name: leaf_text_in(ts, a, b, "name"@),
                direction: leaf_text_in(ts, a, b, "direction"@),
                related: leaf_text_in(ts, a, b, "relatedStateVariable"@),
            },
        )
    } else {
        None
    }
}

/// Scans `ts[i..b)` for `argument` elements.
pub open spec fn arg_scan(ts: Seq<TokV>, i: int, b: int) -> Option<Seq<ArgV>>
    decreases b - i when 0 <= i <= b <= ts.len()
{
    if i >= b {
        Some(Seq::empty())
    } else {
        match ts[i] {
            TokV::Start { name, .. } => {
                if local_of(name) == "argument"@ {
                    let j = first_end_in(ts, i + 1, b, "argument"@);
                    match arg_fields(ts, i + 1, j) {
                        Some(v) => match arg_scan(ts, resume_at_in(i, j, b), b) {
                            Some(rest) => Some(seq![v] + rest),
                            None => None,
                        },
                        None => None,
                    }
                } else {
                    arg_scan(ts, i + 1, b)
                }
            },
            _ => arg_scan(ts, i + 1, b),
        }
    }
}

/// Reads an action's name and arguments from `ts[a..b)`; its `name`
/// element is required.
pub open spec fn act_fields(ts: Seq<TokV>, a: int, b: int) -> Option<ActV> {
    if elem_exists(ts, a, b, "name"@) {
        match arg_scan(ts, a, b) {
            Some(args) => Some(ActV { name: leaf_text_in(ts, a, b, "name"@), args }),
            None => None,
        }
    } else {
        None
    }
}

/// Scans `ts` from `i` for `action` elements.
pub open spec fn act_scan(ts: Seq<TokV>, i: int) -> Option<Seq<ActV>>
    decreases ts.len() - i when 0 <= i <= ts.len()
{
    if i >= ts.len() {
        Some(Seq::empty())
    } else {
        match ts[i] {
            TokV::Start { name, .. } => {
                if local_of(name) == "action"@ {
                    let j = first_end_in(ts, i + 1, ts.len() as int, "action"@);
                    match act_fields(ts, i + 1, j) {
                        Some(v) => match act_scan(ts, resume_at(ts, i, j)) {
                            Some(rest) => Some(seq![v] + rest),
                            None => None,
                        },
                        None => None,
                    }
                } else {
                    act_scan(ts, i + 1)
                }
            },
            _ => act_scan(ts, i + 1),
        }
    }
}

/// What SCPD parsing yields: the empty list when the document declares no
/// `actionList`; otherwise its actions, `None` when one is malformed.
pub open spec fn spec_parse_scpd(s: Seq<char>) -> Option<Seq<ActV>> {
    let ts = spec_tokens(s);
    if !elem_exists(ts, 0, ts.len() as int, "actionList"@) {
        Some(Seq::empty())
    } else {
        act_scan(ts, 0)
    }
}

pub open spec fn argument_matches(a: Argument, v: ArgV) -> bool {
    &&& a.name@ == v.name
    &&& a.direction@ == v.direction
    &&& a.related_state_variable@ == v.related
}

pub open spec fn action_matches(a: Action, v: ActV) -> bool {
    &&& a.name@ == v.name
    &&& a.arguments@.len() == v.args.len()
    &&& forall|k: int| 0 <= k < v.args.len() ==> argument_matches(#[trigger] a.arguments@[k], v.args[k])
}

/// Builds the argument list scanned from `ts[i..b)`.
fn build_args(toks: &Vec<XmlToken>, i: usize, b: usize) -> (r: Result<Vec<Argument>, UpnpError>)
    requires
        i <= b <= toks@.len(),
    ensures
        match r {
            Ok(args) => ({
                let vs = arg_scan(toks_view(toks@), i as int, b as int);
                &&& vs is Some
                &&& args@.len() == vs->0.len()
                &&& forall|k: int|
                    0 <= k < args@.len() ==> argument_matches(#[trigger] args@[k], vs->0[k])
            }),
            Err(e) => arg_scan(toks_view(toks@), i as int, b as int) is None && e
                == UpnpError::MalformedDescription,
        },
    decreases b - i,
{
    proof {
        assert(toks_view(toks@).len() == toks@.len());
    }
    if i >= b {
        return Ok(Vec::new());
    }
    proof {
        assert(toks_view(toks@)[i as int] == toks@[i as int]@);
    }
    let is_arg = match &toks[i] {
        XmlToken::Start { name, .. } => crate::xmltok::local_eq(name, "argument"),
        _ => false,
    };
    if is_arg {
        let j = first_end_in_x(toks, i + 1, b, "argument");
        let ghost ts = toks_view(toks@);
        if !(first_start_in_x(toks, i + 1, j, "name") < j && first_start_in_x(
            toks,
            i + 1,
            j,
            "direction",
        ) < j && first_start_in_x(toks, i + 1, j, "relatedStateVariable") < j) {
            return Err(UpnpError::MalformedDescription);
        }
        let name = leaf_text_in_x(toks, i + 1, j, "name");
        let direction = leaf_text_in_x(toks, i + 1, j, "direction");
        let related = leaf_text_in_x(toks, i + 1, j, "relatedStateVariable");
        let next = if j >= b {
            b
        } else {
            j + 1
        };
        proof {
            assert(next as int == resume_at_in(i as int, j as int, b as int));
        }
        let rest = build_args(toks, next, b)?;
        let arg = Argument {
            name: string_from_chars(&name),
            direction: string_from_chars(&direction),
            related_state_variable: string_from_chars(&related),
        };
        let mut out: Vec<Argument> = Vec::new();
        out.push(arg);
        let mut rest2 = rest;
        out.append(&mut rest2);
        proof {
            let vs = arg_scan(ts, i as int, b as int)->0;
            assert(out@.len() == vs.len());
            assert forall|k: int| 0 <= k < out@.len() implies argument_matches(
                #[trigger] out@[k],
                vs[k],
            ) by {
                if k == 0 {
                } else {
                    assert(out@[k] == rest@[k - 1]);
                    assert(vs[k] == arg_scan(ts, next as int, b as int)->0[k - 1]);
                }
            }
        }
        Ok(out)
    } else {
        build_args(toks, i + 1, b)
    }
}

/// Builds the action list scanned from `i` on.
fn build_actions(toks: &Vec<XmlToken>, i: usize) -> (r: Result<Vec<Action>, UpnpError>)
    requires
        i <= toks@.len(),
    ensures
        match r {
            Ok(acts) => ({
                let vs = act_scan(toks_view(toks@), i as int);
                &&& vs is Some
                &&& acts@.len() == vs->0.len()
                &&& forall|k: int|
                    0 <= k < acts@.len() ==> action_matches(#[trigger] acts@[k], vs->0[k])
            }),
            Err(e) => act_scan(toks_view(toks@), i as int) is None && e
                == UpnpError::MalformedDescription,
        },
    decreases toks@.len() - i,
{
    proof {
        assert(toks_view(toks@).len() == toks@.len());
    }
    if i >= toks.len() {
        return Ok(Vec::new());
    }
    proof {
        assert(toks_view(toks@)[i as int] == toks@[i as int]@);
    }
    let is_action = match &toks[i] {
        XmlToken::Start { name, .. } => crate::xmltok::local_eq(name, "action"),
        _ => false,
    };
    if is_action {
        let j = first_end_in_x(toks, i + 1, toks.len(), "action");
        let ghost ts = toks_view(toks@);
        if !(first_start_in_x(toks, i + 1, j, "name") < j) {
            return Err(UpnpError::MalformedDescription);
        }
        let name = leaf_text_in_x(toks, i + 1, j, "name");
        let args = build_args(toks, i + 1, j)?;
        let next = if j >= toks.len() {
            toks.len()
        } else {
            j + 1
        };
        proof {
            assert(next as int == resume_at(ts, i as int, j as int));
        }
        let rest = build_actions(toks, next)?;
        let act = Action { name: string_from_chars(&name), arguments: args };
        let mut out: Vec<Action> = Vec::new();
        out.push(act);
        let mut rest2 = rest;
        out.append(&mut rest2);
        proof {
            let vs = act_scan(ts, i as int)->0;
            assert(out@.len() == vs.len());
            assert forall|k: int| 0 <= k < out@.len() implies action_matches(
                #[trigger] out@[k],
                vs[k],
            ) by {
                if k == 0 {
                } else {
                    assert(out@[k] == rest@[k - 1]);
                    assert(vs[k] == act_scan(ts, next as int)->0[k - 1]);
                }
            }
        }
        Ok(out)
    } else {
        build_actions(toks, i + 1)
    }
}

/// Reads the action declarations out of an SCPD document. A document with
/// no `actionList` yields the empty list; a declared action or argument
/// with a missing required field is an error.
pub fn parse_service_description(scpd_xml: &str) -> (r: Result<Vec<Action>, UpnpError>)
    ensures
        match r {
            Ok(acts) => ({
                let vs = spec_parse_scpd(scpd_xml@);
                &&& vs is Some
                &&& acts@.len() == vs->0.len()
                &&& forall|k: int|
                    0 <= k < acts@.len() ==> action_matches(#[trigger] acts@[k], vs->0[k])
            }),
            Err(e) => spec_parse_scpd(scpd_xml@) is None && e == UpnpError::MalformedDescription,
        },
{
    let v = chars_of(scpd_xml);
    let toks = tokenize(&v);
    proof {
        assert(toks_view(toks@).len() == toks@.len());
    }
    if !(first_start_in_x(&toks, 0, toks.len(), "actionList") < toks.len()) {
        return Ok(Vec::new());
    }
    build_actions(&toks, 0)
}

/// The text of the device's field `n` in a description document: the leaf
/// text of the first element of that name inside the `device` element's
/// region.
pub open spec fn spec_device_field(s: Seq<char>, n: Seq<char>) -> Seq<char> {
    let ts = spec_tokens(s);
    let d = first_start_in(ts, 0, ts.len() as int, "device"@);
    if d < ts.len() {
        let (da, db) = device_region(ts);
        leaf_text_in(ts, da, db, n)
    } else {
        Seq::empty()
    }
}

/// Whether an optional device field holds exactly a non-empty text.
pub open spec fn opt_field(o: Option<String>, t: Seq<char>) -> bool {
    match o {
        Some(u) => u@ == t && t.len() > 0,
        None => t.len() == 0,
    }
}

/// Reads one device field as text.
fn device_field(toks: &Vec<XmlToken>, d: usize, n: &str) -> (r: Vec<char>)
    requires
        d < toks@.len(),
        d as int == first_start_in(
            toks_view(toks@),
            0,
            toks_view(toks@).len() as int,
            "device"@,
        ),
    ensures
        ({
            let ts = toks_view(toks@);
            r@ == leaf_text_in(ts, device_region(ts).0, device_region(ts).1, n@)
        }),
{
    proof {
        assert(toks_view(toks@).len() == toks@.len());
    }
    let n2 = toks.len();
    let db = first_end_in_x(toks, d + 1, n2, "device");
    leaf_text_in_x(toks, d + 1, db, n)
}

/// Resolves a device description document into a `Device`. The services
/// come back with their URLs resolved against the location's origin and
/// with empty action lists; `enrich_device` attaches what each service's
/// SCPD declares. Fails exactly when the document lacks a `device` element
/// or declares a service without one of its required fields.
pub fn parse_location(location: &str, xml_root: &str) -> (r: Result<Device, UpnpError>)
    ensures
        match r {
            Ok(d) => ({
                let vs = spec_parse_services(xml_root@);
                &&& vs is Some
                &&& d.location@ == location@
                &&& d.device_type@ == spec_device_field(xml_root@, "deviceType"@)
                &&& d.friendly_name@ == spec_device_field(xml_root@, "friendlyName"@)
                &&& d.manufacturer@ == spec_device_field(xml_root@, "manufacturer"@)
                &&& opt_field(d.manufacturer_url, spec_device_field(xml_root@, "manufacturerURL"@))
                &&& opt_field(
                    d.model_description,
                    spec_device_field(xml_root@, "modelDescription"@),
                )
                &&& d.model_name@ == spec_device_field(xml_root@, "modelName"@)
                &&& opt_field(d.model_number, spec_device_field(xml_root@, "modelNumber"@))
                &&& d.udn@ == spec_device_field(xml_root@, "UDN"@)
                &&& d.services@.len() == vs->0.len()
                &&& forall|k: int|
                    0 <= k < d.services@.len() ==> service_matches(
                        #[trigger] d.services@[k],
                        vs->0[k],
                        spec_origin_of(location@),
                    )
            }),
            Err(e) => spec_parse_services(xml_root@) is None && e
                == UpnpError::MalformedDescription,
        },
{
    let origin = origin_of(location);
    let services = parse_services(origin.as_str(), xml_root)?;
    let v = chars_of(xml_root);
    let toks = tokenize(&v);
    proof {
        assert(toks_view(toks@).len() == toks@.len());
    }
    let d = first_start_in_x(&toks, 0, toks.len(), "device");
    if !(d < toks.len()) {
        // `parse_services` succeeded, so a device element exists.
        proof {
            assert(false);
        }
        return Err(UpnpError::MalformedDescription);
    }
    let device_type = device_field(&toks, d, "deviceType");
    let friendly_name = device_field(&toks, d, "friendlyName");
    let manufacturer = device_field(&toks, d, "manufacturer");
    let manufacturer_url = device_field(&toks, d, "manufacturerURL");
    let model_description = device_field(&toks, d, "modelDescription");
    let model_name = device_field(&toks, d, "modelName");
    let model_number = device_field(&toks, d, "modelNumber");
    let udn = device_field(&toks, d, "UDN");
    Ok(
        Device {
            location: location.to_owned(),
            device_type: string_from_chars(&device_type),
            friendly_name: string_from_chars(&friendly_name),
            manufacturer: string_from_chars(&manufacturer),
            manufacturer_url: if manufacturer_url.len() == 0 {
                None
            } else {
                Some(string_from_chars(&manufacturer_url))
            },
            model_description: if model_description.len() == 0 {
                None
            } else {
                Some(string_from_chars(&model_description))
            },
            model_name: string_from_chars(&model_name),
            model_number: if model_number.len() == 0 {
                None
            } else {
                Some(string_from_chars(&model_number))
            },
            services,
            udn: string_from_chars(&udn),
        },
    )
}

/// Whether `out` is `s` with exactly the given SCPD result attached: the
/// declaration fields are kept; the action list is what the SCPD declares,
/// and stays empty when the SCPD was not retrieved or does not parse.
pub open spec fn enriched_matches(out: Service, s: Service, scpd: Option<String>) -> bool {
    &&& out.service_type@ == s.service_type@
    &&& out.service_id@ == s.service_id@
    &&& out.control_url@ == s.control_url@
    &&& out.event_sub_url@ == s.event_sub_url@
    &&& out.scpd_url@ == s.scpd_url@
    &&& match scpd {
        Some(body) => match spec_parse_scpd(body@) {
            Some(vs) => out.actions@.len() == vs.len() && (forall|k: int|
                0 <= k < vs.len() ==> action_matches(#[trigger] out.actions@[k], vs[k])),
            None => out.actions@.len() == 0,
        },
        None => out.actions@.len() == 0,
    }
}

/// Attaches each service's SCPD result to a resolved device: `scpds[k]` is
/// the body retrieved from `services[k]`'s SCPD URL, or `None` when that
/// fetch failed. A failed fetch or an unparsable SCPD leaves that
/// service's action list empty; it never fails the device.
pub fn enrich_device(device: Device, scpds: &Vec<Option<String>>) -> (r: Device)
    requires
        scpds@.len() == device.services@.len(),
    ensures
        r.location@ == device.location@,
        r.device_type@ == device.device_type@,
        r.friendly_name@ == device.friendly_name@,
        r.manufacturer@ == device.manufacturer@,
        r.manufacturer_url == device.manufacturer_url,
        r.model_description == device.model_description,
        r.model_name@ == device.model_name@,
        r.model_number == device.model_number,
        r.udn@ == device.udn@,
        r.services@.len() == device.services@.len(),
        forall|k: int|
            0 <= k < r.services@.len() ==> enriched_matches(
                #[trigger] r.services@[k],
                device.services@[k],
                scpds@[k],
            ),
{
    let Device {
        location,
        device_type,
        friendly_name,
        manufacturer,
        manufacturer_url,
        model_description,
        model_name,
        model_number,
        services,
        udn,
    } = device;
    let ghost orig = services@;
    let mut rest = services;
    let total = rest.len();
    proof {
        assert(orig.len() <= usize::MAX);
    }
    let mut out: Vec<Service> = Vec::new();
    let mut k: usize = 0;
    while rest.len() > 0
        invariant
            orig.len() <= usize::MAX,
            k + rest@.len() == orig.len(),
            k == out@.len(),
            orig.len() == scpds@.len(),
            rest@ == orig.subrange(k as int, orig.len() as int),
            forall|j: int|
                0 <= j < k ==> enriched_matches(#[trigger] out@[j], orig[j], scpds@[j]),
        decreases rest@.len(),
    {
        let s = rest.remove(0);
        proof {
            assert(s == orig[k as int]);
            assert(rest@ =~= orig.subrange(k as int + 1, orig.len() as int));
        }
        let actions: Vec<Action> = match &scpds[k] {
            Some(body) => match parse_service_description(body.as_str()) {
                Ok(a) => a,
                Err(_) => Vec::new(),
            },
            None => Vec::new(),
        };
        let Service { service_type, service_id, control_url, event_sub_url, scpd_url, actions: _ }
            = s;
        out.push(
            Service { service_type, service_id, control_url, event_sub_url, scpd_url, actions },
        );
        k = k + 1;
    }
    Device {
        location,
        device_type,
        friendly_name,
        manufacturer,
        manufacturer_url,
        model_description,
        model_name,
        model_number,
        services: out,
        udn,
    }
}

} // verus!
