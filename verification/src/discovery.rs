//! The SSDP discovery engine's pure side: the fixed M-SEARCH request and
//! the decoding of response datagrams into header lists. The caller owns
//! the multicast socket, sends the request once, and hands each received
//! datagram to `ssdp_location`; a datagram that yields a location is
//! resolved into a device, any other is skipped, and the stream never ends
//! on a bad datagram.

use vstd::prelude::*;

use crate::strutil::{chars_of, lower, lower_char_x, scan_to, slice_chars, string_from_chars, trim,
    trim_range};
use crate::xmltok::scan_pair;
use crate::UpnpError;

verus! {

/// The fixed M-SEARCH request block of a discovery round.
pub fn discovery_request() -> (r: &'static str)
    ensures
        r@
            == "M-SEARCH * HTTP/1.1\r\nHOST: 239.255.255.250:1900\r\nMAN: \"ssdp:discover\"\r\nMX: 2\r\nST: ssdp:all\r\n\r\n"@,
{
    "M-SEARCH * HTTP/1.1\r\nHOST: 239.255.255.250:1900\r\nMAN: \"ssdp:discover\"\r\nMX: 2\r\nST: ssdp:all\r\n\r\n"
}

/// The end of the header block: the first blank line, or the end of the
/// datagram.
pub open spec fn header_block_end(s: Seq<char>) -> int {
    let k = first_blank(s, 0);
    if k < s.len() {
        k
    } else {
        s.len() as int
    }
}

/// Index of the first `\r\n\r\n` at or after `i`, or `s.len()`.
pub open spec fn first_blank(s: Seq<char>, i: int) -> int
    decreases s.len() - i when 0 <= i <= s.len()
{
    if i + 3 >= s.len() {
        s.len() as int
    } else if s[i] == '\r' && s[i + 1] == '\n' && s[i + 2] == '\r' && s[i + 3] == '\n' {
        i
    } else {
        first_blank(s, i + 1)
    }
}

fn first_blank_x(v: &Vec<char>, i: usize) -> (r: usize)
    requires
        i <= v@.len(),
    ensures
        r as int == first_blank(v@, i as int),
        i <= r <= v@.len(),
    decreases v@.len() - i,
{
    if v.len() - i < 4 {
        v.len()
    } else if v[i] == '\r' && v[i + 1] == '\n' && v[i + 2] == '\r' && v[i + 3] == '\n' {
        i
    } else {
        first_blank_x(v, i + 1)
    }
}

/// The headers of the block `h`: one pair per line holding a `:`, the name
/// lower-cased, the value trimmed; lines without a `:` yield nothing.
pub open spec fn headers_of(h: Seq<char>, i: int) -> Seq<(Seq<char>, Seq<char>)>
    decreases h.len() - i when 0 <= i <= h.len()
{
    let j = scan_pair(h, i, '\r', '\n');
    let line_end = if j < h.len() {
        j
    } else {
        h.len() as int
    };
    let line = h.subrange(i, line_end);
    let k = scan_to(line, 0, ':');
    let this = if k < line.len() {
        seq![(lower(line.subrange(0, k)), trim(line.subrange(k + 1, line.len() as int)))]
    } else {
        Seq::empty()
    };
    if j < h.len() && j + 2 <= h.len() {
        if j + 2 > i {
            this + headers_of(h, j + 2)
        } else {
            this
        }
    } else {
        this
    }
}

/// The header list of a datagram: its header block split on line ends.
pub open spec fn spec_headers(s: Seq<char>) -> Seq<(Seq<char>, Seq<char>)> {
    headers_of(s.subrange(0, header_block_end(s)), 0)
}

/// Lower-cases the characters of `v`.
fn lower_chars(v: &Vec<char>) -> (r: Vec<char>)
    ensures
        r@ == lower(v@),
{
    let mut out: Vec<char> = Vec::new();
    let mut i: usize = 0;
    while i < v.len()
        invariant
            i <= v@.len(),
            out@ == v@.subrange(0, i as int).map_values(|c: char| crate::strutil::lower_char(c)),
        decreases v@.len() - i,
    {
        out.push(lower_char_x(v[i]));
        proof {
            assert(out@ =~= v@.subrange(0, i + 1).map_values(
                |c: char| crate::strutil::lower_char(c),
            ));
        }
        i = i + 1;
    }
    proof {
        assert(v@.subrange(0, i as int) =~= v@);
    }
    out
}

/// Splits a raw HTTP-response-like datagram into its headers: the block
/// before the first blank line, one `(name, value)` pair per header line,
/// names lower-cased and values trimmed. Decoding never fails; the
/// `Result` reports no error.
pub fn parse_raw_http_response(response_str: &str) -> (r: Result<Vec<(String, String)>, UpnpError>)
    ensures
        match r {
            Ok(hs) => hs@.map_values(|p: (String, String)| (p.0@, p.1@)) == spec_headers(
                response_str@,
            ),
            Err(_) => false,
        },
{
    let v = chars_of(response_str);
    let end = first_blank_x(&v, 0);
    let block = slice_chars(&v, 0, end);
    proof {
        assert(block@ == v@.subrange(0, header_block_end(v@)));
    }
    let mut out: Vec<(String, String)> = Vec::new();
    let mut i: usize = 0;
    let ghost whole = block@;
    proof {
        assert(Seq::<(Seq<char>, Seq<char>)>::empty() + headers_of(whole, 0) =~= headers_of(
            whole,
            0,
        ));
    }
    let mut done: bool = false;
    while !done
        invariant
            i <= block@.len(),
            whole == block@,
            !done ==> headers_of(whole, 0) == out@.map_values(|p: (String, String)| (p.0@, p.1@))
                + headers_of(whole, i as int),
            done ==> headers_of(whole, 0) == out@.map_values(|p: (String, String)| (p.0@, p.1@)),
        decreases block@.len() - i + (if done { 0int } else { 1int }),
    {
        let ghost prev = out@.map_values(|p: (String, String)| (p.0@, p.1@));
        let j = crate::xmltok::scan_pair_x(&block, i, '\r', '\n');
        let line_end = if j < block.len() {
            j
        } else {
            block.len()
        };
        let line = slice_chars(&block, i, line_end);
        let k = crate::strutil::scan_to_x(&line, 0, ':');
        if k < line.len() {
            let name = lower_chars(&slice_chars(&line, 0, k));
            let value = trim_range(&line, k + 1, line.len());
            out.push((string_from_chars(&name), string_from_chars(&value)));
            proof {
                assert(out@.map_values(|p: (String, String)| (p.0@, p.1@)) =~= prev + seq![
                    (
                        lower(line@.subrange(0, k as int)),
                        trim(line@.subrange(k as int + 1, line@.len() as int)),
                    ),
                ]);
            }
        }
        if j < block.len() && j + 2 <= block.len() && j + 2 > i {
            proof {
                assert(prev + (headers_of(whole, i as int)) =~= prev + ((headers_of(
                    whole,
                    i as int,
                ).subrange(0, headers_of(whole, i as int).len() as int))));
            }
            i = j + 2;
        } else {
            done = true;
        }
        proof {
            if !done {
                assert(headers_of(whole, 0) =~= out@.map_values(
                    |p: (String, String)| (p.0@, p.1@),
                ) + headers_of(whole, i as int));
            } else {
                assert(headers_of(whole, 0) =~= out@.map_values(
                    |p: (String, String)| (p.0@, p.1@),
                ));
            }
        }
    }
    Ok(out)
}

/// The value of the last header named `n` (after lower-casing), as a
/// lookup in an insertion-ordered header list finds it.
pub open spec fn header_last(hs: Seq<(Seq<char>, Seq<char>)>, n: Seq<char>) -> Option<Seq<char>>
    decreases hs.len(),
{
    if hs.len() == 0 {
        None
    } else if hs.last().0 == n {
        Some(hs.last().1)
    } else {
        header_last(hs.drop_last(), n)
    }
}

/// What discovery reads from one datagram: the `location` header's value,
/// or nothing when the datagram carries none.
pub open spec fn spec_ssdp_location(s: Seq<char>) -> Option<Seq<char>> {
    header_last(spec_headers(s), "location"@)
}

/// Reads the device-description location out of one SSDP response
/// datagram. Exactly the datagrams whose header block carries a
/// `location` header yield a location; a malformed or location-less
/// datagram yields none, and the discovery loop goes on with the next.
pub fn ssdp_location(response_str: &str) -> (r: Option<String>)
    ensures
        match r {
            Some(loc) => spec_ssdp_location(response_str@) == Some(loc@),
            None => spec_ssdp_location(response_str@) is None,
        },
{
    let headers = match parse_raw_http_response(response_str) {
        Ok(hs) => hs,
        Err(_) => {
            return None;
        },
    };
    let ghost hv = headers@.map_values(|p: (String, String)| (p.0@, p.1@));
    let mut found: Option<String> = None;
    let mut i: usize = 0;
    while i < headers.len()
        invariant
            i <= headers@.len(),
            hv == headers@.map_values(|p: (String, String)| (p.0@, p.1@)),
            hv.len() == headers@.len(),
            match found {
                Some(t) => header_last(hv.subrange(0, i as int), "location"@) == Some(t@),
                None => header_last(hv.subrange(0, i as int), "location"@) is None,
            },
        decreases headers@.len() - i,
    {
        proof {
            assert(hv.subrange(0, i + 1).last() == hv[i as int]);
            assert(hv.subrange(0, i + 1).drop_last() =~= hv.subrange(0, i as int));
            assert(hv[i as int] == (headers@[i as int].0@, headers@[i as int].1@));
        }
        if crate::strutil::chars_eq_str(&chars_of(headers[i].0.as_str()), "location") {
            found = Some(headers[i].1.clone());
        }
        i = i + 1;
    }
    proof {
        assert(hv.subrange(0, hv.len() as int) =~= hv);
    }
    found
}

} // verus!

verus! {

/// A name is found in a header list exactly when some header carries it.
proof fn lemma_header_last_iff(hs: Seq<(Seq<char>, Seq<char>)>, n: Seq<char>)
    ensures
        (header_last(hs, n) is Some) <==> exists|k: int|
            0 <= k < hs.len() && (#[trigger] hs[k]).0 == n,
    decreases hs.len(),
{
    if hs.len() == 0 {
    } else if hs.last().0 == n {
        assert(hs[hs.len() - 1].0 == n);
    } else {
        lemma_header_last_iff(hs.drop_last(), n);
        if header_last(hs, n) is Some {
            let k = choose|k: int| 0 <= k < hs.drop_last().len() && (#[trigger] hs.drop_last()[k]).0
                == n;
            assert(hs[k].0 == n);
        }
        if exists|k: int| 0 <= k < hs.len() && (#[trigger] hs[k]).0 == n {
            let k = choose|k: int| 0 <= k < hs.len() && (#[trigger] hs[k]).0 == n;
            assert(k < hs.len() - 1);
            assert(hs.drop_last()[k].0 == n);
        }
    }
}

/// One datagram yields a description location exactly when its header
/// block carries a `location` header: those responses each turn into one
/// resolution attempt, and every other datagram yields none.
pub proof fn lemma_location_header_decides(s: Seq<char>)
    ensures
        (spec_ssdp_location(s) is Some) <==> exists|k: int|
            0 <= k < spec_headers(s).len() && (#[trigger] spec_headers(s)[k]).0 == "location"@,
{
    lemma_header_last_iff(spec_headers(s), "location"@);
}

} // verus!
