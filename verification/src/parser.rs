//! Decoders for SOAP response bodies and LastChange event payloads. Each
//! decoder scans the document's tokens exactly as its specification
//! function does; a name is matched by its local part, as the wire formats
//! use varying namespace prefixes. Where a field occurs more than once,
//! the last occurrence wins — deliberately, so a decoder never gives up on
//! a document whose later occurrence is the well-formed one.

use vstd::prelude::*;

use crate::strutil::{
    chars_of, dec_val, has_sub, is_digit, oview, oview_str, parse_u32_range, parse_u64_all,
    parse_u8_range, slice_chars, spec_parse_u32, spec_parse_u64, spec_parse_u8, string_from_chars,
};
use crate::types::{spec_object_class_of, Metadata, ObjectClass, TransportInfo};
use crate::xmltok::{
    local_of, spec_attr_last, spec_tokens, tokenize, toks_view, TokV, XmlAttr, XmlToken,
};
use crate::UpnpError;

verus! {

/// Runs the in-element text scan: `inx` tracks whether the scan stands
/// inside an element whose local name is `n`; the last text seen there wins.
pub open spec fn text_in_loop(
    ts: Seq<TokV>,
    i: int,
    inx: bool,
    cur: Option<Seq<char>>,
    n: Seq<char>,
) -> Option<Seq<char>>
    decreases ts.len() - i when 0 <= i <= ts.len()
{
    if i >= ts.len() {
        cur
    } else {
        match ts[i] {
            TokV::Start { name, .. } => text_in_loop(
                ts,
                i + 1,
                if local_of(name) == n {
                    true
                } else {
                    inx
                },
                cur,
                n,
            ),
            TokV::End { name } => text_in_loop(
                ts,
                i + 1,
                if local_of(name) == n {
                    false
                } else {
                    inx
                },
                cur,
                n,
            ),
            TokV::Text { text } => text_in_loop(
                ts,
                i + 1,
                inx,
                if inx {
                    Some(text)
                } else {
                    cur
                },
                n,
            ),
        }
    }
}

/// The last text run inside an element whose local name is `n`.
pub open spec fn spec_text_in(ts: Seq<TokV>, n: Seq<char>) -> Option<Seq<char>> {
    text_in_loop(ts, 0, false, None, n)
}

/// Finds the last text run inside an element of local name `n`.
pub fn text_in(toks: &Vec<XmlToken>, n: &str) -> (r: Option<Vec<char>>)
    ensures
        match r {
            Some(t) => spec_text_in(toks_view(toks@), n@) == Some(t@),
            None => spec_text_in(toks_view(toks@), n@) is None,
        },
{
    let ghost tsv = toks_view(toks@);
    let mut inx: bool = false;
    let mut cur: Option<Vec<char>> = None;
    let mut i: usize = 0;
    while i < toks.len()
        invariant
            i <= toks@.len(),
            tsv == toks_view(toks@),
            tsv.len() == toks@.len(),
            spec_text_in(tsv, n@) == text_in_loop(
                tsv,
                i as int,
                inx,
                match cur {
                    Some(t) => Some(t@),
                    None => None,
                },
                n@,
            ),
        decreases toks@.len() - i,
    {
        proof {
            assert(tsv[i as int] == toks@[i as int]@);
        }
        match &toks[i] {
            XmlToken::Start { name, .. } => {
                if crate::xmltok::local_eq(name, n) {
                    inx = true;
                }
            },
            XmlToken::End { name } => {
                if crate::xmltok::local_eq(name, n) {
                    inx = false;
                }
            },
            XmlToken::Text { text } => {
                if inx {
                    let copied = slice_chars(text, 0, text.len());
                    proof {
                        assert(copied@ =~= text@);
                    }
                    cur = Some(copied);
                }
            },
        }
        i = i + 1;
    }
    cur
}

/// Runs the attribute scan: each start element of local name `n` that
/// carries a `val` attribute replaces the value seen so far.
pub open spec fn val_attr_loop(ts: Seq<TokV>, i: int, cur: Option<Seq<char>>, n: Seq<char>) -> Option<
    Seq<char>,
>
    decreases ts.len() - i when 0 <= i <= ts.len()
{
    if i >= ts.len() {
        cur
    } else {
        match ts[i] {
            TokV::Start { name, attrs } => val_attr_loop(
                ts,
                i + 1,
                if local_of(name) == n {
                    match spec_attr_last(attrs, "val"@) {
                        Some(v) => Some(v),
                        None => cur,
                    }
                } else {
                    cur
                },
                n,
            ),
            _ => val_attr_loop(ts, i + 1, cur, n),
        }
    }
}

/// The `val` attribute of the last element of local name `n` that has one.
pub open spec fn spec_val_attr(ts: Seq<TokV>, n: Seq<char>) -> Option<Seq<char>> {
    val_attr_loop(ts, 0, None, n)
}

/// Finds the `val` attribute of the last element of local name `n` that
/// carries one.
pub fn val_attr(toks: &Vec<XmlToken>, n: &str) -> (r: Option<Vec<char>>)
    ensures
        match r {
            Some(t) => spec_val_attr(toks_view(toks@), n@) == Some(t@),
            None => spec_val_attr(toks_view(toks@), n@) is None,
        },
{
    let ghost tsv = toks_view(toks@);
    let mut cur: Option<Vec<char>> = None;
    let mut i: usize = 0;
    while i < toks.len()
        invariant
            i <= toks@.len(),
            tsv == toks_view(toks@),
            tsv.len() == toks@.len(),
            spec_val_attr(tsv, n@) == val_attr_loop(
                tsv,
                i as int,
                match cur {
                    Some(t) => Some(t@),
                    None => None,
                },
                n@,
            ),
        decreases toks@.len() - i,
    {
        proof {
            assert(tsv[i as int] == toks@[i as int]@);
        }
        match &toks[i] {
            XmlToken::Start { name, attrs } => {
                if crate::xmltok::local_eq(name, n) {
                    match crate::xmltok::attr_last(attrs, "val") {
                        Some(v) => {
                            cur = Some(v);
                        },
                        None => {},
                    }
                }
            },
            _ => {},
        }
        i = i + 1;
    }
    cur
}

/// What volume decoding yields of a response body: the text of the last
/// `CurrentVolume` element, read as a `u8`.
pub open spec fn spec_parse_volume(s: Seq<char>) -> Option<u8> {
    match spec_text_in(spec_tokens(s), "CurrentVolume"@) {
        Some(t) => spec_parse_u8(t),
        None => None,
    }
}

/// Reads the current volume from a GetVolume SOAP response.
pub fn parse_volume(xml_root: &str) -> (r: Result<u8, UpnpError>)
    ensures
        match r {
            Ok(n) => spec_parse_volume(xml_root@) == Some(n),
            Err(e) => spec_parse_volume(xml_root@) is None && e == UpnpError::MalformedDescription,
        },
{
    let v = chars_of(xml_root);
    let toks = tokenize(&v);
    match text_in(&toks, "CurrentVolume") {
        Some(t) => match parse_u8_range(&t, 0, t.len()) {
            Some(n) => {
                proof {
                    assert(t@.subrange(0, t@.len() as int) =~= t@);
                }
                Ok(n)
            },
            None => {
                proof {
                    assert(t@.subrange(0, t@.len() as int) =~= t@);
                }
                Err(UpnpError::MalformedDescription)
            },
        },
        None => Err(UpnpError::MalformedDescription),
    }
}

/// `s` with every `:` removed.
pub open spec fn strip_colons(s: Seq<char>) -> Seq<char>
    decreases s.len(),
{
    if s.len() == 0 {
        Seq::empty()
    } else if s[0] == ':' {
        strip_colons(s.skip(1))
    } else {
        seq![s[0]] + strip_colons(s.skip(1))
    }
}

/// Removes every `:` from `v`.
pub fn strip_colons_x(v: &Vec<char>) -> (r: Vec<char>)
    ensures
        r@ == strip_colons(v@),
{
    let ghost whole = v@;
    let mut out: Vec<char> = Vec::new();
    let mut i: usize = 0;
    proof {
        assert(v@.skip(0) =~= v@);
        assert(Seq::<char>::empty() + strip_colons(v@) =~= strip_colons(v@));
    }
    while i < v.len()
        invariant
            i <= v@.len(),
            strip_colons(whole) == out@ + strip_colons(v@.skip(i as int)),
            whole == v@,
        decreases v@.len() - i,
    {
        let ghost rem = v@.skip(i as int);
        let c = v[i];
        proof {
            assert(rem[0] == c);
            assert(rem.skip(1) =~= v@.skip(i + 1));
        }
        if c != ':' {
            out.push(c);
        }
        i = i + 1;
    }
    proof {
        assert(v@.skip(i as int) =~= Seq::<char>::empty());
        assert(out@ + Seq::<char>::empty() =~= out@);
    }
    out
}

/// A two-character digit string denotes a value under one hundred.
proof fn lemma_small_parse_u32(t: Seq<char>)
    requires
        t.len() <= 2,
    ensures
        spec_parse_u32(t) matches Some(n) ==> n <= 99,
{
    reveal(spec_parse_u32);
    let d = crate::strutil::dec_tail(t);
    if d.len() > 0 && crate::strutil::all_digits(d) {
        assert(d.len() <= 2);
        if d.len() == 1 {
            assert(dec_val(d) == dec_val(d.drop_last()) * 10 + (d.last() as int - 48));
            assert(d.drop_last().len() == 0);
            assert(is_digit(d[0]));
        } else {
            assert(dec_val(d) == dec_val(d.drop_last()) * 10 + (d.last() as int - 48));
            let e = d.drop_last();
            assert(e.len() == 1);
            assert(dec_val(e) == dec_val(e.drop_last()) * 10 + (e.last() as int - 48));
            assert(e.drop_last().len() == 0);
            assert(is_digit(e[0]) && is_digit(d[1]));
        }
    }
}

/// The seconds a `HH:MM:SS`-style string denotes: colons are dropped, the
/// first three two-digit groups are read, and anything after them is
/// ignored; `None` when fewer than six characters remain or a group is not
/// numeric.
pub open spec fn spec_hms_seconds(t: Seq<char>) -> Option<u32> {
    let d = strip_colons(t);
    if d.len() >= 6 {
        match (spec_parse_u32(d.subrange(0, 2)), spec_parse_u32(d.subrange(2, 4)), spec_parse_u32(
            d.subrange(4, 6),
        )) {
            (Some(h), Some(m), Some(sec)) => Some((h * 3600 + m * 60 + sec) as u32),
            _ => None,
        }
    } else {
        None
    }
}

/// Reads a `HH:MM:SS` group out of `v` as seconds.
pub fn hms_seconds(v: &Vec<char>) -> (r: Option<u32>)
    ensures
        r == spec_hms_seconds(v@),
{
    let d = strip_colons_x(v);
    if d.len() >= 6 {
        let h = parse_u32_range(&d, 0, 2);
        let m = parse_u32_range(&d, 2, 4);
        let sec = parse_u32_range(&d, 4, 6);
        match (h, m, sec) {
            (Some(h), Some(m), Some(sec)) => {
                proof {
                    lemma_small_parse_u32(d@.subrange(0, 2));
                    lemma_small_parse_u32(d@.subrange(2, 4));
                    lemma_small_parse_u32(d@.subrange(4, 6));
                }
                Some(h * 3600 + m * 60 + sec)
            },
            _ => None,
        }
    } else {
        None
    }
}

/// What duration decoding yields: the last `MediaDuration` text, read as
/// `HH:MM:SS`.
pub open spec fn spec_parse_duration(s: Seq<char>) -> Option<u32> {
    match spec_text_in(spec_tokens(s), "MediaDuration"@) {
        Some(t) => spec_hms_seconds(t),
        None => None,
    }
}

/// Reads the media duration, in seconds, from a GetMediaInfo SOAP response.
pub fn parse_duration(xml_root: &str) -> (r: Result<u32, UpnpError>)
    ensures
        match r {
            Ok(n) => spec_parse_duration(xml_root@) == Some(n),
            Err(e) => spec_parse_duration(xml_root@) is None && e
                == UpnpError::MalformedDescription,
        },
{
    let v = chars_of(xml_root);
    let toks = tokenize(&v);
    match text_in(&toks, "MediaDuration") {
        Some(t) => match hms_seconds(&t) {
            Some(n) => Ok(n),
            None => Err(UpnpError::MalformedDescription),
        },
        None => Err(UpnpError::MalformedDescription),
    }
}

/// What position decoding yields: the last `RelTime` text, read as
/// `HH:MM:SS`.
pub open spec fn spec_parse_position(s: Seq<char>) -> Option<u32> {
    match spec_text_in(spec_tokens(s), "RelTime"@) {
        Some(t) => spec_hms_seconds(t),
        None => None,
    }
}

/// Reads the playback position, in seconds, from a GetPositionInfo SOAP
/// response.
pub fn parse_position(xml_root: &str) -> (r: Result<u32, UpnpError>)
    ensures
        match r {
            Ok(n) => spec_parse_position(xml_root@) == Some(n),
            Err(e) => spec_parse_position(xml_root@) is None && e
                == UpnpError::MalformedDescription,
        },
{
    let v = chars_of(xml_root);
    let toks = tokenize(&v);
    match text_in(&toks, "RelTime") {
        Some(t) => match hms_seconds(&t) {
            Some(n) => Ok(n),
            None => Err(UpnpError::MalformedDescription),
        },
        None => Err(UpnpError::MalformedDescription),
    }
}

/// `s` split on commas; an empty string yields one empty part.
pub open spec fn spec_split_commas(s: Seq<char>) -> Seq<Seq<char>>
    decreases s.len(),
{
    let k = crate::strutil::scan_to(s, 0, ',');
    if 0 <= k < s.len() {
        seq![s.subrange(0, k)] + spec_split_commas(s.subrange(k + 1, s.len() as int))
    } else {
        seq![s]
    }
}

/// Splits `v` on commas.
pub fn split_commas(v: &Vec<char>) -> (r: Vec<String>)
    ensures
        r@.map_values(|x: String| x@) == spec_split_commas(v@),
    decreases v@.len(),
{
    proof {
        crate::strutil::lemma_scan_to_bounds(v@, 0, ',');
    }
    let k = crate::strutil::scan_to_x(v, 0, ',');
    if k < v.len() {
        let head = slice_chars(v, 0, k);
        let tail = slice_chars(v, k + 1, v.len());
        let head_s = string_from_chars(&head);
        let mut rest = split_commas(&tail);
        let ghost restv = rest@.map_values(|x: String| x@);
        let mut out: Vec<String> = Vec::new();
        out.push(head_s);
        out.append(&mut rest);
        proof {
            assert(out@.map_values(|x: String| x@) =~= seq![head@] + restv);
            assert(v@.subrange(k + 1, v@.len() as int) == tail@);
        }
        out
    } else {
        let whole = string_from_chars(v);
        let mut out: Vec<String> = Vec::new();
        out.push(whole);
        proof {
            assert(out@.map_values(|x: String| x@) =~= seq![v@]);
        }
        out
    }
}

/// What protocol decoding yields: the last `Sink` text — or the empty
/// string when there is none — split on commas.
pub open spec fn spec_parse_protocols(s: Seq<char>) -> Seq<Seq<char>> {
    match spec_text_in(spec_tokens(s), "Sink"@) {
        Some(t) => spec_split_commas(t),
        None => spec_split_commas(Seq::empty()),
    }
}

/// Reads the supported protocol list from a GetProtocolInfo SOAP response.
pub fn parse_supported_protocols(xml_root: &str) -> (r: Result<Vec<String>, UpnpError>)
    ensures
        match r {
            Ok(ps) => ps@.map_values(|x: String| x@) == spec_parse_protocols(xml_root@),
            Err(_) => false,
        },
{
    let v = chars_of(xml_root);
    let toks = tokenize(&v);
    match text_in(&toks, "Sink") {
        Some(t) => Ok(split_commas(&t)),
        None => {
            let empty: Vec<char> = Vec::new();
            let r = split_commas(&empty);
            proof {
                assert(empty@ =~= Seq::<char>::empty());
            }
            Ok(r)
        },
    }
}

/// What LastChange extraction yields: the last `LastChange` text, which
/// carries the event's inner document.
pub open spec fn spec_parse_last_change(s: Seq<char>) -> Option<Seq<char>> {
    spec_text_in(spec_tokens(s), "LastChange"@)
}

/// Extracts the `LastChange` payload of a NOTIFY body.
pub fn parse_last_change(xml_root: &str) -> (r: Result<Option<String>, UpnpError>)
    ensures
        match r {
            Ok(Some(t)) => spec_parse_last_change(xml_root@) == Some(t@),
            Ok(None) => spec_parse_last_change(xml_root@) is None,
            Err(_) => false,
        },
{
    let v = chars_of(xml_root);
    let toks = tokenize(&v);
    match text_in(&toks, "LastChange") {
        Some(t) => Ok(Some(string_from_chars(&t))),
        None => Ok(None),
    }
}

/// What play-mode decoding yields: the `val` attribute of the last
/// `CurrentPlayMode` element.
pub open spec fn spec_parse_current_play_mode(s: Seq<char>) -> Option<Seq<char>> {
    spec_val_attr(spec_tokens(s), "CurrentPlayMode"@)
}

/// Reads the current play mode from a LastChange payload.
pub fn parse_current_play_mode(xml_root: &str) -> (r: Result<Option<String>, UpnpError>)
    ensures
        match r {
            Ok(Some(t)) => spec_parse_current_play_mode(xml_root@) == Some(t@),
            Ok(None) => spec_parse_current_play_mode(xml_root@) is None,
            Err(_) => false,
        },
{
    let v = chars_of(xml_root);
    let toks = tokenize(&v);
    match val_attr(&toks, "CurrentPlayMode") {
        Some(t) => Ok(Some(string_from_chars(&t))),
        None => Ok(None),
    }
}

/// What transport-state decoding yields: the `val` attribute of the last
/// `TransportState` element.
pub open spec fn spec_parse_transport_state(s: Seq<char>) -> Option<Seq<char>> {
    spec_val_attr(spec_tokens(s), "TransportState"@)
}

/// Reads the transport state from a LastChange payload.
pub fn parse_transport_state(xml_root: &str) -> (r: Result<Option<String>, UpnpError>)
    ensures
        match r {
            Ok(Some(t)) => spec_parse_transport_state(xml_root@) == Some(t@),
            Ok(None) => spec_parse_transport_state(xml_root@) is None,
            Err(_) => false,
        },
{
    let v = chars_of(xml_root);
    let toks = tokenize(&v);
    match val_attr(&toks, "TransportState") {
        Some(t) => Ok(Some(string_from_chars(&t))),
        None => Ok(None),
    }
}

/// What URI-metadata decoding yields: the `val` attribute of the last
/// `AVTransportURIMetaData` element.
pub open spec fn spec_parse_av_transport_uri_metadata(s: Seq<char>) -> Option<Seq<char>> {
    spec_val_attr(spec_tokens(s), "AVTransportURIMetaData"@)
}

/// Reads the AVTransport URI metadata document from a LastChange payload.
pub fn parse_av_transport_uri_metadata(xml_root: &str) -> (r: Result<Option<String>, UpnpError>)
    ensures
        match r {
            Ok(Some(t)) => spec_parse_av_transport_uri_metadata(xml_root@) == Some(t@),
            Ok(None) => spec_parse_av_transport_uri_metadata(xml_root@) is None,
            Err(_) => false,
        },
{
    let v = chars_of(xml_root);
    let toks = tokenize(&v);
    match val_attr(&toks, "AVTransportURIMetaData") {
        Some(t) => Ok(Some(string_from_chars(&t))),
        None => Ok(None),
    }
}

/// What track-metadata decoding yields: the `val` attribute of the last
/// `CurrentTrackMetaData` element.
pub open spec fn spec_parse_current_track_metadata(s: Seq<char>) -> Option<Seq<char>> {
    spec_val_attr(spec_tokens(s), "CurrentTrackMetaData"@)
}

/// Reads the current-track metadata document from a LastChange payload.
pub fn parse_current_track_metadata(xml_root: &str) -> (r: Result<Option<String>, UpnpError>)
    ensures
        match r {
            Ok(Some(t)) => spec_parse_current_track_metadata(xml_root@) == Some(t@),
            Ok(None) => spec_parse_current_track_metadata(xml_root@) is None,
            Err(_) => false,
        },
{
    let v = chars_of(xml_root);
    let toks = tokenize(&v);
    match val_attr(&toks, "CurrentTrackMetaData") {
        Some(t) => Ok(Some(string_from_chars(&t))),
        None => Ok(None),
    }
}

} // verus!

verus! {

/// The running state of the playable-item metadata scan.
pub struct MetaScan {
    pub in_title: bool,
    pub in_artist: bool,
    pub in_album: bool,
    pub in_album_art: bool,
    pub in_genre: bool,
    pub url: Seq<char>,
    pub title: Option<Seq<char>>,
    pub artist: Option<Seq<char>>,
    pub album: Option<Seq<char>>,
    pub album_art: Option<Seq<char>>,
    pub genre: Option<Seq<char>>,
}

/// The metadata scan's starting state.
pub open spec fn meta_init() -> MetaScan {
    MetaScan {
        in_title: false,
        in_artist: false,
        in_album: false,
        in_album_art: false,
        in_genre: false,
        url: Seq::empty(),
        title: None,
        artist: None,
        album: None,
        album_art: None,
        genre: None,
    }
}

/// One token's effect on the metadata scan: an `item` start element donates
/// its `id` attribute as the URL; text inside `title`, `artist`, `album`,
/// `albumArtURI` or `genre` elements is captured, the last run winning.
pub open spec fn meta_step(st: MetaScan, t: TokV) -> MetaScan {
    match t {
        TokV::Start { name, attrs } => MetaScan {
            in_title: if local_of(name) == "title"@ {
                true
            } else {
                st.in_title
            },
            in_artist: if local_of(name) == "artist"@ {
                true
            } else {
                st.in_artist
            },
            in_album: if local_of(name) == "album"@ {
                true
            } else {
                st.in_album
            },
            in_album_art: if local_of(name) == "albumArtURI"@ {
                true
            } else {
                st.in_album_art
            },
            in_genre: if local_of(name) == "genre"@ {
                true
            } else {
                st.in_genre
            },
            url: if local_of(name) == "item"@ {
                match spec_attr_last(attrs, "id"@) {
                    Some(u) => u,
                    None => st.url,
                }
            } else {
                st.url
            },
            title: st.title,
            artist: st.artist,
            album: st.album,
            album_art: st.album_art,
            genre: st.genre,
        },
        TokV::End { name } => MetaScan {
            in_title: if local_of(name) == "title"@ {
                false
            } else {
                st.in_title
            },
            in_artist: if local_of(name) == "artist"@ {
                false
            } else {
                st.in_artist
            },
            in_album: if local_of(name) == "album"@ {
                false
            } else {
                st.in_album
            },
            in_album_art: if local_of(name) == "albumArtURI"@ {
                false
            } else {
                st.in_album_art
            },
            in_genre: if local_of(name) == "genre"@ {
                false
            } else {
                st.in_genre
            },
            url: st.url,
            title: st.title,
            artist: st.artist,
            album: st.album,
            album_art: st.album_art,
            genre: st.genre,
        },
        TokV::Text { text } => MetaScan {
            in_title: st.in_title,
            in_artist: st.in_artist,
            in_album: st.in_album,
            in_album_art: st.in_album_art,
            in_genre: st.in_genre,
            url: st.url,
            title: if st.in_title {
                Some(text)
            } else {
                st.title
            },
            artist: if st.in_artist {
                Some(text)
            } else {
                st.artist
            },
            album: if st.in_album {
                Some(text)
            } else {
                st.album
            },
            album_art: if st.in_album_art {
                Some(text)
            } else {
                st.album_art
            },
            genre: if st.in_genre {
                Some(text)
            } else {
                st.genre
            },
        },
    }
}

/// The metadata scan run over `ts` from `i` on.
pub open spec fn meta_scan(ts: Seq<TokV>, i: int, st: MetaScan) -> MetaScan
    decreases ts.len() - i when 0 <= i <= ts.len()
{
    if i >= ts.len() {
        st
    } else {
        meta_scan(ts, i + 1, meta_step(st, ts[i]))
    }
}

/// What metadata decoding yields of a DIDL-Lite document.
pub open spec fn spec_deserialize_metadata(s: Seq<char>) -> MetaScan {
    meta_scan(spec_tokens(s), 0, meta_init())
}

/// Decodes a DIDL-Lite document into a playable-item description. A missing
/// title reads as the empty string; the protocol information of an inbound
/// document is not carried and stays empty.
pub fn deserialize_metadata(xml: &str) -> (r: Result<Metadata, UpnpError>)
    ensures
        match r {
            Ok(m) => ({
                let fin = spec_deserialize_metadata(xml@);
                &&& m.url@ == fin.url
                &&& m.title@ == match fin.title {
                    Some(t) => t,
                    None => Seq::<char>::empty(),
                }
                &&& oview_str(m.artist) == fin.artist
                &&& oview_str(m.album) == fin.album
                &&& oview_str(m.album_art_uri) == fin.album_art
                &&& oview_str(m.genre) == fin.genre
                &&& m.protocol_info@ == Seq::<char>::empty()
            }),
            Err(_) => false,
        },
{
    let v = chars_of(xml);
    let toks = tokenize(&v);
    let ghost tsv = toks_view(toks@);
    let mut in_title: bool = false;
    let mut in_artist: bool = false;
    let mut in_album: bool = false;
    let mut in_album_art: bool = false;
    let mut in_genre: bool = false;
    let mut url: Vec<char> = Vec::new();
    let mut title: Option<Vec<char>> = None;
    let mut artist: Option<Vec<char>> = None;
    let mut album: Option<Vec<char>> = None;
    let mut album_art: Option<Vec<char>> = None;
    let mut genre: Option<Vec<char>> = None;
    let ghost mut st = meta_init();
    let mut i: usize = 0;
    proof {
        assert(url@ =~= Seq::<char>::empty());
    }
    while i < toks.len()
        invariant
            i <= toks@.len(),
            tsv == toks_view(toks@),
            tsv.len() == toks@.len(),
            st == (MetaScan {
                in_title,
                in_artist,
                in_album,
                in_album_art,
                in_genre,
                url: url@,
                title: oview(title),
                artist: oview(artist),
                album: oview(album),
                album_art: oview(album_art),
                genre: oview(genre),
            }),
            meta_scan(tsv, i as int, st) == spec_deserialize_metadata(xml@),
        decreases toks@.len() - i,
    {
        proof {
            assert(tsv[i as int] == toks@[i as int]@);
        }
        match &toks[i] {
            XmlToken::Start { name, attrs } => {
                if crate::xmltok::local_eq(name, "item") {
                    match crate::xmltok::attr_last(attrs, "id") {
                        Some(u) => {
                            url = u;
                        },
                        None => {},
                    }
                }
                if crate::xmltok::local_eq(name, "title") {
                    in_title = true;
                }
                if crate::xmltok::local_eq(name, "artist") {
                    in_artist = true;
                }
                if crate::xmltok::local_eq(name, "album") {
                    in_album = true;
                }
                if crate::xmltok::local_eq(name, "albumArtURI") {
                    in_album_art = true;
                }
                if crate::xmltok::local_eq(name, "genre") {
                    in_genre = true;
                }
            },
            XmlToken::End { name } => {
                if crate::xmltok::local_eq(name, "title") {
                    in_title = false;
                }
                if crate::xmltok::local_eq(name, "artist") {
                    in_artist = false;
                }
                if crate::xmltok::local_eq(name, "album") {
                    in_album = false;
                }
                if crate::xmltok::local_eq(name, "albumArtURI") {
                    in_album_art = false;
                }
                if crate::xmltok::local_eq(name, "genre") {
                    in_genre = false;
                }
            },
            XmlToken::Text { text } => {
                if in_title {
                    title = Some(slice_chars(text, 0, text.len()));
                }
                if in_artist {
                    artist = Some(slice_chars(text, 0, text.len()));
                }
                if in_album {
                    album = Some(slice_chars(text, 0, text.len()));
                }
                if in_album_art {
                    album_art = Some(slice_chars(text, 0, text.len()));
                }
                if in_genre {
                    genre = Some(slice_chars(text, 0, text.len()));
                }
                proof {
                    assert(toks@[i as int]->Text_text@.subrange(
                        0,
                        toks@[i as int]->Text_text@.len() as int,
                    ) =~= toks@[i as int]->Text_text@);
                }
            },
        }
        proof {
            st = meta_step(st, tsv[i as int]);
        }
        i = i + 1;
    }
    let mut m = Metadata::empty();
    m.url = string_from_chars(&url);
    match title {
        Some(t) => {
            m.title = string_from_chars(&t);
        },
        None => {},
    }
    match artist {
        Some(t) => {
            m.artist = Some(string_from_chars(&t));
        },
        None => {},
    }
    match album {
        Some(t) => {
            m.album = Some(string_from_chars(&t));
        },
        None => {},
    }
    match album_art {
        Some(t) => {
            m.album_art_uri = Some(string_from_chars(&t));
        },
        None => {},
    }
    match genre {
        Some(t) => {
            m.genre = Some(string_from_chars(&t));
        },
        None => {},
    }
    Ok(m)
}

/// What transport-info decoding yields: the last text of each of the three
/// elements, the empty string where one is absent.
pub open spec fn spec_ti_field(s: Seq<char>, n: Seq<char>) -> Seq<char> {
    match spec_text_in(spec_tokens(s), n) {
        Some(t) => t,
        None => Seq::empty(),
    }
}

/// Reads transport state, status and speed from a GetTransportInfo SOAP
/// response.
pub fn parse_transport_info(xml: &str) -> (r: Result<TransportInfo, UpnpError>)
    ensures
        match r {
            Ok(t) => t.current_transport_state@ == spec_ti_field(xml@, "CurrentTransportState"@)
                && t.current_transport_status@ == spec_ti_field(xml@, "CurrentTransportStatus"@)
                && t.current_speed@ == spec_ti_field(xml@, "CurrentSpeed"@),
            Err(_) => false,
        },
{
    let v = chars_of(xml);
    let toks = tokenize(&v);
    let mut t = TransportInfo::empty();
    match text_in(&toks, "CurrentTransportState") {
        Some(x) => {
            t.current_transport_state = string_from_chars(&x);
        },
        None => {},
    }
    match text_in(&toks, "CurrentTransportStatus") {
        Some(x) => {
            t.current_transport_status = string_from_chars(&x);
        },
        None => {},
    }
    match text_in(&toks, "CurrentSpeed") {
        Some(x) => {
            t.current_speed = string_from_chars(&x);
        },
        None => {},
    }
    Ok(t)
}

} // verus!

verus! {

/// The fields of a browse-result container that the scan fills.
pub struct ContV {
    pub id: Seq<char>,
    pub parent_id: Seq<char>,
    pub title: Seq<char>,
    pub object_class: Option<ObjectClass>,
}

/// The fields of a browse-result item that the scan fills.
pub struct ItemV {
    pub id: Seq<char>,
    pub parent_id: Seq<char>,
    pub title: Seq<char>,
    pub artist: Option<Seq<char>>,
    pub album: Option<Seq<char>>,
    pub album_art: Option<Seq<char>>,
    pub genre: Option<Seq<char>>,
    pub object_class: Option<ObjectClass>,
    pub protocol_info: Seq<char>,
    pub url: Seq<char>,
    pub size: Option<u64>,
    pub duration: Option<Seq<char>>,
}

/// The scan-filled image of a container.
pub open spec fn cont_view(c: crate::types::Container) -> ContV {
    ContV { id: c.id@, parent_id: c.parent_id@, title: c.title@, object_class: c.object_class }
}

/// The scan-filled image of an item.
pub open spec fn item_view(x: crate::types::Item) -> ItemV {
    ItemV {
        id: x.id@,
        parent_id: x.parent_id@,
        title: x.title@,
        artist: oview_str(x.artist),
        album: oview_str(x.album),
        album_art: oview_str(x.album_art_uri),
        genre: oview_str(x.genre),
        object_class: x.object_class,
        protocol_info: x.protocol_info@,
        url: x.url@,
        size: x.size,
        duration: oview_str(x.duration),
    }
}

/// The last `protocolInfo` attribute whose value names an audio or video
/// protocol.
pub open spec fn last_proto(attrs: Seq<(Seq<char>, Seq<char>)>) -> Option<Seq<char>>
    decreases attrs.len(),
{
    if attrs.len() == 0 {
        None
    } else if local_of(attrs.last().0) == "protocolInfo"@ && (has_sub(attrs.last().1, "audio"@)
        || has_sub(attrs.last().1, "video"@)) {
        Some(attrs.last().1)
    } else {
        last_proto(attrs.drop_last())
    }
}

/// Whether some `size` attribute's value is not a `u64`.
pub open spec fn bad_size(attrs: Seq<(Seq<char>, Seq<char>)>) -> bool
    decreases attrs.len(),
{
    if attrs.len() == 0 {
        false
    } else {
        (local_of(attrs.last().0) == "size"@ && spec_parse_u64(attrs.last().1) is None) || bad_size(
            attrs.drop_last(),
        )
    }
}

/// Whether a `res` element's attributes would annotate an item: a
/// protocol naming audio or video, a size, or a duration. Such a `res`
/// standing outside any item is malformed.
pub open spec fn res_applies(attrs: Seq<(Seq<char>, Seq<char>)>) -> bool {
    ||| last_proto(attrs) is Some
    ||| spec_attr_last(attrs, "size"@) is Some
    ||| spec_attr_last(attrs, "duration"@) is Some
}

/// A malformed size is carried by some `size` attribute.
proof fn lemma_bad_size_has_size(attrs: Seq<(Seq<char>, Seq<char>)>)
    requires
        bad_size(attrs),
    ensures
        spec_attr_last(attrs, "size"@) is Some,
    decreases attrs.len(),
{
    if local_of(attrs.last().0) == "size"@ && spec_parse_u64(attrs.last().1) is None {
    } else {
        lemma_bad_size_has_size(attrs.drop_last());
    }
}

/// How the parsed size must relate to the attributes when none is bad.
pub open spec fn size_match(attrs: Seq<(Seq<char>, Seq<char>)>, s: Option<u64>) -> bool {
    match spec_attr_last(attrs, "size"@) {
        Some(v) => s == spec_parse_u64(v) && s is Some,
        None => s is None,
    }
}

/// Scans a `res` element's attributes: the protocol information, the parsed
/// size, whether any size was malformed, and the duration.
fn scan_res_attrs(attrs: &Vec<XmlAttr>) -> (r: (Option<Vec<char>>, Option<u64>, bool, Option<
    Vec<char>,
>))
    ensures
        ({
            let av = attrs@.map_values(|a: XmlAttr| a@);
            &&& oview(r.0) == last_proto(av)
            &&& r.2 == bad_size(av)
            &&& !r.2 ==> size_match(av, r.1)
            &&& oview(r.3) == spec_attr_last(av, "duration"@)
        }),
{
    let ghost av = attrs@.map_values(|a: XmlAttr| a@);
    let mut proto: Option<Vec<char>> = None;
    let mut size: Option<u64> = None;
    let mut bad: bool = false;
    let mut dur: Option<Vec<char>> = None;
    let mut i: usize = 0;
    while i < attrs.len()
        invariant
            i <= attrs@.len(),
            av == attrs@.map_values(|a: XmlAttr| a@),
            av.len() == attrs@.len(),
            oview(proto) == last_proto(av.subrange(0, i as int)),
            bad == bad_size(av.subrange(0, i as int)),
            !bad ==> size_match(av.subrange(0, i as int), size),
            oview(dur) == spec_attr_last(av.subrange(0, i as int), "duration"@),
        decreases attrs@.len() - i,
    {
        proof {
            assert(av[i as int] == attrs@[i as int]@);
            assert(av.subrange(0, i + 1).last() == av[i as int]);
            assert(av.subrange(0, i + 1).drop_last() =~= av.subrange(0, i as int));
        }
        let a = &attrs[i];
        if crate::xmltok::local_eq(&a.name, "protocolInfo") {
            if crate::strutil::contains_sub(&a.value, "audio") || crate::strutil::contains_sub(
                &a.value,
                "video",
            ) {
                proto = Some(slice_chars(&a.value, 0, a.value.len()));
                proof {
                    assert(a.value@.subrange(0, a.value@.len() as int) =~= a.value@);
                }
            }
        }
        if crate::xmltok::local_eq(&a.name, "size") {
            match parse_u64_all(&a.value) {
                Some(n) => {
                    size = Some(n);
                },
                None => {
                    bad = true;
                },
            }
        }
        if crate::xmltok::local_eq(&a.name, "duration") {
            dur = Some(slice_chars(&a.value, 0, a.value.len()));
            proof {
                assert(a.value@.subrange(0, a.value@.len() as int) =~= a.value@);
            }
        }
        i = i + 1;
    }
    proof {
        assert(av.subrange(0, av.len() as int) =~= av);
    }
    (proto, size, bad, dur)
}

/// The running state of the content-directory scan.
pub struct CdScan {
    pub in_container: bool,
    pub in_item: bool,
    pub in_title: bool,
    pub in_artist: bool,
    pub in_album: bool,
    pub in_album_art: bool,
    pub in_genre: bool,
    pub in_class: bool,
    pub in_res: bool,
    pub containers: Seq<ContV>,
    pub items: Seq<ItemV>,
    pub err: bool,
}

/// The content-directory scan's starting state.
pub open spec fn cd_init() -> CdScan {
    CdScan {
        in_container: false,
        in_item: false,
        in_title: false,
        in_artist: false,
        in_album: false,
        in_album_art: false,
        in_genre: false,
        in_class: false,
        in_res: false,
        containers: Seq::empty(),
        items: Seq::empty(),
        err: false,
    }
}

/// An attribute's value, or the empty string when it is absent.
pub open spec fn attr_or_empty(attrs: Seq<(Seq<char>, Seq<char>)>, n: Seq<char>) -> Seq<char> {
    match spec_attr_last(attrs, n) {
        Some(v) => v,
        None => Seq::empty(),
    }
}

/// One token's effect on the content-directory scan. A `container` or
/// `item` start element opens a fresh entry carrying its `id` and
/// `parentID`; a `res` start element annotates the latest item with
/// protocol, size and duration, a malformed size marking the scan failed.
/// A `res` standing before any item marks the scan failed as soon as it
/// carries an attribute that would annotate one: the document is
/// malformed, and the failure comes back as an error rather than a crash.
/// Text fills the fields of the latest open entry; a text run inside
/// `res` that names the device's address becomes the item's URL once its
/// protocol is audio or video.
pub open spec fn cd_step(st: CdScan, t: TokV, ip: Seq<char>) -> CdScan {
    match t {
        TokV::Start { name, attrs } => {
            let l = local_of(name);
            CdScan {
                in_container: if l == "container"@ {
                    true
                } else {
                    st.in_container
                },
                in_item: if l == "item"@ {
                    true
                } else {
                    st.in_item
                },
                in_title: if l == "title"@ {
                    true
                } else {
                    st.in_title
                },
                in_artist: if l == "artist"@ {
                    true
                } else {
                    st.in_artist
                },
                in_album: if l == "album"@ {
                    true
                } else {
                    st.in_album
                },
                in_album_art: if l == "albumArtURI"@ {
                    true
                } else {
                    st.in_album_art
                },
                in_genre: if l == "genre"@ {
                    true
                } else {
                    st.in_genre
                },
                in_class: if l == "class"@ {
                    true
                } else {
                    st.in_class
                },
                in_res: if l == "res"@ {
                    true
                } else {
                    st.in_res
                },
                containers: if l == "container"@ {
                    st.containers.push(
                        ContV {
                            id: attr_or_empty(attrs, "id"@),
                            parent_id: attr_or_empty(attrs, "parentID"@),
                            title: Seq::empty(),
                            object_class: None,
                        },
                    )
                } else {
                    st.containers
                },
                items: if l == "item"@ {
                    st.items.push(
                        ItemV {
                            id: attr_or_empty(attrs, "id"@),
                            parent_id: attr_or_empty(attrs, "parentID"@),
                            title: Seq::empty(),
                            artist: None,
                            album: None,
                            album_art: None,
                            genre: None,
                            object_class: None,
                            protocol_info: Seq::empty(),
                            url: Seq::empty(),
                            size: None,
                            duration: None,
                        },
                    )
                } else if l == "res"@ && st.items.len() > 0 && !bad_size(attrs) {
                    let old_it = st.items.last();
                    st.items.update(
                        st.items.len() - 1,
                        ItemV {
                            id: old_it.id,
                            parent_id: old_it.parent_id,
                            title: old_it.title,
                            artist: old_it.artist,
                            album: old_it.album,
                            album_art: old_it.album_art,
                            genre: old_it.genre,
                            object_class: old_it.object_class,
                            protocol_info: match last_proto(attrs) {
                                Some(p) => p,
                                None => old_it.protocol_info,
                            },
                            url: old_it.url,
                            size: match spec_attr_last(attrs, "size"@) {
                                Some(v) => spec_parse_u64(v),
                                None => old_it.size,
                            },
                            duration: match spec_attr_last(attrs, "duration"@) {
                                Some(d) => Some(d),
                                None => old_it.duration,
                            },
                        },
                    )
                } else {
                    st.items
                },
                err: if l == "res"@ && (if st.items.len() > 0 {
                    bad_size(attrs)
                } else {
                    res_applies(attrs)
                }) {
                    true
                } else {
                    st.err
                },
            }
        },
        TokV::End { name } => {
            let l = local_of(name);
            CdScan {
                in_container: if l == "container"@ {
                    false
                } else {
                    st.in_container
                },
                in_item: if l == "item"@ {
                    false
                } else {
                    st.in_item
                },
                in_title: if l == "title"@ {
                    false
                } else {
                    st.in_title
                },
                in_artist: if l == "artist"@ {
                    false
                } else {
                    st.in_artist
                },
                in_album: if l == "album"@ {
                    false
                } else {
                    st.in_album
                },
                in_album_art: if l == "albumArtURI"@ {
                    false
                } else {
                    st.in_album_art
                },
                in_genre: if l == "genre"@ {
                    false
                } else {
                    st.in_genre
                },
                in_class: if l == "class"@ {
                    false
                } else {
                    st.in_class
                },
                in_res: if l == "res"@ {
                    false
                } else {
                    st.in_res
                },
                containers: st.containers,
                items: st.items,
                err: st.err,
            }
        },
        TokV::Text { text } => CdScan {
            in_container: st.in_container,
            in_item: st.in_item,
            in_title: st.in_title,
            in_artist: st.in_artist,
            in_album: st.in_album,
            in_album_art: st.in_album_art,
            in_genre: st.in_genre,
            in_class: st.in_class,
            in_res: st.in_res,
            containers: if st.in_container && st.containers.len() > 0 {
                let old_c = st.containers.last();
                st.containers.update(
                    st.containers.len() - 1,
                    ContV {
                        id: old_c.id,
                        parent_id: old_c.parent_id,
                        title: if st.in_title {
                            text
                        } else {
                            old_c.title
                        },
                        object_class: if st.in_class {
                            Some(spec_object_class_of(text))
                        } else {
                            old_c.object_class
                        },
                    },
                )
            } else {
                st.containers
            },
            items: if st.in_item && st.items.len() > 0 {
                let old_it = st.items.last();
                st.items.update(
                    st.items.len() - 1,
                    ItemV {
                        id: old_it.id,
                        parent_id: old_it.parent_id,
                        title: if st.in_title {
                            text
                        } else {
                            old_it.title
                        },
                        artist: if st.in_artist {
                            Some(text)
                        } else {
                            old_it.artist
                        },
                        album: if st.in_album {
                            Some(text)
                        } else {
                            old_it.album
                        },
                        album_art: if st.in_album_art {
                            Some(text)
                        } else {
                            old_it.album_art
                        },
                        genre: if st.in_genre {
                            Some(text)
                        } else {
                            old_it.genre
                        },
                        object_class: if st.in_class {
                            Some(spec_object_class_of(text))
                        } else {
                            old_it.object_class
                        },
                        protocol_info: old_it.protocol_info,
                        url: if st.in_res && old_it.url.len() == 0 && has_sub(text, ip) && (
                        has_sub(old_it.protocol_info, "audio"@) || has_sub(
                            old_it.protocol_info,
                            "video"@,
                        )) {
                            text
                        } else {
                            old_it.url
                        },
                        size: old_it.size,
                        duration: old_it.duration,
                    },
                )
            } else {
                st.items
            },
            err: st.err,
        },
    }
}

/// The content-directory scan run over `ts` from `i` on.
pub open spec fn cd_scan(ts: Seq<TokV>, i: int, st: CdScan, ip: Seq<char>) -> CdScan
    decreases ts.len() - i when 0 <= i <= ts.len()
{
    if i >= ts.len() {
        st
    } else {
        cd_scan(ts, i + 1, cd_step(st, ts[i], ip), ip)
    }
}

/// What content-directory decoding yields of a DIDL-Lite document.
pub open spec fn spec_deserialize_content_directory(s: Seq<char>, ip: Seq<char>) -> CdScan {
    cd_scan(spec_tokens(s), 0, cd_init(), ip)
}

/// The element names `item` and `res` differ, so one start tag never
/// stands for both.
proof fn lemma_item_res_distinct()
    ensures
        "item"@ != "res"@,
{
    reveal_strlit("item");
    reveal_strlit("res");
    assert("item"@.len() == 4);
    assert("res"@.len() == 3);
}

/// A failed scan stays failed.
proof fn lemma_cd_err_sticky(ts: Seq<TokV>, i: int, st: CdScan, ip: Seq<char>)
    requires
        0 <= i <= ts.len(),
        st.err,
    ensures
        cd_scan(ts, i, st, ip).err,
    decreases ts.len() - i,
{
    if i < ts.len() {
        assert(cd_step(st, ts[i], ip).err);
        lemma_cd_err_sticky(ts, i + 1, cd_step(st, ts[i], ip), ip);
    }
}

/// The container fields the scan never fills.
pub open spec fn cont_untouched(c: crate::types::Container) -> bool {
    &&& c.creator is None
    &&& !c.restricted
    &&& !c.searchable
    &&& c.child_count is None
    &&& c.album_art_uri is None
    &&& c.album is None
    &&& c.artist is None
    &&& c.genre is None
    &&& c.date is None
    &&& c.original_track_number is None
    &&& c.protocol_info is None
    &&& c.url is None
}

/// The item fields the scan never fills.
pub open spec fn item_untouched(x: crate::types::Item) -> bool {
    &&& x.creator is None
    &&& !x.restricted
    &&& !x.searchable
    &&& x.date is None
    &&& x.original_track_number is None
}

/// Decodes a DIDL-Lite browse result into its containers and items. `ip` is
/// the device's address: a resource URL is taken only when it names it.
#[verifier::rlimit(100)]
#[verifier::spinoff_prover]
pub fn deserialize_content_directory(xml: &str, ip: &str) -> (r: Result<
    (Vec<crate::types::Container>, Vec<crate::types::Item>),
    UpnpError,
>)
    ensures
        match r {
            Ok(p) => ({
                let fin = spec_deserialize_content_directory(xml@, ip@);
                &&& !fin.err
                &&& p.0@.map_values(|c: crate::types::Container| cont_view(c)) == fin.containers
                &&& p.1@.map_values(|x: crate::types::Item| item_view(x)) == fin.items
                &&& forall|j: int|
                    0 <= j < p.0@.len() ==> cont_untouched(#[trigger] p.0@[j])
                &&& forall|j: int| 0 <= j < p.1@.len() ==> item_untouched(#[trigger] p.1@[j])
            }),
            Err(e) => spec_deserialize_content_directory(xml@, ip@).err && e
                == UpnpError::MalformedDescription,
        },
{
    let v = chars_of(xml);
    let toks = tokenize(&v);
    let ghost tsv = toks_view(toks@);
    let mut in_container: bool = false;
    let mut in_item: bool = false;
    let mut in_title: bool = false;
    let mut in_artist: bool = false;
    let mut in_album: bool = false;
    let mut in_album_art: bool = false;
    let mut in_genre: bool = false;
    let mut in_class: bool = false;
    let mut in_res: bool = false;
    let mut containers: Vec<crate::types::Container> = Vec::new();
    let mut items: Vec<crate::types::Item> = Vec::new();
    let ghost mut st = cd_init();
    let mut i: usize = 0;
    proof {
        assert(containers@.map_values(|c: crate::types::Container| cont_view(c)) =~= Seq::<
            ContV,
        >::empty());
        assert(items@.map_values(|x: crate::types::Item| item_view(x)) =~= Seq::<ItemV>::empty());
    }
    while i < toks.len()
        invariant
            i <= toks@.len(),
            tsv == toks_view(toks@),
            tsv.len() == toks@.len(),
            !st.err,
            st == (CdScan {
                in_container,
                in_item,
                in_title,
                in_artist,
                in_album,
                in_album_art,
                in_genre,
                in_class,
                in_res,
                containers: containers@.map_values(|c: crate::types::Container| cont_view(c)),
                items: items@.map_values(|x: crate::types::Item| item_view(x)),
                err: false,
            }),
            cd_scan(tsv, i as int, st, ip@) == spec_deserialize_content_directory(xml@, ip@),
            forall|j: int| 0 <= j < containers@.len() ==> cont_untouched(#[trigger] containers@[j]),
            forall|j: int| 0 <= j < items@.len() ==> item_untouched(#[trigger] items@[j]),
        decreases toks@.len() - i,
    {
        proof {
            assert(tsv[i as int] == toks@[i as int]@);
            lemma_item_res_distinct();
        }
        let ghost old_containers = containers@;
        let ghost old_items = items@;
        match &toks[i] {
            XmlToken::Start { name, attrs } => {
                if crate::xmltok::local_eq(name, "container") {
                    in_container = true;
                    let mut c = crate::types::Container::empty();
                    match crate::xmltok::attr_last(attrs, "id") {
                        Some(u) => {
                            c.id = string_from_chars(&u);
                        },
                        None => {},
                    }
                    match crate::xmltok::attr_last(attrs, "parentID") {
                        Some(u) => {
                            c.parent_id = string_from_chars(&u);
                        },
                        None => {},
                    }
                    containers.push(c);
                    proof {
                        assert(containers@.map_values(|c: crate::types::Container| cont_view(c))
                            =~= old_containers.map_values(
                            |c: crate::types::Container| cont_view(c),
                        ).push(cont_view(containers@.last())));
                    }
                }
                if crate::xmltok::local_eq(name, "item") {
                    in_item = true;
                    let mut x = crate::types::Item::empty();
                    match crate::xmltok::attr_last(attrs, "id") {
                        Some(u) => {
                            x.id = string_from_chars(&u);
                        },
                        None => {},
                    }
                    match crate::xmltok::attr_last(attrs, "parentID") {
                        Some(u) => {
                            x.parent_id = string_from_chars(&u);
                        },
                        None => {},
                    }
                    items.push(x);
                    proof {
                        assert(items@.map_values(|x: crate::types::Item| item_view(x))
                            =~= old_items.map_values(|x: crate::types::Item| item_view(x)).push(
                            item_view(items@.last()),
                        ));
                    }
                }
                if crate::xmltok::local_eq(name, "title") {
                    in_title = true;
                }
                if crate::xmltok::local_eq(name, "artist") {
                    in_artist = true;
                }
                if crate::xmltok::local_eq(name, "album") {
                    in_album = true;
                }
                if crate::xmltok::local_eq(name, "albumArtURI") {
                    in_album_art = true;
                }
                if crate::xmltok::local_eq(name, "genre") {
                    in_genre = true;
                }
                if crate::xmltok::local_eq(name, "class") {
                    in_class = true;
                }
                if crate::xmltok::local_eq(name, "res") {
                    in_res = true;
                    if items.len() == 0 {
                        let (proto, size, bad, dur) = scan_res_attrs(attrs);
                        if proto.is_some() || bad || size.is_some() || dur.is_some() {
                            proof {
                                if bad {
                                    lemma_bad_size_has_size(
                                        attrs@.map_values(|a: XmlAttr| a@),
                                    );
                                }
                                assert(res_applies(attrs@.map_values(|a: XmlAttr| a@)));
                                st = cd_step(st, tsv[i as int], ip@);
                                assert(st.err);
                                lemma_cd_err_sticky(tsv, i as int + 1, st, ip@);
                            }
                            return Err(UpnpError::MalformedDescription);
                        }
                    } else {
                        let (proto, size, bad, dur) = scan_res_attrs(attrs);
                        if bad {
                            proof {
                                st = cd_step(st, tsv[i as int], ip@);
                                assert(st.err);
                                lemma_cd_err_sticky(tsv, i as int + 1, st, ip@);
                            }
                            return Err(UpnpError::MalformedDescription);
                        }
                        match items.pop() {
                            Some(mut last) => {
                                match proto {
                                    Some(p) => {
                                        last.protocol_info = string_from_chars(&p);
                                    },
                                    None => {},
                                }
                                match size {
                                    Some(n) => {
                                        last.size = Some(n);
                                    },
                                    None => {},
                                }
                                match dur {
                                    Some(d) => {
                                        last.duration = Some(string_from_chars(&d));
                                    },
                                    None => {},
                                }
                                items.push(last);
                                proof {
                                    assert(items@.map_values(
                                        |x: crate::types::Item| item_view(x),
                                    ) =~= old_items.map_values(
                                        |x: crate::types::Item| item_view(x),
                                    ).update(old_items.len() - 1, item_view(items@.last())));
                                }
                            },
                            None => {},
                        }
                    }
                }
            },
            XmlToken::End { name } => {
                if crate::xmltok::local_eq(name, "container") {
                    in_container = false;
                }
                if crate::xmltok::local_eq(name, "item") {
                    in_item = false;
                }
                if crate::xmltok::local_eq(name, "title") {
                    in_title = false;
                }
                if crate::xmltok::local_eq(name, "artist") {
                    in_artist = false;
                }
                if crate::xmltok::local_eq(name, "album") {
                    in_album = false;
                }
                if crate::xmltok::local_eq(name, "albumArtURI") {
                    in_album_art = false;
                }
                if crate::xmltok::local_eq(name, "genre") {
                    in_genre = false;
                }
                if crate::xmltok::local_eq(name, "class") {
                    in_class = false;
                }
                if crate::xmltok::local_eq(name, "res") {
                    in_res = false;
                }
            },
            XmlToken::Text { text } => {
                proof {
                    assert(toks@[i as int]->Text_text@.subrange(
                        0,
                        toks@[i as int]->Text_text@.len() as int,
                    ) =~= toks@[i as int]->Text_text@);
                }
                if in_container {
                    match containers.pop() {
                        Some(mut last) => {
                            if in_title {
                                last.title = string_from_chars(text);
                            }
                            if in_class {
                                last.object_class = Some(crate::types::object_class_of_chars(text));
                            }
                            containers.push(last);
                            proof {
                                assert(containers@.map_values(
                                    |c: crate::types::Container| cont_view(c),
                                ) =~= old_containers.map_values(
                                    |c: crate::types::Container| cont_view(c),
                                ).update(old_containers.len() - 1, cont_view(containers@.last())));
                            }
                        },
                        None => {},
                    }
                }
                let ghost mid_items = items@;
                if in_item {
                    match items.pop() {
                        Some(mut last) => {
                            if in_title {
                                last.title = string_from_chars(text);
                            }
                            if in_artist {
                                last.artist = Some(string_from_chars(text));
                            }
                            if in_album {
                                last.album = Some(string_from_chars(text));
                            }
                            if in_album_art {
                                last.album_art_uri = Some(string_from_chars(text));
                            }
                            if in_genre {
                                last.genre = Some(string_from_chars(text));
                            }
                            if in_class {
                                last.object_class = Some(crate::types::object_class_of_chars(text));
                            }
                            if in_res && last.url.as_str().is_empty() && crate::strutil::contains_sub(
                                text,
                                ip,
                            ) && (crate::strutil::str_contains_sub(&last.protocol_info, "audio")
                                || crate::strutil::str_contains_sub(&last.protocol_info, "video")) {
                                last.url = string_from_chars(text);
                            }
                            items.push(last);
                            proof {
                                assert(items@.map_values(|x: crate::types::Item| item_view(x))
                                    =~= mid_items.map_values(
                                    |x: crate::types::Item| item_view(x),
                                ).update(mid_items.len() - 1, item_view(items@.last())));
                            }
                        },
                        None => {},
                    }
                }
            },
        }
        proof {
            st = cd_step(st, tsv[i as int], ip@);
        }
        i = i + 1;
    }
    Ok((containers, items))
}

/// What browse decoding yields: the content directory read from the last
/// `Result` text, or nothing at all when no `Result` element exists.
pub open spec fn spec_browse_payload(s: Seq<char>) -> Option<Seq<char>> {
    spec_text_in(spec_tokens(s), "Result"@)
}

/// Decodes a Browse SOAP response: the DIDL-Lite document inside its
/// `Result` element, when there is one.
pub fn parse_browse_response(xml: &str, ip: &str) -> (r: Result<
    (Vec<crate::types::Container>, Vec<crate::types::Item>),
    UpnpError,
>)
    ensures
        match r {
            Ok(p) => match spec_browse_payload(xml@) {
                Some(t) => ({
                    let fin = spec_deserialize_content_directory(t, ip@);
                    &&& !fin.err
                    &&& p.0@.map_values(|c: crate::types::Container| cont_view(c)) == fin.containers
                    &&& p.1@.map_values(|x: crate::types::Item| item_view(x)) == fin.items
                }),
                None => p.0@.len() == 0 && p.1@.len() == 0,
            },
            Err(e) => (spec_browse_payload(xml@) matches Some(t)
                && spec_deserialize_content_directory(t, ip@).err) && e
                == UpnpError::MalformedDescription,
        },
{
    let v = chars_of(xml);
    let toks = tokenize(&v);
    match text_in(&toks, "Result") {
        Some(t) => {
            let payload = string_from_chars(&t);
            deserialize_content_directory(payload.as_str(), ip)
        },
        None => Ok((Vec::new(), Vec::new())),
    }
}

} // verus!
