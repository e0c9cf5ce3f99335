//! Building DIDL-Lite metadata fragments for outbound control calls. The
//! round-trip law — decoding a built fragment recovers the metadata —
//! stands in the `roundtrip` module.

use vstd::prelude::*;

use crate::escape::{
    escape_attr_all, escape_text_all, spec_escape_attr, spec_escape_text,
};
use crate::strutil::{chars_of, oview_str, string_from_chars};
use crate::types::{object_class_str, Metadata, ObjectClass};

verus! {

/// The mathematical image of a playable-item description.
pub struct MetaV {
    pub url: Seq<char>,
    pub title: Seq<char>,
    pub artist: Option<Seq<char>>,
    pub album: Option<Seq<char>>,
    pub album_art: Option<Seq<char>>,
    pub genre: Option<Seq<char>>,
    pub protocol_info: Seq<char>,
}

pub open spec fn meta_v(m: Metadata) -> MetaV {
    MetaV {
        url: m.url@,
        title: m.title@,
        artist: oview_str(m.artist),
        album: oview_str(m.album),
        album_art: oview_str(m.album_art_uri),
        genre: oview_str(m.genre),
        protocol_info: m.protocol_info@,
    }
}

/// The DIDL-Lite fragment a metadata value serializes to: one `item` with
/// title, class, the optional fields that are present, and one `res`
/// element carrying the protocol information and the URL.
pub open spec fn didl_text(m: MetaV, class: ObjectClass) -> Seq<char> {
    "<DIDL-Lite xmlns=\"urn:schemas-upnp-org:metadata-1-0/DIDL-Lite/\" xmlns:dc=\"http://purl.org/dc/elements/1.1/\" xmlns:upnp=\"urn:schemas-upnp-org:metadata-1-0/upnp/\" xmlns:dlna=\"urn:schemas-dlna-org:metadata-1-0/\" xmlns:xbmc=\"urn:schemas-xbmc-org:metadata-1-0/\" xmlns:sec=\"http://www.sec.co.kr/\"><item id=\"0\" parentID=\"-1\" restricted=\"false\"><dc:title>"@
        + spec_escape_text(m.title) + "</dc:title><upnp:class>"@ + object_class_str(class)
        + "</upnp:class>"@ + didl_artist(m) + didl_album(m) + didl_album_art(m) + didl_genre(m)
        + "<res protocolInfo=\""@ + spec_escape_attr(m.protocol_info) + "\">"@ + spec_escape_text(
        m.url,
    ) + "</res></item></DIDL-Lite>"@
}

pub open spec fn didl_artist(m: MetaV) -> Seq<char> {
    match m.artist {
        Some(a) => "<upnp:artist>"@ + spec_escape_text(a) + "</upnp:artist>"@,
        None => Seq::empty(),
    }
}

pub open spec fn didl_album(m: MetaV) -> Seq<char> {
    match m.album {
        Some(a) => "<upnp:album>"@ + spec_escape_text(a) + "</upnp:album>"@,
        None => Seq::empty(),
    }
}

pub open spec fn didl_album_art(m: MetaV) -> Seq<char> {
    match m.album_art {
        Some(a) =>
            "<upnp:albumArtURI dlna:profileID=\"JPEG_TN\" xmlns:dlna=\"urn:schemas-dlna-org:metadata-1-0/\">"@
            + spec_escape_text(a) + "</upnp:albumArtURI>"@,
        None => Seq::empty(),
    }
}

pub open spec fn didl_genre(m: MetaV) -> Seq<char> {
    match m.genre {
        Some(a) => "<upnp:genre>"@ + spec_escape_text(a) + "</upnp:genre>"@,
        None => Seq::empty(),
    }
}

/// Appends the text escape of `s` to `out`.
fn push_escaped_text(out: &mut String, s: &String)
    ensures
        final(out)@ == old(out)@ + spec_escape_text(s@),
{
    let v = chars_of(s.as_str());
    let e = escape_text_all(&v);
    let es = string_from_chars(&e);
    out.append(es.as_str());
}

/// Builds the DIDL-Lite fragment of one playable item.
#[verifier::rlimit(100)]
#[verifier::spinoff_prover]
pub fn build_didl_fragment(m: &Metadata, media_type: ObjectClass) -> (r: String)
    ensures
        r@ == didl_text(meta_v(*m), media_type),
{
    let mut out = String::new();
    out.append(
        "<DIDL-Lite xmlns=\"urn:schemas-upnp-org:metadata-1-0/DIDL-Lite/\" xmlns:dc=\"http://purl.org/dc/elements/1.1/\" xmlns:upnp=\"urn:schemas-upnp-org:metadata-1-0/upnp/\" xmlns:dlna=\"urn:schemas-dlna-org:metadata-1-0/\" xmlns:xbmc=\"urn:schemas-xbmc-org:metadata-1-0/\" xmlns:sec=\"http://www.sec.co.kr/\"><item id=\"0\" parentID=\"-1\" restricted=\"false\"><dc:title>",
    );
    push_escaped_text(&mut out, &m.title);
    out.append("</dc:title><upnp:class>");
    out.append(media_type.value());
    out.append("</upnp:class>");
    match &m.artist {
        Some(a) => {
            out.append("<upnp:artist>");
            push_escaped_text(&mut out, a);
            out.append("</upnp:artist>");
        },
        None => {},
    }
    match &m.album {
        Some(a) => {
            out.append("<upnp:album>");
            push_escaped_text(&mut out, a);
            out.append("</upnp:album>");
        },
        None => {},
    }
    match &m.album_art_uri {
        Some(a) => {
            out.append(
                "<upnp:albumArtURI dlna:profileID=\"JPEG_TN\" xmlns:dlna=\"urn:schemas-dlna-org:metadata-1-0/\">",
            );
            push_escaped_text(&mut out, a);
            out.append("</upnp:albumArtURI>");
        },
        None => {},
    }
    match &m.genre {
        Some(a) => {
            out.append("<upnp:genre>");
            push_escaped_text(&mut out, a);
            out.append("</upnp:genre>");
        },
        None => {},
    }
    out.append("<res protocolInfo=\"");
    let pv = chars_of(m.protocol_info.as_str());
    let pe = escape_attr_all(&pv);
    let pes = string_from_chars(&pe);
    out.append(pes.as_str());
    out.append("\">");
    push_escaped_text(&mut out, &m.url);
    out.append("</res></item></DIDL-Lite>");
    proof {
        assert(out@ =~= didl_text(meta_v(*m), media_type));
    }
    out
}

/// Builds the metadata parameter value of a load request: the DIDL-Lite
/// fragment, attribute-escaped for transmission inside a SOAP parameter.
pub fn build_metadata(m: &Metadata, media_type: ObjectClass) -> (r: String)
    ensures
        r@ == spec_escape_attr(didl_text(meta_v(*m), media_type)),
{
    let fragment = build_didl_fragment(m, media_type);
    let v = chars_of(fragment.as_str());
    let e = escape_attr_all(&v);
    string_from_chars(&e)
}

} // verus!
