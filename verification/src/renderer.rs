//! The media-renderer convenience layer's pure side: for each verb the
//! prepared control call against the device's AVTransport, RenderingControl
//! or ConnectionManager service, and the target-time formatting a seek
//! uses. The transport layer POSTs each call and hands the response to the
//! matching decoder.

use vstd::prelude::*;

use crate::didl::{build_metadata, didl_text, meta_v, MetaV};
use crate::escape::spec_escape_attr;
use crate::soap::{call_action_request, spec_action_call, ActionCall, params_view};
use crate::strutil::{dec_chars2, dec_str2, oview_str, string_from_chars};
use crate::types::{Device, LoadOptions, Metadata, ObjectClass};
use crate::UpnpError;

verus! {

/// The `HH:MM:SS` form of a number of seconds, each group two digits or
/// more.
pub open spec fn spec_format_time(n: int) -> Seq<char> {
    dec_str2(n / 3600) + ":"@ + dec_str2((n % 3600) / 60) + ":"@ + dec_str2(n % 60)
}

/// Formats seconds as a `HH:MM:SS` seek target.
pub fn format_time(seconds: u64) -> (r: String)
    ensures
        r@ == spec_format_time(seconds as int),
{
    let h = dec_chars2(seconds / 3600);
    let m = dec_chars2((seconds % 3600) / 60);
    let s = dec_chars2(seconds % 60);
    let mut out = String::new();
    out.append(string_from_chars(&h).as_str());
    out.append(":");
    out.append(string_from_chars(&m).as_str());
    out.append(":");
    out.append(string_from_chars(&s).as_str());
    out
}

/// One `(name, value)` parameter pair.
fn pair(n: &str, v: &str) -> (r: (String, String))
    ensures
        r.0@ == n@,
        r.1@ == v@,
{
    (n.to_owned(), v.to_owned())
}

/// The play-mode defaults of a load request: `video/mpeg` and `*` stand in
/// for absent content type and DLNA features.
pub open spec fn load_protocol_info(options: LoadOptions) -> Seq<char> {
    "http-get:*:"@ + (match options.content_type {
        Some(c) => c@,
        None => "video/mpeg"@,
    }) + ":"@ + (match options.dlna_features {
        Some(d) => d@,
        None => "*"@,
    })
}

/// The metadata a load request describes: the caller's metadata fields
/// when given, under the request's URL and protocol information.
pub open spec fn load_meta(url: Seq<char>, options: LoadOptions) -> MetaV {
    MetaV {
        url,
        title: match options.metadata {
            Some(m) => m.title@,
            None => Seq::empty(),
        },
        artist: match options.metadata {
            Some(m) => oview_str(m.artist),
            None => None,
        },
        album: match options.metadata {
            Some(m) => oview_str(m.album),
            None => None,
        },
        album_art: match options.metadata {
            Some(m) => oview_str(m.album_art_uri),
            None => None,
        },
        genre: match options.metadata {
            Some(m) => oview_str(m.genre),
            None => None,
        },
        protocol_info: load_protocol_info(options),
    }
}

/// The object class a load request declares; video when none is given.
pub open spec fn load_class(options: LoadOptions) -> ObjectClass {
    match options.object_class {
        Some(c) => c,
        None => ObjectClass::Video,
    }
}

/// Builds the metadata value a load or set-next request carries.
fn load_metadata(url: &str, options: &LoadOptions) -> (r: Metadata)
    ensures
        meta_v(r) == load_meta(url@, *options),
{
    let mut m = match &options.metadata {
        Some(given) => given.clone_fields(),
        None => Metadata::empty(),
    };
    m.url = url.to_owned();
    let mut proto = String::new();
    proto.append("http-get:*:");
    match &options.content_type {
        Some(c) => proto.append(c.as_str()),
        None => proto.append("video/mpeg"),
    }
    proto.append(":");
    match &options.dlna_features {
        Some(d) => proto.append(d.as_str()),
        None => proto.append("*"),
    }
    m.protocol_info = proto;
    m
}

/// The parameters of a SetAVTransportURI or SetNextAVTransportURI call:
/// the instance, the URI, and the attribute-escaped DIDL-Lite fragment.
pub open spec fn load_params(url: Seq<char>, options: LoadOptions, uri_name: Seq<char>, meta_name: Seq<char>) -> Seq<
    (Seq<char>, Seq<char>),
> {
    seq![
        ("InstanceID"@, "0"@),
        (uri_name, url),
        (meta_name, spec_escape_attr(didl_text(load_meta(url, options), load_class(options)))),
    ]
}

/// Prepares a load: a SetAVTransportURI call carrying the URL and its
/// DIDL-Lite description; the caller then plays when `autoplay` asks it.
pub fn load_request(device: &Option<Device>, url: &str, options: &LoadOptions) -> (r: Result<
    (ActionCall, bool),
    UpnpError,
>)
    ensures
        match r {
            Ok(p) => spec_action_call(
                *device,
                "AVTransport"@,
                "SetAVTransportURI"@,
                load_params(url@, *options, "CurrentURI"@, "CurrentURIMetaData"@),
            ) == Ok::<_, UpnpError>((p.0.control_url@, p.0.soap_action@, p.0.body@)) && p.1
                == options.autoplay,
            Err(e) => spec_action_call(
                *device,
                "AVTransport"@,
                "SetAVTransportURI"@,
                load_params(url@, *options, "CurrentURI"@, "CurrentURIMetaData"@),
            ) == Err::<(Seq<char>, Seq<char>, Seq<char>), _>(e),
        },
{
    let m = load_metadata(url, options);
    let class = match &options.object_class {
        Some(c) => *c,
        None => ObjectClass::Video,
    };
    let didl = build_metadata(&m, class);
    let mut params: Vec<(String, String)> = Vec::new();
    params.push(pair("InstanceID", "0"));
    params.push(pair("CurrentURI", url));
    params.push(("CurrentURIMetaData".to_owned(), didl));
    proof {
        assert(params_view(params@) =~= load_params(
            url@,
            *options,
            "CurrentURI"@,
            "CurrentURIMetaData"@,
        ));
    }
    let call = call_action_request(device, "AVTransport", "SetAVTransportURI", &params)?;
    Ok((call, options.autoplay))
}

/// Prepares a set-next: a SetNextAVTransportURI call carrying the URL and
/// its DIDL-Lite description.
pub fn set_next_request(device: &Option<Device>, url: &str, options: &LoadOptions) -> (r: Result<
    ActionCall,
    UpnpError,
>)
    ensures
        match r {
            Ok(call) => spec_action_call(
                *device,
                "AVTransport"@,
                "SetNextAVTransportURI"@,
                load_params(url@, *options, "NextURI"@, "NextURIMetaData"@),
            ) == Ok::<_, UpnpError>((call.control_url@, call.soap_action@, call.body@)),
            Err(e) => spec_action_call(
                *device,
                "AVTransport"@,
                "SetNextAVTransportURI"@,
                load_params(url@, *options, "NextURI"@, "NextURIMetaData"@),
            ) == Err::<(Seq<char>, Seq<char>, Seq<char>), _>(e),
        },
{
    let m = load_metadata(url, options);
    let class = match &options.object_class {
        Some(c) => *c,
        None => ObjectClass::Video,
    };
    let didl = build_metadata(&m, class);
    let mut params: Vec<(String, String)> = Vec::new();
    params.push(pair("InstanceID", "0"));
    params.push(pair("NextURI", url));
    params.push(("NextURIMetaData".to_owned(), didl));
    proof {
        assert(params_view(params@) =~= load_params(
            url@,
            *options,
            "NextURI"@,
            "NextURIMetaData"@,
        ));
    }
    call_action_request(device, "AVTransport", "SetNextAVTransportURI", &params)
}

/// Prepares a Play call at speed one.
pub fn play_request(device: &Option<Device>) -> (r: Result<ActionCall, UpnpError>)
    ensures
        match r {
            Ok(call) => spec_action_call(
                *device,
                "AVTransport"@,
                "Play"@,
                seq![("InstanceID"@, "0"@), ("Speed"@, "1"@)],
            ) == Ok::<_, UpnpError>((call.control_url@, call.soap_action@, call.body@)),
            Err(e) => spec_action_call(
                *device,
                "AVTransport"@,
                "Play"@,
                seq![("InstanceID"@, "0"@), ("Speed"@, "1"@)],
            ) == Err::<(Seq<char>, Seq<char>, Seq<char>), _>(e),
        },
{
    let mut params: Vec<(String, String)> = Vec::new();
    params.push(pair("InstanceID", "0"));
    params.push(pair("Speed", "1"));
    proof {
        assert(params_view(params@) =~= seq![("InstanceID"@, "0"@), ("Speed"@, "1"@)]);
    }
    call_action_request(device, "AVTransport", "Play", &params)
}

/// Prepares one instance-only AVTransport call, as Pause, Stop, Next,
/// Previous, GetPositionInfo, GetMediaInfo and GetTransportInfo all are.
pub fn transport_request(device: &Option<Device>, action_name: &str) -> (r: Result<
    ActionCall,
    UpnpError,
>)
    ensures
        match r {
            Ok(call) => spec_action_call(
                *device,
                "AVTransport"@,
                action_name@,
                seq![("InstanceID"@, "0"@)],
            ) == Ok::<_, UpnpError>((call.control_url@, call.soap_action@, call.body@)),
            Err(e) => spec_action_call(
                *device,
                "AVTransport"@,
                action_name@,
                seq![("InstanceID"@, "0"@)],
            ) == Err::<(Seq<char>, Seq<char>, Seq<char>), _>(e),
        },
{
    let mut params: Vec<(String, String)> = Vec::new();
    params.push(pair("InstanceID", "0"));
    proof {
        assert(params_view(params@) =~= seq![("InstanceID"@, "0"@)]);
    }
    call_action_request(device, "AVTransport", action_name, &params)
}

/// Prepares a Seek call to a position in seconds, as a REL_TIME target.
pub fn seek_request(device: &Option<Device>, seconds: u64) -> (r: Result<ActionCall, UpnpError>)
    ensures
        match r {
            Ok(call) => spec_action_call(
                *device,
                "AVTransport"@,
                "Seek"@,
                seq![
                    ("InstanceID"@, "0"@),
                    ("Unit"@, "REL_TIME"@),
                    ("Target"@, spec_format_time(seconds as int)),
                ],
            ) == Ok::<_, UpnpError>((call.control_url@, call.soap_action@, call.body@)),
            Err(e) => spec_action_call(
                *device,
                "AVTransport"@,
                "Seek"@,
                seq![
                    ("InstanceID"@, "0"@),
                    ("Unit"@, "REL_TIME"@),
                    ("Target"@, spec_format_time(seconds as int)),
                ],
            ) == Err::<(Seq<char>, Seq<char>, Seq<char>), _>(e),
        },
{
    let mut params: Vec<(String, String)> = Vec::new();
    params.push(pair("InstanceID", "0"));
    params.push(pair("Unit", "REL_TIME"));
    params.push(("Target".to_owned(), format_time(seconds)));
    proof {
        assert(params_view(params@) =~= seq![
            ("InstanceID"@, "0"@),
            ("Unit"@, "REL_TIME"@),
            ("Target"@, spec_format_time(seconds as int)),
        ]);
    }
    call_action_request(device, "AVTransport", "Seek", &params)
}

/// Prepares a GetVolume call on the master channel.
pub fn get_volume_request(device: &Option<Device>) -> (r: Result<ActionCall, UpnpError>)
    ensures
        match r {
            Ok(call) => spec_action_call(
                *device,
                "RenderingControl"@,
                "GetVolume"@,
                seq![("InstanceID"@, "0"@), ("Channel"@, "Master"@)],
            ) == Ok::<_, UpnpError>((call.control_url@, call.soap_action@, call.body@)),
            Err(e) => spec_action_call(
                *device,
                "RenderingControl"@,
                "GetVolume"@,
                seq![("InstanceID"@, "0"@), ("Channel"@, "Master"@)],
            ) == Err::<(Seq<char>, Seq<char>, Seq<char>), _>(e),
        },
{
    let mut params: Vec<(String, String)> = Vec::new();
    params.push(pair("InstanceID", "0"));
    params.push(pair("Channel", "Master"));
    proof {
        assert(params_view(params@) =~= seq![("InstanceID"@, "0"@), ("Channel"@, "Master"@)]);
    }
    call_action_request(device, "RenderingControl", "GetVolume", &params)
}

/// Prepares a SetVolume call on the master channel.
pub fn set_volume_request(device: &Option<Device>, volume: u32) -> (r: Result<
    ActionCall,
    UpnpError,
>)
    ensures
        match r {
            Ok(call) => spec_action_call(
                *device,
                "RenderingControl"@,
                "SetVolume"@,
                seq![
                    ("InstanceID"@, "0"@),
                    ("Channel"@, "Master"@),
                    ("DesiredVolume"@, crate::strutil::dec_str(volume as int)),
                ],
            ) == Ok::<_, UpnpError>((call.control_url@, call.soap_action@, call.body@)),
            Err(e) => spec_action_call(
                *device,
                "RenderingControl"@,
                "SetVolume"@,
                seq![
                    ("InstanceID"@, "0"@),
                    ("Channel"@, "Master"@),
                    ("DesiredVolume"@, crate::strutil::dec_str(volume as int)),
                ],
            ) == Err::<(Seq<char>, Seq<char>, Seq<char>), _>(e),
        },
{
    let mut params: Vec<(String, String)> = Vec::new();
    params.push(pair("InstanceID", "0"));
    params.push(pair("Channel", "Master"));
    let dv = crate::strutil::dec_chars(volume as u64);
    params.push(("DesiredVolume".to_owned(), string_from_chars(&dv)));
    proof {
        assert(params_view(params@) =~= seq![
            ("InstanceID"@, "0"@),
            ("Channel"@, "Master"@),
            ("DesiredVolume"@, crate::strutil::dec_str(volume as int)),
        ]);
    }
    call_action_request(device, "RenderingControl", "SetVolume", &params)
}

/// Prepares a GetProtocolInfo call on the connection manager.
pub fn get_protocols_request(device: &Option<Device>) -> (r: Result<ActionCall, UpnpError>)
    ensures
        match r {
            Ok(call) => spec_action_call(
                *device,
                "ConnectionManager"@,
                "GetProtocolInfo"@,
                seq![("InstanceID"@, "0"@)],
            ) == Ok::<_, UpnpError>((call.control_url@, call.soap_action@, call.body@)),
            Err(e) => spec_action_call(
                *device,
                "ConnectionManager"@,
                "GetProtocolInfo"@,
                seq![("InstanceID"@, "0"@)],
            ) == Err::<(Seq<char>, Seq<char>, Seq<char>), _>(e),
        },
{
    let mut params: Vec<(String, String)> = Vec::new();
    params.push(pair("InstanceID", "0"));
    proof {
        assert(params_view(params@) =~= seq![("InstanceID"@, "0"@)]);
    }
    call_action_request(device, "ConnectionManager", "GetProtocolInfo", &params)
}

} // verus!
