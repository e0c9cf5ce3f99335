use upnp_client::parser::{
    deserialize_content_directory, deserialize_metadata, parse_browse_response,
    parse_current_play_mode, parse_duration, parse_last_change, parse_position,
    parse_supported_protocols, parse_transport_info, parse_transport_state, parse_volume,
};
use upnp_client::types::ObjectClass;
use upnp_client::UpnpError;

#[test]
fn volume_decoding_returns_the_number() {
    let xml = "<s:Envelope><s:Body><u:GetVolumeResponse><CurrentVolume>37</CurrentVolume></u:GetVolumeResponse></s:Body></s:Envelope>";
    assert_eq!(parse_volume(xml).unwrap(), 37);
}

#[test]
fn volume_decoding_rejects_a_missing_or_bad_value() {
    assert_eq!(parse_volume("<a></a>").unwrap_err(), UpnpError::MalformedDescription);
    assert_eq!(
        parse_volume("<CurrentVolume>loud</CurrentVolume>").unwrap_err(),
        UpnpError::MalformedDescription
    );
    assert_eq!(
        parse_volume("<CurrentVolume>300</CurrentVolume>").unwrap_err(),
        UpnpError::MalformedDescription
    );
}

#[test]
fn position_decoding_reads_rel_time() {
    let xml = "<r><RelTime>01:02:03</RelTime></r>";
    assert_eq!(parse_position(xml).unwrap(), 3723);
}

#[test]
fn duration_decoding_reads_media_duration() {
    let xml = "<r><MediaDuration>01:02:03</MediaDuration></r>";
    assert_eq!(parse_duration(xml).unwrap(), 3723);
    let bad = "<r><MediaDuration>0:5</MediaDuration></r>";
    assert_eq!(parse_duration(bad).unwrap_err(), UpnpError::MalformedDescription);
}

#[test]
fn protocols_are_split_on_commas() {
    let xml = "<r><Sink>http-get:*:audio/mpeg:*,http-get:*:video/mp4:*</Sink></r>";
    let ps = parse_supported_protocols(xml).unwrap();
    assert_eq!(ps, vec!["http-get:*:audio/mpeg:*", "http-get:*:video/mp4:*"]);
    let none = parse_supported_protocols("<r></r>").unwrap();
    assert_eq!(none, vec![""]);
}

#[test]
fn transport_info_reads_three_fields() {
    let xml = "<r><CurrentTransportState>PLAYING</CurrentTransportState><CurrentTransportStatus>OK</CurrentTransportStatus><CurrentSpeed>1</CurrentSpeed></r>";
    let t = parse_transport_info(xml).unwrap();
    assert_eq!(t.current_transport_state, "PLAYING");
    assert_eq!(t.current_transport_status, "OK");
    assert_eq!(t.current_speed, "1");
}

#[test]
fn last_change_payload_is_extracted_and_unescaped() {
    let body = "<e:propertyset><e:property><LastChange>&lt;Event&gt;&lt;TransportState val=&quot;PLAYING&quot;/&gt;&lt;/Event&gt;</LastChange></e:property></e:propertyset>";
    let lc = parse_last_change(body).unwrap().unwrap();
    assert_eq!(lc, "<Event><TransportState val=\"PLAYING\"/></Event>");
    assert_eq!(parse_transport_state(&lc).unwrap().unwrap(), "PLAYING");
    assert!(parse_current_play_mode(&lc).unwrap().is_none());
}

#[test]
fn metadata_decoding_reads_the_item() {
    let didl = "<DIDL-Lite><item id=\"song7\"><dc:title>Blue</dc:title><upnp:artist>Miles</upnp:artist><upnp:album>Kind</upnp:album><upnp:albumArtURI>http://a/art.jpg</upnp:albumArtURI><upnp:genre>Jazz</upnp:genre></item></DIDL-Lite>";
    let m = deserialize_metadata(didl).unwrap();
    assert_eq!(m.url, "song7");
    assert_eq!(m.title, "Blue");
    assert_eq!(m.artist.unwrap(), "Miles");
    assert_eq!(m.album.unwrap(), "Kind");
    assert_eq!(m.album_art_uri.unwrap(), "http://a/art.jpg");
    assert_eq!(m.genre.unwrap(), "Jazz");
}

const BROWSE_DIDL: &str = "<DIDL-Lite>\
<container id=\"c1\" parentID=\"0\"><dc:title>Albums</dc:title><upnp:class>object.container</upnp:class></container>\
<item id=\"i1\" parentID=\"c1\"><dc:title>Track</dc:title><upnp:artist>Ana</upnp:artist>\
<upnp:class>object.item.audioItem.musicTrack</upnp:class>\
<res protocolInfo=\"http-get:*:audio/mpeg:*\" size=\"1000\" duration=\"0:03:20\">http://192.168.1.5:8200/t.mp3</res>\
</item></DIDL-Lite>";

#[test]
fn content_directory_decoding_reads_containers_and_items() {
    let (cs, is) = deserialize_content_directory(BROWSE_DIDL, "192.168.1.5").unwrap();
    assert_eq!(cs.len(), 1);
    assert_eq!(cs[0].id, "c1");
    assert_eq!(cs[0].parent_id, "0");
    assert_eq!(cs[0].title, "Albums");
    assert_eq!(cs[0].object_class, Some(ObjectClass::Container));
    assert_eq!(is.len(), 1);
    assert_eq!(is[0].id, "i1");
    assert_eq!(is[0].title, "Track");
    assert_eq!(is[0].artist.as_deref(), Some("Ana"));
    assert_eq!(is[0].object_class, Some(ObjectClass::Audio));
    assert_eq!(is[0].protocol_info, "http-get:*:audio/mpeg:*");
    assert_eq!(is[0].size, Some(1000));
    assert_eq!(is[0].duration.as_deref(), Some("0:03:20"));
    assert_eq!(is[0].url, "http://192.168.1.5:8200/t.mp3");
}

#[test]
fn content_directory_rejects_a_malformed_size() {
    let didl = "<DIDL-Lite><item id=\"i\"><res size=\"big\">x</res></item></DIDL-Lite>";
    let r = deserialize_content_directory(didl, "10.0.0.1");
    assert_eq!(r.unwrap_err(), UpnpError::MalformedDescription);
}

#[test]
fn a_resource_on_another_host_is_not_taken_as_the_url() {
    let didl = "<DIDL-Lite><item id=\"i\"><res protocolInfo=\"http-get:*:audio/mpeg:*\">http://192.168.1.77:8200/t.mp3</res></item></DIDL-Lite>";
    let (_, is) = deserialize_content_directory(didl, "192.168.1.5").unwrap();
    assert_eq!(is[0].url, "");
}

#[test]
fn browse_response_unwraps_the_result_element() {
    let escaped = BROWSE_DIDL
        .replace('&', "&amp;")
        .replace('<', "&lt;")
        .replace('>', "&gt;")
        .replace('"', "&quot;");
    let body = format!("<s:Envelope><Result>{}</Result></s:Envelope>", escaped);
    let (cs, is) = parse_browse_response(&body, "192.168.1.5").unwrap();
    assert_eq!(cs.len(), 1);
    assert_eq!(is.len(), 1);
    assert_eq!(is[0].url, "http://192.168.1.5:8200/t.mp3");
}

#[test]
fn browse_response_without_result_is_empty() {
    let (cs, is) = parse_browse_response("<s:Envelope></s:Envelope>", "1.2.3.4").unwrap();
    assert_eq!(cs.len(), 0);
    assert_eq!(is.len(), 0);
}

#[test]
fn a_resource_before_any_item_with_annotations_is_an_error() {
    let with_size = "<DIDL-Lite><res size=\"1000\">x</res></DIDL-Lite>";
    assert_eq!(
        deserialize_content_directory(with_size, "10.0.0.1").unwrap_err(),
        UpnpError::MalformedDescription
    );
    let with_bad_size = "<DIDL-Lite><res size=\"big\">x</res></DIDL-Lite>";
    assert_eq!(
        deserialize_content_directory(with_bad_size, "10.0.0.1").unwrap_err(),
        UpnpError::MalformedDescription
    );
    let with_proto = "<DIDL-Lite><res protocolInfo=\"http-get:*:audio/mpeg:*\">x</res></DIDL-Lite>";
    assert_eq!(
        deserialize_content_directory(with_proto, "10.0.0.1").unwrap_err(),
        UpnpError::MalformedDescription
    );
    let with_duration = "<DIDL-Lite><res duration=\"0:01:00\">x</res></DIDL-Lite>";
    assert_eq!(
        deserialize_content_directory(with_duration, "10.0.0.1").unwrap_err(),
        UpnpError::MalformedDescription
    );
}

#[test]
fn a_bare_resource_before_any_item_is_skipped() {
    let bare = "<DIDL-Lite><res>x</res><item id=\"i\"><dc:title>T</dc:title></item></DIDL-Lite>";
    let (cs, is) = deserialize_content_directory(bare, "10.0.0.1").unwrap();
    assert_eq!(cs.len(), 0);
    assert_eq!(is.len(), 1);
    assert_eq!(is[0].title, "T");
    let nonmedia =
        "<DIDL-Lite><res protocolInfo=\"http-get:*:text/plain:*\">x</res></DIDL-Lite>";
    let (cs, is) = deserialize_content_directory(nonmedia, "10.0.0.1").unwrap();
    assert_eq!(cs.len(), 0);
    assert_eq!(is.len(), 0);
}
