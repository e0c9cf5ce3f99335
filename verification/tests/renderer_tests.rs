use upnp_client::renderer::{
    format_time, get_protocols_request, get_volume_request, load_request, play_request,
    seek_request, set_next_request, set_volume_request, transport_request,
};
use upnp_client::server::{browse_request, directory_request};
use upnp_client::types::{Device, LoadOptions, Metadata, ObjectClass, Service};

fn device() -> Device {
    Device {
        location: "http://10.0.0.9:8080/desc.xml".to_string(),
        device_type: "urn:schemas-upnp-org:device:MediaRenderer:1".to_string(),
        friendly_name: "Living Room".to_string(),
        manufacturer: "Acme".to_string(),
        manufacturer_url: None,
        model_description: None,
        model_name: "Box".to_string(),
        model_number: None,
        services: vec![
            Service {
                service_type: "urn:schemas-upnp-org:service:AVTransport:1".to_string(),
                service_id: "urn:upnp-org:serviceId:AVTransport".to_string(),
                control_url: "http://10.0.0.9:8080/av".to_string(),
                event_sub_url: "http://10.0.0.9:8080/av-evt".to_string(),
                scpd_url: "http://10.0.0.9:8080/av.xml".to_string(),
                actions: vec![],
            },
            Service {
                service_type: "urn:schemas-upnp-org:service:RenderingControl:1".to_string(),
                service_id: "urn:upnp-org:serviceId:RenderingControl".to_string(),
                control_url: "http://10.0.0.9:8080/rc".to_string(),
                event_sub_url: "http://10.0.0.9:8080/rc-evt".to_string(),
                scpd_url: "http://10.0.0.9:8080/rc.xml".to_string(),
                actions: vec![],
            },
            Service {
                service_type: "urn:schemas-upnp-org:service:ConnectionManager:1".to_string(),
                service_id: "urn:upnp-org:serviceId:ConnectionManager".to_string(),
                control_url: "http://10.0.0.9:8080/cm".to_string(),
                event_sub_url: "http://10.0.0.9:8080/cm-evt".to_string(),
                scpd_url: "http://10.0.0.9:8080/cm.xml".to_string(),
                actions: vec![],
            },
            Service {
                service_type: "urn:schemas-upnp-org:service:ContentDirectory:1".to_string(),
                service_id: "urn:upnp-org:serviceId:ContentDirectory".to_string(),
                control_url: "http://10.0.0.9:8080/cd".to_string(),
                event_sub_url: "http://10.0.0.9:8080/cd-evt".to_string(),
                scpd_url: "http://10.0.0.9:8080/cd.xml".to_string(),
                actions: vec![],
            },
        ],
        udn: "uuid:1234".to_string(),
    }
}

#[test]
fn seconds_format_as_zero_padded_groups() {
    assert_eq!(format_time(3723), "01:02:03");
    assert_eq!(format_time(0), "00:00:00");
    assert_eq!(format_time(59), "00:00:59");
    assert_eq!(format_time(360000), "100:00:00");
}

#[test]
fn play_posts_to_the_av_transport_control_url() {
    let d = Some(device());
    let call = play_request(&d).unwrap();
    assert_eq!(call.control_url, "http://10.0.0.9:8080/av");
    assert!(call.body.contains("<u:Play"));
    assert!(call.body.contains("<Speed>1</Speed>"));
}

#[test]
fn seek_carries_the_formatted_target() {
    let d = Some(device());
    let call = seek_request(&d, 3723).unwrap();
    assert!(call.body.contains("<Unit>REL_TIME</Unit>"));
    assert!(call.body.contains("<Target>01:02:03</Target>"));
}

#[test]
fn volume_calls_use_the_rendering_control_service() {
    let d = Some(device());
    let call = get_volume_request(&d).unwrap();
    assert_eq!(call.control_url, "http://10.0.0.9:8080/rc");
    assert!(call.body.contains("<Channel>Master</Channel>"));
    let call = set_volume_request(&d, 25).unwrap();
    assert!(call.body.contains("<DesiredVolume>25</DesiredVolume>"));
}

#[test]
fn protocols_come_from_the_connection_manager() {
    let d = Some(device());
    let call = get_protocols_request(&d).unwrap();
    assert_eq!(call.control_url, "http://10.0.0.9:8080/cm");
    assert_eq!(call.soap_action, "\"urn:schemas-upnp-org:service:ConnectionManager:1#GetProtocolInfo\"");
}

#[test]
fn transport_queries_share_one_shape() {
    let d = Some(device());
    for name in ["Pause", "Stop", "Next", "Previous", "GetPositionInfo", "GetMediaInfo", "GetTransportInfo"] {
        let call = transport_request(&d, name).unwrap();
        assert_eq!(call.control_url, "http://10.0.0.9:8080/av");
        assert!(call.body.contains("<InstanceID>0</InstanceID>"));
    }
}

#[test]
fn load_builds_the_didl_parameter_and_reports_autoplay() {
    let d = Some(device());
    let options = LoadOptions {
        dlna_features: None,
        content_type: None,
        object_class: Some(ObjectClass::Audio),
        metadata: Some(Metadata {
            url: String::new(),
            title: "Blue".to_string(),
            artist: Some("Miles".to_string()),
            album: None,
            album_art_uri: None,
            genre: None,
            protocol_info: String::new(),
        }),
        autoplay: true,
    };
    let (call, autoplay) = load_request(&d, "http://10.0.0.2/t.mp3", &options).unwrap();
    assert!(autoplay);
    assert!(call.body.contains("<u:SetAVTransportURI"));
    assert!(call.body.contains("<CurrentURI>http://10.0.0.2/t.mp3</CurrentURI>"));
    assert!(call.body.contains("&amp;lt;DIDL-Lite"));
    assert!(call.body.contains("object.item.audioItem.musicTrack"));
    assert!(call.body.contains("http-get:*:video/mpeg:*"));
}

#[test]
fn set_next_builds_the_next_uri_parameters() {
    let d = Some(device());
    let options = LoadOptions {
        dlna_features: Some("DLNA.ORG_PN=MP3".to_string()),
        content_type: Some("audio/mpeg".to_string()),
        object_class: None,
        metadata: None,
        autoplay: false,
    };
    let call = set_next_request(&d, "http://10.0.0.2/next.mp3", &options).unwrap();
    assert!(call.body.contains("<NextURI>http://10.0.0.2/next.mp3</NextURI>"));
    assert!(call.body.contains("http-get:*:audio/mpeg:DLNA.ORG_PN=MP3"));
}

#[test]
fn browse_fills_the_directory_parameters() {
    let d = Some(device());
    let call = browse_request(&d, "0", "BrowseDirectChildren").unwrap();
    assert_eq!(call.control_url, "http://10.0.0.9:8080/cd");
    assert!(call.body.contains("<ObjectID>0</ObjectID>"));
    assert!(call.body.contains("<BrowseFlag>BrowseDirectChildren</BrowseFlag>"));
    assert!(call.body.contains("<RequestedCount>0</RequestedCount>"));
    let call = directory_request(&d, "GetSortCapabilities").unwrap();
    assert!(call.body.contains("<u:GetSortCapabilities"));
}

#[test]
fn object_class_values_are_the_wire_strings() {
    assert_eq!(ObjectClass::Audio.value(), "object.item.audioItem.musicTrack");
    assert_eq!(ObjectClass::Video.value(), "object.item.videoItem.movie");
    assert_eq!(ObjectClass::Image.value(), "object.item.imageItem.photo");
    assert_eq!(ObjectClass::Container.value(), "object.container");
}
