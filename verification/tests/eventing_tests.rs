use upnp_client::eventing::{
    decode_notify, subscribe_request, unsubscribe_request, Subscription, SubscriptionPhase,
    SubscriptionRegistry,
};
use upnp_client::types::{AVTransportEvent, Device, Event, Service};

fn device() -> Device {
    Device {
        location: "http://10.0.0.9:8080/desc.xml".to_string(),
        device_type: "urn:schemas-upnp-org:device:MediaRenderer:1".to_string(),
        friendly_name: "Living Room".to_string(),
        manufacturer: "Acme".to_string(),
        manufacturer_url: None,
        model_description: None,
        model_name: "Box".to_string(),
        model_number: None,
        services: vec![
            Service {
                service_type: "urn:schemas-upnp-org:service:AVTransport:1".to_string(),
                service_id: "urn:upnp-org:serviceId:AVTransport".to_string(),
                control_url: "http://10.0.0.9:8080/ctl".to_string(),
                event_sub_url: "http://10.0.0.9:8080/evt".to_string(),
                scpd_url: "http://10.0.0.9:8080/scpd.xml".to_string(),
                actions: vec![],
            },
            Service {
                service_type: "urn:schemas-upnp-org:service:RenderingControl:1".to_string(),
                service_id: "urn:upnp-org:serviceId:RenderingControl".to_string(),
                control_url: "http://10.0.0.9:8080/ctl2".to_string(),
                event_sub_url: "http://10.0.0.9:8080/evt2".to_string(),
                scpd_url: "http://10.0.0.9:8080/scpd2.xml".to_string(),
                actions: vec![],
            },
        ],
        udn: "uuid:1234".to_string(),
    }
}

fn notify_body(inner: &str) -> String {
    let escaped = inner
        .replace('&', "&amp;")
        .replace('<', "&lt;")
        .replace('>', "&gt;")
        .replace('"', "&quot;");
    format!(
        "<e:propertyset xmlns:e=\"urn:schemas-upnp-org:event-1-0\"><e:property><LastChange>{}</LastChange></e:property></e:propertyset>",
        escaped
    )
}

#[test]
fn a_transport_state_only_notify_yields_exactly_one_event() {
    let body = notify_body(
        "<Event><InstanceID val=\"0\"><TransportState val=\"PLAYING\"/></InstanceID></Event>",
    );
    let events = decode_notify("uuid:sub-1", &body);
    assert_eq!(events.len(), 1);
    match &events[0] {
        Event::AVTransport(AVTransportEvent::TransportState { sid, transport_state }) => {
            assert_eq!(sid, "uuid:sub-1");
            assert_eq!(transport_state, "PLAYING");
        }
        other => panic!("unexpected event: {:?}", other),
    }
}

#[test]
fn events_of_one_notify_come_in_the_fixed_order() {
    let body = notify_body(
        "<Event><InstanceID val=\"0\"><CurrentPlayMode val=\"NORMAL\"/><TransportState val=\"PAUSED_PLAYBACK\"/></InstanceID></Event>",
    );
    let events = decode_notify("s", &body);
    assert_eq!(events.len(), 2);
    assert!(matches!(
        events[0],
        Event::AVTransport(AVTransportEvent::TransportState { .. })
    ));
    assert!(matches!(
        events[1],
        Event::AVTransport(AVTransportEvent::CurrentPlayMode { .. })
    ));
}

#[test]
fn a_notify_without_recognized_fields_yields_no_events() {
    let body = notify_body("<Event><InstanceID val=\"0\"><Mute val=\"1\"/></InstanceID></Event>");
    assert_eq!(decode_notify("s", &body).len(), 0);
    assert_eq!(decode_notify("s", "not xml").len(), 0);
}

#[test]
fn track_metadata_in_a_notify_becomes_a_metadata_event() {
    let didl = "<DIDL-Lite><item id=\"i\"><dc:title>Blue</dc:title><upnp:artist>Miles</upnp:artist></item></DIDL-Lite>";
    let escaped_didl = didl
        .replace('&', "&amp;")
        .replace('<', "&lt;")
        .replace('>', "&gt;")
        .replace('"', "&quot;");
    let inner = format!(
        "<Event><InstanceID val=\"0\"><CurrentTrackMetaData val=\"{}\"/></InstanceID></Event>",
        escaped_didl
    );
    let body = notify_body(&inner);
    let events = decode_notify("s", &body);
    assert_eq!(events.len(), 1);
    match &events[0] {
        Event::AVTransport(AVTransportEvent::CurrentTrackMetadata { title, artist, .. }) => {
            assert_eq!(title, "Blue");
            assert_eq!(artist.as_deref(), Some("Miles"));
        }
        other => panic!("unexpected event: {:?}", other),
    }
}

#[test]
fn the_subscription_lifecycle_runs_its_phases() {
    let s = Subscription::new(
        "urn:upnp-org:serviceId:AVTransport".to_string(),
        "10.0.0.5:4321".to_string(),
    );
    assert_eq!(s.phase, SubscriptionPhase::Unsubscribed);
    let s = s.begin_subscribe();
    assert_eq!(s.phase, SubscriptionPhase::Subscribing);
    let s = s.complete_subscribe("uuid:sub-9".to_string());
    assert_eq!(s.phase, SubscriptionPhase::Subscribed);
    assert_eq!(s.sid, "uuid:sub-9");
    let s = s.begin_unsubscribe();
    assert_eq!(s.phase, SubscriptionPhase::Unsubscribing);
    let s = s.complete_unsubscribe();
    assert_eq!(s.phase, SubscriptionPhase::Unsubscribed);
    assert_eq!(s.sid, "uuid:sub-9");
}

#[test]
fn subscribe_and_unsubscribe_requests_carry_the_gena_headers() {
    let d = Some(device());
    let call = subscribe_request(&d, "AVTransport", "10.0.0.5:4321").unwrap();
    assert_eq!(call.url, "http://10.0.0.9:8080/evt");
    assert_eq!(call.header, "<http://10.0.0.5:4321>");

    let sub = Subscription::new(
        "AVTransport".to_string(),
        "10.0.0.5:4321".to_string(),
    )
        .begin_subscribe()
        .complete_subscribe("uuid:sub-9".to_string());
    let call = unsubscribe_request(&d, &sub).unwrap();
    assert_eq!(call.url, "http://10.0.0.9:8080/evt");
    assert_eq!(call.header, "uuid:sub-9");
}

#[test]
fn two_subscriptions_each_receive_only_their_own_events() {
    let mut reg = SubscriptionRegistry::new();
    let a = Subscription::new("urn:upnp-org:serviceId:AVTransport".to_string(), "h:1".to_string())
        .begin_subscribe()
        .complete_subscribe("uuid:sub-a".to_string());
    let b = Subscription::new(
        "urn:upnp-org:serviceId:RenderingControl".to_string(),
        "h:2".to_string(),
    )
        .begin_subscribe()
        .complete_subscribe("uuid:sub-b".to_string());
    assert!(reg.register(a));
    assert!(reg.register(b));
    assert_eq!(reg.route(&"uuid:sub-a".to_string()), Some(0));
    assert_eq!(reg.route(&"uuid:sub-b".to_string()), Some(1));
    assert_eq!(reg.route(&"uuid:sub-c".to_string()), None);
}

#[test]
fn a_taken_sid_cannot_be_registered_twice() {
    let mut reg = SubscriptionRegistry::new();
    let a = Subscription::new("s1".to_string(), "h:1".to_string())
        .begin_subscribe()
        .complete_subscribe("uuid:dup".to_string());
    let b = Subscription::new("s2".to_string(), "h:2".to_string())
        .begin_subscribe()
        .complete_subscribe("uuid:dup".to_string());
    assert!(reg.register(a));
    assert!(!reg.register(b));
}
