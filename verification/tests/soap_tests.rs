use upnp_client::soap::{call_action_request, decode_soap_response, resolve_service};
use upnp_client::types::{Action, Device, Service};
use upnp_client::UpnpError;

fn device() -> Device {
    Device {
        location: "http://10.0.0.9:8080/desc.xml".to_string(),
        device_type: "urn:schemas-upnp-org:device:MediaRenderer:1".to_string(),
        friendly_name: "Living Room".to_string(),
        manufacturer: "Acme".to_string(),
        manufacturer_url: None,
        model_description: None,
        model_name: "Box".to_string(),
        model_number: None,
        services: vec![
            Service {
                service_type: "urn:schemas-upnp-org:service:AVTransport:1".to_string(),
                service_id: "urn:upnp-org:serviceId:AVTransport".to_string(),
                control_url: "http://10.0.0.9:8080/ctl".to_string(),
                event_sub_url: "http://10.0.0.9:8080/evt".to_string(),
                scpd_url: "http://10.0.0.9:8080/scpd.xml".to_string(),
                actions: vec![],
            },
        ],
        udn: "uuid:1234".to_string(),
    }
}

#[test]
fn service_ids_are_canonicalized() {
    assert_eq!(resolve_service("AVTransport"), "urn:upnp-org:serviceId:AVTransport");
    assert_eq!(
        resolve_service("urn:upnp-org:serviceId:AVTransport"),
        "urn:upnp-org:serviceId:AVTransport"
    );
}

#[test]
fn a_bare_and_a_canonical_service_id_make_the_same_call() {
    let d = Some(device());
    let params = vec![("InstanceID".to_string(), "0".to_string())];
    let a = call_action_request(&d, "AVTransport", "Play", &params).unwrap();
    let b = call_action_request(&d, "urn:upnp-org:serviceId:AVTransport", "Play", &params)
        .unwrap();
    assert_eq!(a.control_url, b.control_url);
    assert_eq!(a.soap_action, b.soap_action);
    assert_eq!(a.body, b.body);
}

#[test]
fn the_envelope_is_exactly_formed() {
    let d = Some(device());
    let params = vec![("InstanceID".to_string(), "0".to_string())];
    let call = call_action_request(&d, "AVTransport", "Play", &params).unwrap();
    assert_eq!(call.control_url, "http://10.0.0.9:8080/ctl");
    assert_eq!(call.soap_action, "\"urn:schemas-upnp-org:service:AVTransport:1#Play\"");
    assert_eq!(
        call.body,
        "<?xml version=\"1.1\" encoding=\"UTF-8\"?><s:Envelope xmlns:s=\"http://schemas.xmlsoap.org/soap/envelope/\" s:encodingStyle=\"http://schemas.xmlsoap.org/soap/encoding/\"><s:Body><u:Play xmlns:u=\"urn:schemas-upnp-org:service:AVTransport:1\"><InstanceID>0</InstanceID></u:Play></s:Body></s:Envelope>"
    );
}

#[test]
fn calls_before_a_device_is_resolved_are_refused() {
    let r = call_action_request(&None, "AVTransport", "Play", &vec![]);
    assert_eq!(r.unwrap_err(), UpnpError::NotConnected);
}

#[test]
fn an_unknown_service_is_refused() {
    let d = Some(device());
    let r = call_action_request(&d, "ContentDirectory", "Browse", &vec![]);
    assert_eq!(r.unwrap_err(), UpnpError::ServiceNotFound);
}

#[test]
fn an_empty_action_list_passes_any_action_through() {
    let d = Some(device());
    let r = call_action_request(&d, "AVTransport", "NotDeclaredAnywhere", &vec![]);
    assert!(r.is_ok());
}

#[test]
fn a_non_empty_action_list_is_authoritative() {
    let mut dev = device();
    dev.services[0].actions = vec![Action { name: "Play".to_string(), arguments: vec![] }];
    let d = Some(dev);
    assert!(call_action_request(&d, "AVTransport", "Play", &vec![]).is_ok());
    let r = call_action_request(&d, "AVTransport", "Pause", &vec![]);
    assert_eq!(r.unwrap_err(), UpnpError::ActionNotFound);
}

#[test]
fn parameter_values_are_escaped() {
    let d = Some(device());
    let params = vec![("CurrentURIMetaData".to_string(), "<a & b>".to_string())];
    let call = call_action_request(&d, "AVTransport", "SetAVTransportURI", &params).unwrap();
    assert!(call.body.contains("<CurrentURIMetaData>&lt;a &amp; b&gt;</CurrentURIMetaData>"));
}

#[test]
fn a_successful_response_body_is_handed_back_unchanged() {
    let r = decode_soap_response(true, "<x>ok</x>").unwrap();
    assert_eq!(r, "<x>ok</x>");
}

#[test]
fn a_fault_carries_the_error_code_and_description() {
    let body = "<s:Envelope><s:Fault><UPnPError><errorCode>718</errorCode><errorDescription>Invalid InstanceID</errorDescription></UPnPError></s:Fault></s:Envelope>";
    let e = decode_soap_response(false, body).unwrap_err();
    assert_eq!(
        e,
        UpnpError::SoapFault {
            error_code: Some(718),
            description: Some("Invalid InstanceID".to_string()),
        }
    );
}

#[test]
fn a_fault_without_detail_still_reports_a_fault() {
    let e = decode_soap_response(false, "garbage").unwrap_err();
    assert_eq!(e, UpnpError::SoapFault { error_code: None, description: None });
}

#[test]
fn the_action_list_reports_whether_it_is_authoritative() {
    let mut dev = device();
    assert!(!dev.services[0].has_authoritative_actions());
    dev.services[0].actions = vec![Action { name: "Play".to_string(), arguments: vec![] }];
    assert!(dev.services[0].has_authoritative_actions());
}
