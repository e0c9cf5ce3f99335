use upnp_client::description::{
    build_absolute_url, enrich_device, host_of, origin_of, parse_location, parse_service_description,
    parse_services,
};
use upnp_client::UpnpError;

const DEVICE_XML: &str = r#"<?xml version="1.0" encoding="UTF-8"?>
<root xmlns="urn:schemas-upnp-org:device-1-0">
    <specVersion>
        <major>1</major>
        <minor>0</minor>
    </specVersion>
    <device>
        <deviceType>urn:schemas-upnp-org:device:WLANAccessPointDevice:1</deviceType>
        <friendlyName>NETGEAR47B64C</friendlyName>
        <manufacturer>NETGEAR</manufacturer>
        <manufacturerURL>https://www.netgear.com</manufacturerURL>
        <modelDescription>NETGEAR Dual Band Access Point</modelDescription>
        <modelName>WAX214</modelName>
        <modelNumber>WAX214</modelNumber>
        <modelURL>https://www.netgear.com</modelURL>
        <firmwareVersion>2.1.1.3</firmwareVersion>
        <insightMode>0</insightMode>
        <serialNumber>XXXXXXXXX</serialNumber>
        <UDN>uuid:919ba4ec-ec93-490f-b0e3-80CC9C47B64C</UDN>
        <presentationURL>http://xxxxxx:1337/</presentationURL>
    </device>
</root>"#;

#[test]
fn test_parsing_device_without_service_list() {
    let result = parse_services("http://xxxxxx:1337/", DEVICE_XML).unwrap();
    assert_eq!(result.len(), 0);
}

const RENDERER_XML: &str = r#"<?xml version="1.0"?>
<root xmlns="urn:schemas-upnp-org:device-1-0">
  <device>
    <deviceType>urn:schemas-upnp-org:device:MediaRenderer:1</deviceType>
    <friendlyName>Living Room</friendlyName>
    <manufacturer>Acme</manufacturer>
    <manufacturerURL></manufacturerURL>
    <modelName>Box</modelName>
    <UDN>uuid:1234</UDN>
    <serviceList>
      <service>
        <serviceType>urn:schemas-upnp-org:service:AVTransport:1</serviceType>
        <serviceId>urn:upnp-org:serviceId:AVTransport</serviceId>
        <controlURL>/ctl/AVTransport</controlURL>
        <eventSubURL>/evt/AVTransport</eventSubURL>
        <SCPDURL>/AVTransport.xml</SCPDURL>
      </service>
    </serviceList>
  </device>
</root>"#;

#[test]
fn parse_location_reads_fields_and_resolves_urls() {
    let d = parse_location("http://10.0.0.9:8080/desc.xml", RENDERER_XML).unwrap();
    assert_eq!(d.location, "http://10.0.0.9:8080/desc.xml");
    assert_eq!(d.device_type, "urn:schemas-upnp-org:device:MediaRenderer:1");
    assert_eq!(d.friendly_name, "Living Room");
    assert_eq!(d.manufacturer, "Acme");
    assert!(d.manufacturer_url.is_none());
    assert!(d.model_description.is_none());
    assert_eq!(d.model_name, "Box");
    assert!(d.model_number.is_none());
    assert_eq!(d.udn, "uuid:1234");
    assert_eq!(d.services.len(), 1);
    let s = &d.services[0];
    assert_eq!(s.service_id, "urn:upnp-org:serviceId:AVTransport");
    assert_eq!(s.control_url, "http://10.0.0.9:8080/ctl/AVTransport");
    assert_eq!(s.event_sub_url, "http://10.0.0.9:8080/evt/AVTransport");
    assert_eq!(s.scpd_url, "http://10.0.0.9:8080/AVTransport.xml");
    assert_eq!(s.actions.len(), 0);
}

#[test]
fn parse_location_without_device_is_an_error() {
    let r = parse_location("http://h/d.xml", "<?xml version=\"1.0\"?><root></root>");
    assert_eq!(r.unwrap_err(), UpnpError::MalformedDescription);
}

#[test]
fn service_missing_required_field_is_an_error() {
    let xml = r#"<root xmlns="urn:schemas-upnp-org:device-1-0"><device>
      <serviceList><service><serviceType>t</serviceType></service></serviceList>
      </device></root>"#;
    let r = parse_services("http://h:1", xml);
    assert_eq!(r.unwrap_err(), UpnpError::MalformedDescription);
}

const SCPD_XML: &str = r#"<?xml version="1.0"?>
<scpd xmlns="urn:schemas-upnp-org:service-1-0">
  <actionList>
    <action>
      <name>Play</name>
      <argumentList>
        <argument>
          <name>InstanceID</name>
          <direction>in</direction>
          <relatedStateVariable>A_ARG_TYPE_InstanceID</relatedStateVariable>
        </argument>
        <argument>
          <name>Speed</name>
          <direction>in</direction>
          <relatedStateVariable>TransportPlaySpeed</relatedStateVariable>
        </argument>
      </argumentList>
    </action>
    <action>
      <name>Stop</name>
    </action>
  </actionList>
</scpd>"#;

#[test]
fn scpd_actions_and_arguments_are_read() {
    let acts = parse_service_description(SCPD_XML).unwrap();
    assert_eq!(acts.len(), 2);
    assert_eq!(acts[0].name, "Play");
    assert_eq!(acts[0].arguments.len(), 2);
    assert_eq!(acts[0].arguments[0].name, "InstanceID");
    assert_eq!(acts[0].arguments[0].direction, "in");
    assert_eq!(acts[0].arguments[1].related_state_variable, "TransportPlaySpeed");
    assert_eq!(acts[1].name, "Stop");
    assert_eq!(acts[1].arguments.len(), 0);
}

#[test]
fn scpd_without_action_list_reads_as_unknown() {
    let acts = parse_service_description("<scpd></scpd>").unwrap();
    assert_eq!(acts.len(), 0);
}

#[test]
fn failed_scpd_fetch_leaves_service_with_empty_actions() {
    let d = parse_location("http://10.0.0.9:8080/desc.xml", RENDERER_XML).unwrap();
    let enriched = enrich_device(d, &vec![None]);
    assert_eq!(enriched.services.len(), 1);
    assert_eq!(enriched.services[0].actions.len(), 0);
    assert_eq!(enriched.services[0].service_id, "urn:upnp-org:serviceId:AVTransport");
}

#[test]
fn successful_scpd_fetch_attaches_actions() {
    let d = parse_location("http://10.0.0.9:8080/desc.xml", RENDERER_XML).unwrap();
    let enriched = enrich_device(d, &vec![Some(SCPD_XML.to_string())]);
    assert_eq!(enriched.services[0].actions.len(), 2);
    assert_eq!(enriched.services[0].actions[0].name, "Play");
}

#[test]
fn absolute_urls_are_resolved_against_the_origin() {
    assert_eq!(build_absolute_url("http://h:9", "/a/b"), "http://h:9/a/b");
    assert_eq!(build_absolute_url("http://h:9", "a/b"), "http://h:9/a/b");
    assert_eq!(build_absolute_url("http://h:9", "http://other/x"), "http://other/x");
    assert_eq!(origin_of("http://10.0.0.9:8080/desc.xml"), "http://10.0.0.9:8080");
    assert_eq!(origin_of("http://h"), "http://h");
    assert_eq!(host_of("http://10.0.0.9:8080/desc.xml"), "10.0.0.9");
    assert_eq!(host_of("http://plainhost/x"), "plainhost");
}

#[test]
fn dot_segments_are_removed_when_resolving() {
    assert_eq!(build_absolute_url("http://h:9", "a/../b"), "http://h:9/b");
    assert_eq!(build_absolute_url("http://h:9", "./x"), "http://h:9/x");
    assert_eq!(build_absolute_url("http://h:9", "a/.."), "http://h:9/");
    assert_eq!(build_absolute_url("http://h:9", ".."), "http://h:9/");
    assert_eq!(build_absolute_url("http://h:9", "/a/./b/"), "http://h:9/a/b/");
}

#[test]
fn a_network_path_reference_takes_the_origin_scheme() {
    assert_eq!(build_absolute_url("http://h:9", "//other:8/x"), "http://other:8/x");
    assert_eq!(build_absolute_url("https://h:9", "//other/x"), "https://other/x");
}

#[test]
fn a_query_is_kept_and_not_treated_as_path() {
    assert_eq!(
        build_absolute_url("http://h:9", "ctl?next=../up"),
        "http://h:9/ctl?next=../up"
    );
}

#[test]
fn fields_outside_the_device_element_are_not_the_devices() {
    let xml = r#"<root xmlns="urn:schemas-upnp-org:device-1-0">
      <device>
        <deviceType>urn:a</deviceType>
        <friendlyName>Inside</friendlyName>
        <manufacturer>M</manufacturer>
        <modelName>X</modelName>
        <UDN>uuid:1</UDN>
      </device>
      <friendlyName>Outside</friendlyName>
    </root>"#;
    let d = parse_location("http://h:1/d.xml", xml).unwrap();
    assert_eq!(d.friendly_name, "Inside");
}

#[test]
fn services_outside_the_service_list_are_not_taken() {
    let xml = r#"<root xmlns="urn:schemas-upnp-org:device-1-0">
      <device>
        <deviceType>urn:a</deviceType>
        <friendlyName>F</friendlyName>
        <manufacturer>M</manufacturer>
        <modelName>X</modelName>
        <UDN>uuid:1</UDN>
        <serviceList>
          <service>
            <serviceType>t1</serviceType>
            <serviceId>urn:upnp-org:serviceId:One</serviceId>
            <controlURL>/c1</controlURL>
            <eventSubURL>/e1</eventSubURL>
            <SCPDURL>/s1</SCPDURL>
          </service>
        </serviceList>
        <stray>
          <service>
            <serviceType>t2</serviceType>
            <serviceId>urn:upnp-org:serviceId:Two</serviceId>
            <controlURL>/c2</controlURL>
            <eventSubURL>/e2</eventSubURL>
            <SCPDURL>/s2</SCPDURL>
          </service>
        </stray>
      </device>
    </root>"#;
    let svcs = parse_services("http://h:1", xml).unwrap();
    assert_eq!(svcs.len(), 1);
    assert_eq!(svcs[0].service_id, "urn:upnp-org:serviceId:One");
}
