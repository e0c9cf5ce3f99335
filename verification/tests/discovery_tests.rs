use upnp_client::discovery::{discovery_request, parse_raw_http_response, ssdp_location};

#[test]
fn the_discovery_request_is_the_fixed_msearch_block() {
    let r = discovery_request();
    assert_eq!(
        r,
        "M-SEARCH * HTTP/1.1\r\nHOST: 239.255.255.250:1900\r\nMAN: \"ssdp:discover\"\r\nMX: 2\r\nST: ssdp:all\r\n\r\n"
    );
}

#[test]
fn headers_are_lowercased_and_trimmed() {
    let datagram = "HTTP/1.1 200 OK\r\nCACHE-CONTROL: max-age=1800\r\nLOCATION:  http://10.0.0.9:8080/desc.xml \r\nST: upnp:rootdevice\r\n\r\nbody";
    let hs = parse_raw_http_response(datagram).unwrap();
    assert!(hs.contains(&("cache-control".to_string(), "max-age=1800".to_string())));
    assert!(hs.contains(&("location".to_string(), "http://10.0.0.9:8080/desc.xml".to_string())));
}

#[test]
fn a_well_formed_response_yields_its_location() {
    let datagram = "HTTP/1.1 200 OK\r\nLOCATION: http://10.0.0.9:8080/desc.xml\r\n\r\n";
    assert_eq!(
        ssdp_location(datagram).unwrap(),
        "http://10.0.0.9:8080/desc.xml"
    );
}

#[test]
fn the_location_header_is_matched_case_insensitively() {
    let datagram = "HTTP/1.1 200 OK\r\nLocation: http://h/d.xml\r\n\r\n";
    assert_eq!(ssdp_location(datagram).unwrap(), "http://h/d.xml");
}

#[test]
fn a_location_less_response_yields_nothing() {
    let datagram = "HTTP/1.1 200 OK\r\nST: upnp:rootdevice\r\n\r\n";
    assert!(ssdp_location(datagram).is_none());
}

#[test]
fn a_malformed_datagram_yields_nothing_and_no_error() {
    assert!(ssdp_location("not an http response at all").is_none());
    assert!(ssdp_location("").is_none());
}
