use upnp_client::didl::{build_didl_fragment, build_metadata};
use upnp_client::parser::deserialize_metadata;
use upnp_client::types::{Metadata, ObjectClass};

fn sample() -> Metadata {
    Metadata {
        url: "http://10.0.0.2/clip.mp4".to_string(),
        title: "A & B <Live>".to_string(),
        artist: Some("The \"Quotes\"".to_string()),
        album: Some("Angles & Edges".to_string()),
        album_art_uri: Some("http://10.0.0.2/art.jpg".to_string()),
        genre: Some("Rock".to_string()),
        protocol_info: "http-get:*:video/mp4:*".to_string(),
    }
}

#[test]
fn didl_round_trip_recovers_the_fields() {
    let m = sample();
    let fragment = build_didl_fragment(&m, ObjectClass::Video);
    let back = deserialize_metadata(&fragment).unwrap();
    assert_eq!(back.title, m.title);
    assert_eq!(back.artist, m.artist);
    assert_eq!(back.album, m.album);
    assert_eq!(back.album_art_uri, m.album_art_uri);
    assert_eq!(back.genre, m.genre);
}

#[test]
fn didl_round_trip_without_optional_fields() {
    let m = Metadata {
        url: "http://h/x".to_string(),
        title: "Plain".to_string(),
        artist: None,
        album: None,
        album_art_uri: None,
        genre: None,
        protocol_info: "http-get:*:video/mpeg:*".to_string(),
    };
    let fragment = build_didl_fragment(&m, ObjectClass::Audio);
    let back = deserialize_metadata(&fragment).unwrap();
    assert_eq!(back.title, "Plain");
    assert!(back.artist.is_none());
    assert!(back.album.is_none());
    assert!(back.album_art_uri.is_none());
    assert!(back.genre.is_none());
}

#[test]
fn fragment_declares_the_object_class() {
    let m = sample();
    let fragment = build_didl_fragment(&m, ObjectClass::Audio);
    assert!(fragment.contains("object.item.audioItem.musicTrack"));
    assert!(fragment.contains("<dc:title>A &amp; B &lt;Live&gt;</dc:title>"));
}

#[test]
fn transmitted_metadata_is_attribute_escaped() {
    let m = sample();
    let value = build_metadata(&m, ObjectClass::Video);
    assert!(!value.contains('<'));
    assert!(!value.contains('"'));
    assert!(value.starts_with("&lt;DIDL-Lite"));
}
