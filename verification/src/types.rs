//! The immutable data model: devices, services, actions, playable-item
//! metadata, content-directory entries, transport state, and the events the
//! eventing subsystem yields.

use vstd::prelude::*;

verus! {

/// A resolved device: identification read from its description document and
/// the services it declares, in declaration order.
#[derive(Debug, Clone)]
pub struct Device {
    pub location: String,
    pub device_type: String,
    pub friendly_name: String,
    pub manufacturer: String,
    pub manufacturer_url: Option<String>,
    pub model_description: Option<String>,
    pub model_name: String,
    pub model_number: Option<String>,
    pub services: Vec<Service>,
    pub udn: String,
}

/// One service of a device. The three URLs are absolute, resolved against
/// the description's base origin. An empty action list means the SCPD was
/// not retrieved: "unknown", not "no actions".
#[derive(Debug, Clone)]
pub struct Service {
    pub service_type: String,
    pub service_id: String,
    pub control_url: String,
    pub event_sub_url: String,
    pub scpd_url: String,
    pub actions: Vec<Action>,
}

impl Service {
    /// Whether this service's action list is authoritative: a non-empty
    /// list validates action names, an empty one means the actions are
    /// unknown and any action passes through unchecked.
    pub fn has_authoritative_actions(&self) -> (r: bool)
        ensures
            r == (self.actions@.len() > 0),
    {
        self.actions.len() > 0
    }
}

/// One action a service's SCPD declares.
#[derive(Debug, Clone)]
pub struct Action {
    pub name: String,
    pub arguments: Vec<Argument>,
}

/// Descriptive metadata of one action argument; not used to validate call
/// parameters.
#[derive(Debug, Clone)]
pub struct Argument {
    pub name: String,
    pub direction: String,
    pub related_state_variable: String,
}

/// The UPnP class of a playable or browsable object.
#[derive(Debug, Clone, Copy, PartialEq, Eq, Structural)]
pub enum ObjectClass {
    Audio,
    Video,
    Image,
    Container,
}

/// The wire form of an object class.
pub open spec fn object_class_str(c: ObjectClass) -> Seq<char> {
    match c {
        ObjectClass::Audio => "object.item.audioItem.musicTrack"@,
        ObjectClass::Video => "object.item.videoItem.movie"@,
        ObjectClass::Image => "object.item.imageItem.photo"@,
        ObjectClass::Container => "object.container"@,
    }
}

/// The object class a wire string denotes; anything unrecognized is read as
/// a container.
pub open spec fn spec_object_class_of(s: Seq<char>) -> ObjectClass {
    if s == "object.item.audioItem.musicTrack"@ {
        ObjectClass::Audio
    } else if s == "object.item.videoItem.movie"@ {
        ObjectClass::Video
    } else if s == "object.item.imageItem.photo"@ {
        ObjectClass::Image
    } else {
        ObjectClass::Container
    }
}

impl ObjectClass {
    /// The class's wire string.
    pub fn value(&self) -> (r: &'static str)
        ensures
            r@ == object_class_str(*self),
    {
        match self {
            ObjectClass::Audio => "object.item.audioItem.musicTrack",
            ObjectClass::Video => "object.item.videoItem.movie",
            ObjectClass::Image => "object.item.imageItem.photo",
            ObjectClass::Container => "object.container",
        }
    }
}

/// Reads an object class from its wire characters.
pub fn object_class_of_chars(v: &Vec<char>) -> (r: ObjectClass)
    ensures
        r == spec_object_class_of(v@),
{
    if crate::strutil::chars_eq_str(v, "object.item.audioItem.musicTrack") {
        ObjectClass::Audio
    } else if crate::strutil::chars_eq_str(v, "object.item.videoItem.movie") {
        ObjectClass::Video
    } else if crate::strutil::chars_eq_str(v, "object.item.imageItem.photo") {
        ObjectClass::Image
    } else {
        ObjectClass::Container
    }
}

/// Description of one playable item: used to build outbound DIDL-Lite
/// fragments and to decode inbound track metadata.
#[derive(Debug, Clone, PartialEq, Eq)]
pub struct Metadata {
    pub url: String,
    pub title: String,
    pub artist: Option<String>,
    pub album: Option<String>,
    pub album_art_uri: Option<String>,
    pub genre: Option<String>,
    pub protocol_info: String,
}

impl Metadata {
    /// A field-for-field copy.
    pub fn clone_fields(&self) -> (r: Metadata)
        ensures
            r.url@ == self.url@,
            r.title@ == self.title@,
            r.artist == self.artist,
            r.album == self.album,
            r.album_art_uri == self.album_art_uri,
            r.genre == self.genre,
            r.protocol_info@ == self.protocol_info@,
    {
        Metadata {
            url: self.url.clone(),
            title: self.title.clone(),
            artist: match &self.artist {
                Some(a) => Some(a.clone()),
                None => None,
            },
            album: match &self.album {
                Some(a) => Some(a.clone()),
                None => None,
            },
            album_art_uri: match &self.album_art_uri {
                Some(a) => Some(a.clone()),
                None => None,
            },
            genre: match &self.genre {
                Some(a) => Some(a.clone()),
                None => None,
            },
            protocol_info: self.protocol_info.clone(),
        }
    }

    /// A metadata value with every field empty.
    pub fn empty() -> (r: Metadata)
        ensures
            r.url@ == Seq::<char>::empty(),
            r.title@ == Seq::<char>::empty(),
            r.artist is None,
            r.album is None,
            r.album_art_uri is None,
            r.genre is None,
            r.protocol_info@ == Seq::<char>::empty(),
    {
        Metadata {
            url: String::new(),
            title: String::new(),
            artist: None,
            album: None,
            album_art_uri: None,
            genre: None,
            protocol_info: String::new(),
        }
    }
}

/// Options of a load or set-next request.
#[derive(Debug, Clone)]
pub struct LoadOptions {
    pub dlna_features: Option<String>,
    pub content_type: Option<String>,
    pub object_class: Option<ObjectClass>,
    pub metadata: Option<Metadata>,
    pub autoplay: bool,
}

/// A state change reported by an AVTransport service, tagged with the
/// subscription id it belongs to.
#[derive(Debug, Clone, PartialEq, Eq)]
pub enum AVTransportEvent {
    AVTransportURIMetaData {
        sid: String,
        url: String,
        title: String,
        artist: Option<String>,
        album: Option<String>,
        album_art_uri: Option<String>,
        genre: Option<String>,
    },
    CurrentPlayMode { sid: String, play_mode: String },
    CurrentTrackMetadata {
        sid: String,
        url: String,
        title: String,
        artist: Option<String>,
        album: Option<String>,
        album_art_uri: Option<String>,
        genre: Option<String>,
    },
    TransportState { sid: String, transport_state: String },
}

/// An event the eventing subsystem republishes.
#[derive(Debug, Clone, PartialEq, Eq)]
pub enum Event {
    AVTransport(AVTransportEvent),
}

/// Media-control lifecycle notions a renderer reports.
#[derive(Debug, Clone, Copy, PartialEq, Eq, Structural)]
pub enum MediaEvents {
    Status,
    Loading,
    Playing,
    Paused,
    Stopped,
    SpeedChanged,
}

/// A container entry of a content-directory browse result.
#[derive(Debug, Clone)]
pub struct Container {
    pub id: String,
    pub parent_id: String,
    pub title: String,
    pub creator: Option<String>,
    pub restricted: bool,
    pub searchable: bool,
    pub child_count: Option<u32>,
    pub album_art_uri: Option<String>,
    pub album: Option<String>,
    pub artist: Option<String>,
    pub genre: Option<String>,
    pub date: Option<String>,
    pub original_track_number: Option<u32>,
    pub protocol_info: Option<String>,
    pub url: Option<String>,
    pub object_class: Option<ObjectClass>,
}

impl Container {
    /// A container with every field empty.
    pub fn empty() -> (r: Container)
        ensures
            r.id@ == Seq::<char>::empty(),
            r.parent_id@ == Seq::<char>::empty(),
            r.title@ == Seq::<char>::empty(),
            r.creator is None,
            !r.restricted,
            !r.searchable,
            r.child_count is None,
            r.album_art_uri is None,
            r.album is None,
            r.artist is None,
            r.genre is None,
            r.date is None,
            r.original_track_number is None,
            r.protocol_info is None,
            r.url is None,
            r.object_class is None,
    {
        Container {
            id: String::new(),
            parent_id: String::new(),
            title: String::new(),
            creator: None,
            restricted: false,
            searchable: false,
            child_count: None,
            album_art_uri: None,
            album: None,
            artist: None,
            genre: None,
            date: None,
            original_track_number: None,
            protocol_info: None,
            url: None,
            object_class: None,
        }
    }
}

/// An item entry of a content-directory browse result.
#[derive(Debug, Clone)]
pub struct Item {
    pub id: String,
    pub parent_id: String,
    pub title: String,
    pub creator: Option<String>,
    pub restricted: bool,
    pub searchable: bool,
    pub album_art_uri: Option<String>,
    pub album: Option<String>,
    pub artist: Option<String>,
    pub genre: Option<String>,
    pub date: Option<String>,
    pub original_track_number: Option<u32>,
    pub protocol_info: String,
    pub url: String,
    pub size: Option<u64>,
    pub duration: Option<String>,
    pub object_class: Option<ObjectClass>,
}

impl Item {
    /// An item with every field empty.
    pub fn empty() -> (r: Item)
        ensures
            r.id@ == Seq::<char>::empty(),
            r.parent_id@ == Seq::<char>::empty(),
            r.title@ == Seq::<char>::empty(),
            r.creator is None,
            !r.restricted,
            !r.searchable,
            r.artist is None,
            r.album is None,
            r.album_art_uri is None,
            r.genre is None,
            r.date is None,
            r.original_track_number is None,
            r.protocol_info@ == Seq::<char>::empty(),
            r.url@ == Seq::<char>::empty(),
            r.size is None,
            r.duration is None,
            r.object_class is None,
    {
        Item {
            id: String::new(),
            parent_id: String::new(),
            title: String::new(),
            creator: None,
            restricted: false,
            searchable: false,
            album_art_uri: None,
            album: None,
            artist: None,
            genre: None,
            date: None,
            original_track_number: None,
            protocol_info: String::new(),
            url: String::new(),
            size: None,
            duration: None,
            object_class: None,
        }
    }
}

/// What a GetTransportInfo response reports.
#[derive(Debug, Clone, PartialEq, Eq)]
pub struct TransportInfo {
    pub current_transport_state: String,
    pub current_transport_status: String,
    pub current_speed: String,
}

impl TransportInfo {
    /// Transport information with every field empty.
    pub fn empty() -> (r: TransportInfo)
        ensures
            r.current_transport_state@ == Seq::<char>::empty(),
            r.current_transport_status@ == Seq::<char>::empty(),
            r.current_speed@ == Seq::<char>::empty(),
    {
        TransportInfo {
            current_transport_state: String::new(),
            current_transport_status: String::new(),
            current_speed: String::new(),
        }
    }
}

} // verus!
