//! The GENA eventing subsystem's pure side: building SUBSCRIBE and
//! UNSUBSCRIBE requests, the per-subscription lifecycle, decoding NOTIFY
//! bodies into events, and routing each notification to the one
//! subscription whose SID it carries. The caller runs the callback HTTP
//! listener and performs the requests.

use vstd::prelude::*;

use crate::parser::{
    deserialize_metadata, parse_av_transport_uri_metadata, parse_current_play_mode,
    parse_current_track_metadata, parse_last_change, parse_transport_state,
    spec_deserialize_metadata, spec_parse_av_transport_uri_metadata, spec_parse_current_play_mode,
    spec_parse_current_track_metadata, spec_parse_last_change, spec_parse_transport_state,
};
use crate::soap::{spec_find_service, spec_resolve_service, resolve_service};
use crate::strutil::oview_str;
use crate::types::{AVTransportEvent, Device, Event, Service};
use crate::UpnpError;

verus! {

/// Where a subscription stands in its life: it begins unsubscribed, and
/// unsubscribing returns it there.
#[derive(Debug, Clone, Copy, PartialEq, Eq, Structural)]
pub enum SubscriptionPhase {
    Unsubscribed,
    Subscribing,
    Subscribed,
    Unsubscribing,
}

/// One GENA subscription: the service it targets, the callback address
/// handed to the device, the SID the device issued, and its phase.
#[derive(Debug, Clone)]
pub struct Subscription {
    pub sid: String,
    pub service_id: String,
    pub callback: String,
    pub phase: SubscriptionPhase,
}

impl Subscription {
    /// A fresh, unsubscribed subscription for one service, bound to the
    /// callback listener's address.
    pub fn new(service_id: String, callback: String) -> (r: Subscription)
        ensures
            r.sid@ == Seq::<char>::empty(),
            r.service_id@ == service_id@,
            r.callback@ == callback@,
            r.phase == SubscriptionPhase::Unsubscribed,
    {
        Subscription { sid: String::new(), service_id, callback, phase: SubscriptionPhase::Unsubscribed }
    }

    /// Marks the SUBSCRIBE request as sent.
    pub fn begin_subscribe(self) -> (r: Subscription)
        requires
            self.phase == SubscriptionPhase::Unsubscribed,
        ensures
            r.phase == SubscriptionPhase::Subscribing,
            r.sid@ == self.sid@,
            r.service_id@ == self.service_id@,
            r.callback@ == self.callback@,
    {
        Subscription { phase: SubscriptionPhase::Subscribing, ..self }
    }

    /// Records the SID the device's SUBSCRIBE response issued; the
    /// subscription is then live, and this SID is what unsubscribing and
    /// event routing go by.
    pub fn complete_subscribe(self, sid: String) -> (r: Subscription)
        requires
            self.phase == SubscriptionPhase::Subscribing,
        ensures
            r.phase == SubscriptionPhase::Subscribed,
            r.sid@ == sid@,
            r.service_id@ == self.service_id@,
            r.callback@ == self.callback@,
    {
        Subscription { sid, phase: SubscriptionPhase::Subscribed, ..self }
    }

    /// Marks the UNSUBSCRIBE request as sent.
    pub fn begin_unsubscribe(self) -> (r: Subscription)
        requires
            self.phase == SubscriptionPhase::Subscribed,
        ensures
            r.phase == SubscriptionPhase::Unsubscribing,
            r.sid@ == self.sid@,
            r.service_id@ == self.service_id@,
            r.callback@ == self.callback@,
    {
        Subscription { phase: SubscriptionPhase::Unsubscribing, ..self }
    }

    /// Ends the subscription's life; it is unsubscribed again.
    pub fn complete_unsubscribe(self) -> (r: Subscription)
        requires
            self.phase == SubscriptionPhase::Unsubscribing,
        ensures
            r.phase == SubscriptionPhase::Unsubscribed,
            r.sid@ == self.sid@,
            r.service_id@ == self.service_id@,
            r.callback@ == self.callback@,
    {
        Subscription { phase: SubscriptionPhase::Unsubscribed, ..self }
    }
}

/// One prepared GENA request: the service's event URL and the
/// method-specific header.
#[derive(Debug, Clone)]
pub struct GenaCall {
    pub url: String,
    pub header: String,
}

/// The CALLBACK header of a SUBSCRIBE request for a listener address.
pub open spec fn callback_text(addr: Seq<char>) -> Seq<char> {
    "<http://"@ + addr + ">"@
}

/// What preparing a SUBSCRIBE yields: the event URL of the service the
/// canonicalized id names, and the CALLBACK header; the request further
/// carries `NT: upnp:event` and `TIMEOUT: Second-1800`.
pub open spec fn spec_subscribe_request(
    device: Option<Device>,
    sid: Seq<char>,
    addr: Seq<char>,
) -> Result<(Seq<char>, Seq<char>), UpnpError> {
    match device {
        None => Err(UpnpError::NotConnected),
        Some(d) => match spec_find_service(d.services@, spec_resolve_service(sid)) {
            None => Err(UpnpError::ServiceNotFound),
            Some(svc) => Ok((svc.event_sub_url@, callback_text(addr))),
        },
    }
}

/// Prepares a SUBSCRIBE request against a resolved device.
pub fn subscribe_request(device: &Option<Device>, service_id: &str, callback_addr: &str) -> (r:
    Result<GenaCall, UpnpError>)
    ensures
        match r {
            Ok(c) => spec_subscribe_request(*device, service_id@, callback_addr@) == Ok::<
                _,
                UpnpError,
            >((c.url@, c.header@)),
            Err(e) => spec_subscribe_request(*device, service_id@, callback_addr@) == Err::<
                (Seq<char>, Seq<char>),
                _,
            >(e),
        },
{
    let d = match device {
        Some(d) => d,
        None => {
            return Err(UpnpError::NotConnected);
        },
    };
    let canonical = resolve_service(service_id);
    let svc = match find_service_ref(&d.services, canonical.as_str()) {
        Some(svc) => svc,
        None => {
            return Err(UpnpError::ServiceNotFound);
        },
    };
    let mut header = String::new();
    header.append("<http://");
    header.append(callback_addr);
    header.append(">");
    Ok(GenaCall { url: svc.event_sub_url.clone(), header })
}

/// What preparing an UNSUBSCRIBE yields: the event URL and the stored SID,
/// which the device issued at subscribe time.
pub open spec fn spec_unsubscribe_request(
    device: Option<Device>,
    sid: Seq<char>,
) -> Result<Seq<char>, UpnpError> {
    match device {
        None => Err(UpnpError::NotConnected),
        Some(d) => match spec_find_service(d.services@, spec_resolve_service(sid)) {
            None => Err(UpnpError::ServiceNotFound),
            Some(svc) => Ok(svc.event_sub_url@),
        },
    }
}

/// Prepares the UNSUBSCRIBE request of a live subscription: the event URL
/// of its service, with the subscription's own SID as the SID header.
pub fn unsubscribe_request(device: &Option<Device>, sub: &Subscription) -> (r: Result<
    GenaCall,
    UpnpError,
>)
    requires
        sub.phase == SubscriptionPhase::Subscribed,
    ensures
        match r {
            Ok(c) => spec_unsubscribe_request(*device, sub.service_id@) == Ok::<_, UpnpError>(
                c.url@,
            ) && c.header@ == sub.sid@,
            Err(e) => spec_unsubscribe_request(*device, sub.service_id@) == Err::<Seq<char>, _>(e),
        },
{
    let d = match device {
        Some(d) => d,
        None => {
            return Err(UpnpError::NotConnected);
        },
    };
    let canonical = resolve_service(sub.service_id.as_str());
    let svc = match find_service_ref(&d.services, canonical.as_str()) {
        Some(svc) => svc,
        None => {
            return Err(UpnpError::ServiceNotFound);
        },
    };
    Ok(GenaCall { url: svc.event_sub_url.clone(), header: sub.sid.clone() })
}

/// Finds the first service with the given canonical id.
fn find_service_ref<'a>(services: &'a Vec<Service>, c: &str) -> (r: Option<&'a Service>)
    ensures
        match r {
            Some(svc) => spec_find_service(services@, c@) == Some(*svc),
            None => spec_find_service(services@, c@) is None,
        },
{
    let mut i: usize = 0;
    proof {
        assert(services@.skip(0) =~= services@);
    }
    while i < services.len()
        invariant
            i <= services@.len(),
            spec_find_service(services@, c@) == spec_find_service(services@.skip(i as int), c@),
        decreases services@.len() - i,
    {
        let ghost rem = services@.skip(i as int);
        proof {
            assert(rem[0] == services@[i as int]);
            assert(rem.skip(1) =~= services@.skip(i as int + 1));
        }
        if crate::strutil::chars_eq_str(
            &crate::strutil::chars_of(services[i].service_id.as_str()),
            c,
        ) {
            return Some(&services[i]);
        }
        i = i + 1;
    }
    proof {
        assert(services@.skip(i as int) =~= Seq::<Service>::empty());
    }
    None
}

/// The mathematical image of an event.
pub enum EvV {
    UriMeta {
        sid: Seq<char>,
        url: Seq<char>,
        title: Seq<char>,
        artist: Option<Seq<char>>,
        album: Option<Seq<char>>,
        album_art: Option<Seq<char>>,
        genre: Option<Seq<char>>,
    },
    PlayMode { sid: Seq<char>, mode: Seq<char> },
    TrackMeta {
        sid: Seq<char>,
        url: Seq<char>,
        title: Seq<char>,
        artist: Option<Seq<char>>,
        album: Option<Seq<char>>,
        album_art: Option<Seq<char>>,
        genre: Option<Seq<char>>,
    },
    TransportState { sid: Seq<char>, state: Seq<char> },
}

pub open spec fn ev_view(e: Event) -> EvV {
    match e {
        Event::AVTransport(a) => match a {
            AVTransportEvent::AVTransportURIMetaData {
                sid,
                url,
                title,
                artist,
                album,
                album_art_uri,
                genre,
            } => EvV::UriMeta {
                sid: sid@,
                url: url@,
                title: title@,
                artist: oview_str(artist),
                album: oview_str(album),
                album_art: oview_str(album_art_uri),
                genre: oview_str(genre),
            },
            AVTransportEvent::CurrentPlayMode { sid, play_mode } => EvV::PlayMode {
                sid: sid@,
                mode: play_mode@,
            },
            AVTransportEvent::CurrentTrackMetadata {
                sid,
                url,
                title,
                artist,
                album,
                album_art_uri,
                genre,
            } => EvV::TrackMeta {
                sid: sid@,
                url: url@,
                title: title@,
                artist: oview_str(artist),
                album: oview_str(album),
                album_art: oview_str(album_art_uri),
                genre: oview_str(genre),
            },
            AVTransportEvent::TransportState { sid, transport_state } => EvV::TransportState {
                sid: sid@,
                state: transport_state@,
            },
        },
    }
}

/// The metadata event a DIDL document decodes to.
pub open spec fn meta_event_of(sid: Seq<char>, doc: Seq<char>, track: bool) -> EvV {
    let fin = spec_deserialize_metadata(doc);
    let title = match fin.title {
        Some(t) => t,
        None => Seq::<char>::empty(),
    };
    if track {
        EvV::TrackMeta {
            sid,
            url: fin.url,
            title,
            artist: fin.artist,
            album: fin.album,
            album_art: fin.album_art,
            genre: fin.genre,
        }
    } else {
        EvV::UriMeta {
            sid,
            url: fin.url,
            title,
            artist: fin.artist,
            album: fin.album,
            album_art: fin.album_art,
            genre: fin.genre,
        }
    }
}

/// The events one NOTIFY body yields, in the fixed order: transport state,
/// play mode, URI metadata, track metadata; each of the four appears
/// exactly when its field stands in the LastChange payload, and a body
/// whose payload carries none of them yields no events.
pub open spec fn spec_notify_events(sid: Seq<char>, body: Seq<char>) -> Seq<EvV> {
    let lc = match spec_parse_last_change(body) {
        Some(t) => t,
        None => Seq::<char>::empty(),
    };
    (match spec_parse_transport_state(lc) {
        Some(st) => seq![EvV::TransportState { sid, state: st }],
        None => Seq::<EvV>::empty(),
    }) + (match spec_parse_current_play_mode(lc) {
        Some(m) => seq![EvV::PlayMode { sid, mode: m }],
        None => Seq::<EvV>::empty(),
    }) + (match spec_parse_av_transport_uri_metadata(lc) {
        Some(doc) => seq![meta_event_of(sid, doc, false)],
        None => Seq::<EvV>::empty(),
    }) + (match spec_parse_current_track_metadata(lc) {
        Some(doc) => seq![meta_event_of(sid, doc, true)],
        None => Seq::<EvV>::empty(),
    })
}

/// Decodes one NOTIFY body into the events it carries, tagged with the
/// subscription id, in the fixed order. Decoding never fails: a malformed
/// body simply yields no events.
pub fn decode_notify(sid: &str, body: &str) -> (r: Vec<Event>)
    ensures
        r@.map_values(|e: Event| ev_view(e)) == spec_notify_events(sid@, body@),
{
    let lc: String = match parse_last_change(body) {
        Ok(Some(t)) => t,
        Ok(None) => String::new(),
        Err(_) => String::new(),
    };
    let mut out: Vec<Event> = Vec::new();
    match parse_transport_state(lc.as_str()) {
        Ok(Some(st)) => {
            out.push(
                Event::AVTransport(
                    AVTransportEvent::TransportState {
                        sid: sid.to_owned(),
                        transport_state: st,
                    },
                ),
            );
        },
        _ => {},
    }
    match parse_current_play_mode(lc.as_str()) {
        Ok(Some(m)) => {
            out.push(
                Event::AVTransport(
                    AVTransportEvent::CurrentPlayMode { sid: sid.to_owned(), play_mode: m },
                ),
            );
        },
        _ => {},
    }
    match parse_av_transport_uri_metadata(lc.as_str()) {
        Ok(Some(doc)) => {
            match deserialize_metadata(doc.as_str()) {
                Ok(m) => {
                    out.push(
                        Event::AVTransport(
                            AVTransportEvent::AVTransportURIMetaData {
                                sid: sid.to_owned(),
                                url: m.url,
                                title: m.title,
                                artist: m.artist,
                                album: m.album,
                                album_art_uri: m.album_art_uri,
                                genre: m.genre,
                            },
                        ),
                    );
                },
                Err(_) => {},
            }
        },
        _ => {},
    }
    match parse_current_track_metadata(lc.as_str()) {
        Ok(Some(doc)) => {
            match deserialize_metadata(doc.as_str()) {
                Ok(m) => {
                    out.push(
                        Event::AVTransport(
                            AVTransportEvent::CurrentTrackMetadata {
                                sid: sid.to_owned(),
                                url: m.url,
                                title: m.title,
                                artist: m.artist,
                                album: m.album,
                                album_art_uri: m.album_art_uri,
                                genre: m.genre,
                            },
                        ),
                    );
                },
                Err(_) => {},
            }
        },
        _ => {},
    }
    proof {
        assert(out@.map_values(|e: Event| ev_view(e)) =~= spec_notify_events(sid@, body@));
    }
    out
}

/// The index of the first subscription whose SID is `sid`.
pub open spec fn spec_route(subs: Seq<Subscription>, sid: Seq<char>) -> Option<int>
    decreases subs.len(),
{
    if subs.len() == 0 {
        None
    } else if subs[0].sid@ == sid {
        Some(0)
    } else {
        match spec_route(subs.skip(1), sid) {
            Some(i) => Some(i + 1),
            None => None,
        }
    }
}

/// The active subscriptions, each keyed by the SID its device issued.
pub struct SubscriptionRegistry {
    pub subs: Vec<Subscription>,
}

/// A well-formed registry holds pairwise distinct SIDs: every notification
/// names at most one subscription.
pub open spec fn registry_wf(subs: Seq<Subscription>) -> bool {
    forall|i: int, j: int|
        0 <= i < subs.len() && 0 <= j < subs.len() && i != j ==> (#[trigger] subs[i]).sid@ != (
        #[trigger] subs[j]).sid@
}

impl SubscriptionRegistry {
    /// An empty registry.
    pub fn new() -> (r: SubscriptionRegistry)
        ensures
            r.subs@.len() == 0,
            registry_wf(r.subs@),
    {
        SubscriptionRegistry { subs: Vec::new() }
    }

    /// Adds a live subscription under its SID; refused when the SID is
    /// already taken, so the registry stays well-formed.
    pub fn register(&mut self, sub: Subscription) -> (r: bool)
        requires
            registry_wf(old(self).subs@),
        ensures
            registry_wf(final(self).subs@),
            r ==> final(self).subs@ == old(self).subs@.push(sub),
            !r ==> final(self).subs@ == old(self).subs@,
            r == (spec_route(old(self).subs@, sub.sid@) is None),
    {
        match self.route(&sub.sid) {
            Some(_) => false,
            None => {
                let ghost before = self.subs@;
                self.subs.push(sub);
                proof {
                    lemma_route_none_means_absent(before, sub.sid@);
                    assert forall|i: int, j: int|
                        0 <= i < self.subs@.len() && 0 <= j < self.subs@.len() && i != j implies (
                    #[trigger] self.subs@[i]).sid@ != (#[trigger] self.subs@[j]).sid@ by {
                        if i < before.len() && j < before.len() {
                            assert(before[i].sid@ != before[j].sid@);
                        }
                    }
                }
                true
            },
        }
    }

    /// The position of the subscription a SID names.
    pub fn route(&self, sid: &String) -> (r: Option<usize>)
        ensures
            match r {
                Some(i) => spec_route(self.subs@, sid@) == Some(i as int) && i < self.subs@.len()
                    && self.subs@[i as int].sid@ == sid@,
                None => spec_route(self.subs@, sid@) is None,
            },
    {
        let mut i: usize = 0;
        proof {
            assert(self.subs@.skip(0) =~= self.subs@);
        }
        while i < self.subs.len()
            invariant
                i <= self.subs@.len(),
                forall|k: int| 0 <= k < i ==> (#[trigger] self.subs@[k]).sid@ != sid@,
            decreases self.subs@.len() - i,
        {
            if crate::strutil::chars_eq_str(
                &crate::strutil::chars_of(self.subs[i].sid.as_str()),
                sid.as_str(),
            ) {
                proof {
                    lemma_route_first_match(self.subs@, sid@, i as int);
                }
                return Some(i);
            }
            i = i + 1;
        }
        proof {
            lemma_route_none(self.subs@, sid@);
        }
        None
    }
}

/// When no prefix element matches and index `i` does, routing finds `i`.
proof fn lemma_route_first_match(subs: Seq<Subscription>, sid: Seq<char>, i: int)
    requires
        0 <= i < subs.len(),
        subs[i].sid@ == sid,
        forall|k: int| 0 <= k < i ==> (#[trigger] subs[k]).sid@ != sid,
    ensures
        spec_route(subs, sid) == Some(i),
    decreases subs.len(),
{
    if i > 0 {
        lemma_route_first_match(subs.skip(1), sid, i - 1);
    }
}

/// When no element matches, routing finds nothing.
proof fn lemma_route_none(subs: Seq<Subscription>, sid: Seq<char>)
    requires
        forall|k: int| 0 <= k < subs.len() ==> (#[trigger] subs[k]).sid@ != sid,
    ensures
        spec_route(subs, sid) is None,
    decreases subs.len(),
{
    if subs.len() > 0 {
        lemma_route_none(subs.skip(1), sid);
    }
}

/// Routing that finds nothing means no subscription holds the SID.
proof fn lemma_route_none_means_absent(subs: Seq<Subscription>, sid: Seq<char>)
    requires
        spec_route(subs, sid) is None,
    ensures
        forall|k: int| 0 <= k < subs.len() ==> (#[trigger] subs[k]).sid@ != sid,
    decreases subs.len(),
{
    if subs.len() > 0 {
        lemma_route_none_means_absent(subs.skip(1), sid);
        assert forall|k: int| 0 <= k < subs.len() implies (#[trigger] subs[k]).sid@ != sid by {
            if k > 0 {
                assert(subs.skip(1)[k - 1] == subs[k]);
            }
        }
    }
}

/// In a well-formed registry, a notification bearing one subscription's
/// SID is routed to that subscription and to no other: concurrent
/// subscriptions each receive only their own events.
pub proof fn lemma_routing_isolated(subs: Seq<Subscription>, i: int)
    requires
        registry_wf(subs),
        0 <= i < subs.len(),
    ensures
        spec_route(subs, subs[i].sid@) == Some(i),
    decreases subs.len(),
{
    assert forall|k: int| 0 <= k < i implies (#[trigger] subs[k]).sid@ != subs[i].sid@ by {}
    lemma_route_first_match(subs, subs[i].sid@, i);
}

} // verus!
