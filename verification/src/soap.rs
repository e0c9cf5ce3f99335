//! The SOAP action invoker's pure side: canonicalizing service ids, looking
//! a service up on a resolved device, validating the action name against an
//! authoritative action list, and building the SOAP envelope and headers of
//! a control call. The transport layer performs the POST and hands the
//! response back to `decode_soap_response`.

use vstd::prelude::*;

use crate::escape::{spec_escape_attr, spec_escape_text};
use crate::parser::{spec_text_in, text_in};
use crate::strutil::{chars_of, scan_to, scan_to_x, spec_parse_u32, string_from_chars};
use crate::types::{Device, Service};
use crate::xmltok::{spec_tokens, tokenize};
use crate::UpnpError;

verus! {

/// Whether `s` holds a `:` anywhere.
pub open spec fn has_colon(s: Seq<char>) -> bool {
    scan_to(s, 0, ':') < s.len()
}

/// The canonical form of a service id: one that already holds a `:` stands
/// as given, any other is wrapped into the `urn:upnp-org:serviceId:`
/// namespace.
pub open spec fn spec_resolve_service(s: Seq<char>) -> Seq<char> {
    if has_colon(s) {
        s
    } else {
        "urn:upnp-org:serviceId:"@ + s
    }
}

/// Canonicalizes a service id.
pub fn resolve_service(service_id: &str) -> (r: String)
    ensures
        r@ == spec_resolve_service(service_id@),
{
    let v = chars_of(service_id);
    let k = scan_to_x(&v, 0, ':');
    if k < v.len() {
        service_id.to_owned()
    } else {
        let mut out = String::new();
        out.append("urn:upnp-org:serviceId:");
        out.append(service_id);
        out
    }
}

/// Canonicalizing twice changes nothing: a bare name such as `AVTransport`
/// and its canonical form `urn:upnp-org:serviceId:AVTransport` name the
/// same service, so every caller-facing lookup goes by the canonical form.
pub proof fn lemma_resolve_service_idempotent(s: Seq<char>)
    ensures
        spec_resolve_service(spec_resolve_service(s)) == spec_resolve_service(s),
{
    if !has_colon(s) {
        let t = "urn:upnp-org:serviceId:"@ + s;
        reveal_strlit("urn:upnp-org:serviceId:");
        assert("urn:upnp-org:serviceId:"@.len() == 23);
        assert(t[3] == ':');
        crate::strutil::lemma_scan_to_bounds(t, 0, ':');
        assert(has_colon(t));
    }
}

/// Invoking an action under a bare service id is the same call as under
/// its canonical form: preparation canonicalizes the id first, and
/// canonicalizing is idempotent, so the chosen service, the envelope and
/// the headers all agree.
pub proof fn lemma_call_action_canonical_id(
    device: Option<Device>,
    sid: Seq<char>,
    action: Seq<char>,
    ps: Seq<(Seq<char>, Seq<char>)>,
)
    ensures
        spec_action_call(device, sid, action, ps) == spec_action_call(
            device,
            spec_resolve_service(sid),
            action,
            ps,
        ),
{
    lemma_resolve_service_idempotent(sid);
}

/// The first service of `svcs` whose id is `c`.
pub open spec fn spec_find_service(svcs: Seq<Service>, c: Seq<char>) -> Option<Service>
    decreases svcs.len(),
{
    if svcs.len() == 0 {
        None
    } else if svcs[0].service_id@ == c {
        Some(svcs[0])
    } else {
        spec_find_service(svcs.skip(1), c)
    }
}

/// Whether some action of `acts` is named `n`.
pub open spec fn action_listed(acts: Seq<crate::types::Action>, n: Seq<char>) -> bool {
    exists|k: int| 0 <= k < acts.len() && (#[trigger] acts[k]).name@ == n
}

/// The parameter elements of a SOAP body, one `<Name>value</Name>` per
/// parameter, values escaped, in the order given.
pub open spec fn params_text(ps: Seq<(Seq<char>, Seq<char>)>) -> Seq<char>
    decreases ps.len(),
{
    if ps.len() == 0 {
        Seq::empty()
    } else {
        "<"@ + ps[0].0 + ">"@ + spec_escape_text(ps[0].1) + "</"@ + ps[0].0 + ">"@ + params_text(
            ps.skip(1),
        )
    }
}

/// The SOAP 1.1 envelope of one action call.
pub open spec fn envelope_text(
    stype: Seq<char>,
    action: Seq<char>,
    ps: Seq<(Seq<char>, Seq<char>)>,
) -> Seq<char> {
    "<?xml version=\"1.1\" encoding=\"UTF-8\"?><s:Envelope xmlns:s=\"http://schemas.xmlsoap.org/soap/envelope/\" s:encodingStyle=\"http://schemas.xmlsoap.org/soap/encoding/\"><s:Body><u:"@
        + action + " xmlns:u=\""@ + spec_escape_attr(stype) + "\">"@ + params_text(ps) + "</u:"@
        + action + "></s:Body></s:Envelope>"@
}

/// The SOAPACTION header value: the service type and action name, joined
/// with `#` and quoted.
pub open spec fn soap_action_text(stype: Seq<char>, action: Seq<char>) -> Seq<char> {
    "\""@ + stype + "#"@ + action + "\""@
}

/// The views of a parameter list.
pub open spec fn params_view(ps: Seq<(String, String)>) -> Seq<(Seq<char>, Seq<char>)> {
    ps.map_values(|p: (String, String)| (p.0@, p.1@))
}

/// One prepared control call: where to POST, the SOAPACTION header value,
/// and the envelope body.
#[derive(Debug, Clone)]
pub struct ActionCall {
    pub control_url: String,
    pub soap_action: String,
    pub body: String,
}

/// What preparing a call yields: the call against the first service whose
/// id matches the canonicalized `sid`, or the error naming what failed.
/// An action name is checked only against a non-empty action list: an
/// empty list means the actions are unknown, and the call passes through.
pub open spec fn spec_action_call(
    device: Option<Device>,
    sid: Seq<char>,
    action: Seq<char>,
    ps: Seq<(Seq<char>, Seq<char>)>,
) -> Result<(Seq<char>, Seq<char>, Seq<char>), UpnpError> {
    match device {
        None => Err(UpnpError::NotConnected),
        Some(d) => match spec_find_service(d.services@, spec_resolve_service(sid)) {
            None => Err(UpnpError::ServiceNotFound),
            Some(svc) => if svc.actions@.len() > 0 && !action_listed(svc.actions@, action) {
                Err(UpnpError::ActionNotFound)
            } else {
                Ok(
                    (
                        svc.control_url@,
                        soap_action_text(svc.service_type@, action),
                        envelope_text(svc.service_type@, action, ps),
                    ),
                )
            },
        },
    }
}

/// Finds the first service of `device` whose id is `c`.
fn find_service<'a>(services: &'a Vec<Service>, c: &str) -> (r: Option<&'a Service>)
    ensures
        match r {
            Some(svc) => spec_find_service(services@, c@) == Some(*svc),
            None => spec_find_service(services@, c@) is None,
        },
{
    let mut i: usize = 0;
    proof {
        assert(services@.skip(0) =~= services@);
    }
    while i < services.len()
        invariant
            i <= services@.len(),
            spec_find_service(services@, c@) == spec_find_service(services@.skip(i as int), c@),
        decreases services@.len() - i,
    {
        let ghost rem = services@.skip(i as int);
        proof {
            assert(rem[0] == services@[i as int]);
            assert(rem.skip(1) =~= services@.skip(i as int + 1));
        }
        if crate::strutil::chars_eq_str(&chars_of(services[i].service_id.as_str()), c) {
            return Some(&services[i]);
        }
        i = i + 1;
    }
    proof {
        assert(services@.skip(i as int) =~= Seq::<Service>::empty());
    }
    None
}

/// Whether `acts` lists an action named `n`.
fn action_available(acts: &Vec<crate::types::Action>, n: &str) -> (r: bool)
    ensures
        r == action_listed(acts@, n@),
{
    let mut i: usize = 0;
    while i < acts.len()
        invariant
            i <= acts@.len(),
            forall|k: int| 0 <= k < i ==> (#[trigger] acts@[k]).name@ != n@,
        decreases acts@.len() - i,
    {
        if crate::strutil::chars_eq_str(&chars_of(acts[i].name.as_str()), n) {
            return true;
        }
        i = i + 1;
    }
    false
}

/// Prepares one control call against a resolved device: canonicalizes the
/// service id, looks the service up, validates the action against a
/// non-empty action list, and builds the envelope and headers. Performing
/// the POST — `Content-Type: text/xml; charset="utf-8"`, the SOAPACTION
/// header, `Connection: close` — is the transport layer's part.
pub fn call_action_request(
    device: &Option<Device>,
    service_id: &str,
    action_name: &str,
    params: &Vec<(String, String)>,
) -> (r: Result<ActionCall, UpnpError>)
    ensures
        match r {
            Ok(call) => spec_action_call(
                *device,
                service_id@,
                action_name@,
                params_view(params@),
            ) == Ok::<_, UpnpError>((call.control_url@, call.soap_action@, call.body@)),
            Err(e) => spec_action_call(*device, service_id@, action_name@, params_view(params@))
                == Err::<(Seq<char>, Seq<char>, Seq<char>), _>(e),
        },
{
    let d = match device {
        Some(d) => d,
        None => {
            return Err(UpnpError::NotConnected);
        },
    };
    let canonical = resolve_service(service_id);
    let svc = match find_service(&d.services, canonical.as_str()) {
        Some(svc) => svc,
        None => {
            return Err(UpnpError::ServiceNotFound);
        },
    };
    if svc.actions.len() > 0 && !action_available(&svc.actions, action_name) {
        return Err(UpnpError::ActionNotFound);
    }
    let mut body = String::new();
    body.append(
        "<?xml version=\"1.1\" encoding=\"UTF-8\"?><s:Envelope xmlns:s=\"http://schemas.xmlsoap.org/soap/envelope/\" s:encodingStyle=\"http://schemas.xmlsoap.org/soap/encoding/\"><s:Body><u:",
    );
    body.append(action_name);
    body.append(" xmlns:u=\"");
    let tv = chars_of(svc.service_type.as_str());
    let te = crate::escape::escape_attr_all(&tv);
    body.append(string_from_chars(&te).as_str());
    body.append("\">");
    let ghost pv = params_view(params@);
    let mut i: usize = 0;
    let ghost before_params = body@;
    proof {
        assert(pv.skip(0) =~= pv);
    }
    while i < params.len()
        invariant
            i <= params@.len(),
            pv == params_view(params@),
            pv.len() == params@.len(),
            before_params + params_text(pv) == body@ + params_text(pv.skip(i as int)),
        decreases params@.len() - i,
    {
        let ghost rem = pv.skip(i as int);
        proof {
            assert(rem[0] == pv[i as int]);
            assert(pv[i as int] == (params@[i as int].0@, params@[i as int].1@));
            assert(rem.skip(1) =~= pv.skip(i as int + 1));
        }
        body.append("<");
        body.append(params[i].0.as_str());
        body.append(">");
        let vv = chars_of(params[i].1.as_str());
        let ve = crate::escape::escape_text_all(&vv);
        body.append(string_from_chars(&ve).as_str());
        body.append("</");
        body.append(params[i].0.as_str());
        body.append(">");
        i = i + 1;
    }
    proof {
        assert(pv.skip(i as int) =~= Seq::<(Seq<char>, Seq<char>)>::empty());
        assert(body@ + Seq::<char>::empty() =~= body@);
    }
    body.append("</u:");
    body.append(action_name);
    body.append("></s:Body></s:Envelope>");
    let mut soap_action = String::new();
    soap_action.append("\"");
    soap_action.append(svc.service_type.as_str());
    soap_action.append("#");
    soap_action.append(action_name);
    soap_action.append("\"");
    let control_url = svc.control_url.clone();
    proof {
        assert(body@ =~= envelope_text(
            svc.service_type@,
            action_name@,
            params_view(params@),
        ));
        assert(soap_action@ =~= soap_action_text(svc.service_type@, action_name@));
    }
    Ok(ActionCall { control_url, soap_action, body })
}

/// The UPnP error code a fault body reports, when one is present and
/// numeric.
pub open spec fn spec_fault_code(s: Seq<char>) -> Option<u32> {
    match spec_text_in(spec_tokens(s), "errorCode"@) {
        Some(t) => spec_parse_u32(t),
        None => None,
    }
}

/// The error description a fault body reports.
pub open spec fn spec_fault_description(s: Seq<char>) -> Option<Seq<char>> {
    spec_text_in(spec_tokens(s), "errorDescription"@)
}

/// Decodes a control response: a successful exchange hands the body back
/// unchanged for the caller to interpret; a failed one becomes a
/// `SoapFault` carrying the UPnP error code and description extracted from
/// the fault body, where present.
pub fn decode_soap_response(success: bool, body: &str) -> (r: Result<String, UpnpError>)
    ensures
        match r {
            Ok(b) => success && b@ == body@,
            Err(e) => !success && (e matches UpnpError::SoapFault { error_code, description }
                && error_code == spec_fault_code(body@) && crate::strutil::oview_str(description)
                == spec_fault_description(body@)),
        },
{
    if success {
        return Ok(body.to_owned());
    }
    let v = chars_of(body);
    let toks = tokenize(&v);
    let error_code = match text_in(&toks, "errorCode") {
        Some(t) => crate::strutil::parse_u32_range(&t, 0, t.len()),
        None => None,
    };
    let description = match text_in(&toks, "errorDescription") {
        Some(t) => Some(string_from_chars(&t)),
        None => None,
    };
    proof {
        match spec_text_in(spec_tokens(body@), "errorCode"@) {
            Some(t) => {
                assert(t.subrange(0, t.len() as int) =~= t);
            },
            None => {},
        }
    }
    Err(UpnpError::SoapFault { error_code, description })
}

} // verus!
