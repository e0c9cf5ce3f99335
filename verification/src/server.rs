//! The media-server convenience layer's pure side: prepared ContentDirectory
//! calls. The transport layer POSTs each call; a Browse response is then
//! decoded with `parse_browse_response`.

use vstd::prelude::*;

use crate::soap::{call_action_request, spec_action_call, ActionCall, params_view};
use crate::types::Device;
use crate::UpnpError;

verus! {

/// The parameters of a Browse call: everything under the object, from the
/// start, unbounded and unsorted.
pub open spec fn browse_params(oid: Seq<char>, flag: Seq<char>) -> Seq<(Seq<char>, Seq<char>)> {
    seq![
        ("ObjectID"@, oid),
        ("BrowseFlag"@, flag),
        ("Filter"@, "*"@),
        ("StartingIndex"@, "0"@),
        ("RequestedCount"@, "0"@),
        ("SortCriteria"@, ""@),
    ]
}

/// Prepares a Browse call on the content directory.
pub fn browse_request(device: &Option<Device>, object_id: &str, browse_flag: &str) -> (r: Result<
    ActionCall,
    UpnpError,
>)
    ensures
        match r {
            Ok(call) => spec_action_call(
                *device,
                "ContentDirectory"@,
                "Browse"@,
                browse_params(object_id@, browse_flag@),
            ) == Ok::<_, UpnpError>((call.control_url@, call.soap_action@, call.body@)),
            Err(e) => spec_action_call(
                *device,
                "ContentDirectory"@,
                "Browse"@,
                browse_params(object_id@, browse_flag@),
            ) == Err::<(Seq<char>, Seq<char>, Seq<char>), _>(e),
        },
{
    let mut params: Vec<(String, String)> = Vec::new();
    params.push((String::from_str("ObjectID"), object_id.to_owned()));
    params.push((String::from_str("BrowseFlag"), browse_flag.to_owned()));
    params.push((String::from_str("Filter"), String::from_str("*")));
    params.push((String::from_str("StartingIndex"), String::from_str("0")));
    params.push((String::from_str("RequestedCount"), String::from_str("0")));
    params.push((String::from_str("SortCriteria"), String::from_str("")));
    proof {
        assert(params_view(params@) =~= browse_params(object_id@, browse_flag@));
    }
    call_action_request(device, "ContentDirectory", "Browse", &params)
}

/// Prepares a parameterless ContentDirectory call, as GetSortCapabilities,
/// GetSystemUpdateID, GetSearchCapabilities, Search and UpdateObject are
/// issued.
pub fn directory_request(device: &Option<Device>, action_name: &str) -> (r: Result<
    ActionCall,
    UpnpError,
>)
    ensures
        match r {
            Ok(call) => spec_action_call(
                *device,
                "ContentDirectory"@,
                action_name@,
                Seq::empty(),
            ) == Ok::<_, UpnpError>((call.control_url@, call.soap_action@, call.body@)),
            Err(e) => spec_action_call(*device, "ContentDirectory"@, action_name@, Seq::empty())
                == Err::<(Seq<char>, Seq<char>, Seq<char>), _>(e),
        },
{
    let params: Vec<(String, String)> = Vec::new();
    proof {
        assert(params_view(params@) =~= Seq::<(Seq<char>, Seq<char>)>::empty());
    }
    call_action_request(device, "ContentDirectory", action_name, &params)
}

} // verus!
