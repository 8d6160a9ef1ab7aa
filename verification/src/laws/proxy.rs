//! Where a request is sent on to, and what the proxy says by itself.

use vstd::prelude::*;
use hyper::Uri;

use crate::proxy::Reply;
use crate::state::StateView;

verus! {

/// The path and query are kept: what a request is sent on to is the backend's address,
/// directly followed by the request's path and query, whatever they are. Only where there is
/// neither does the root stand in.
pub proof fn law_the_path_and_query_are_kept(addr: Seq<char>, text: Seq<char>)
    ensures
        crate::proxy::downstream_text(addr, Some(text)) == addr + text,
        crate::proxy::downstream_text(addr, Some(text)).len() == addr.len() + text.len(),
        crate::proxy::downstream_text(addr, Some(text)).take(addr.len() as int) == addr,
        crate::proxy::downstream_text(addr, Some(text)).skip(addr.len() as int) == text,
        crate::proxy::downstream_text(addr, None) == crate::proxy::downstream_text(
            addr,
            Some("/"@),
        ),
{
    assert((addr + text).take(addr.len() as int) =~= addr);
    assert((addr + text).skip(addr.len() as int) =~= text);
}

/// Requests for different paths and queries are sent on to different places, and so are
/// requests that go to backends whose addresses are equally long and differ.
pub proof fn law_different_requests_go_to_different_places(
    addr: Seq<char>,
    other_addr: Seq<char>,
    text: Seq<char>,
    other_text: Seq<char>,
)
    requires
        addr.len() == other_addr.len(),
        addr != other_addr || text != other_text,
    ensures
        crate::proxy::downstream_text(addr, Some(text)) != crate::proxy::downstream_text(
            other_addr,
            Some(other_text),
        ),
{
    law_the_path_and_query_are_kept(addr, text);
    law_the_path_and_query_are_kept(other_addr, other_text);
}

/// A request goes to the address of the backend that is picked for it, under its own path
/// and query. It goes nowhere where none is picked, or where these do not spell a URI.
pub proof fn law_a_request_goes_to_the_picked_backend(s: StateView, original: Uri)
    ensures
        s.pick() is None ==> s.destination(original) is None,
        s.pick() matches Some(k) ==> {
            let text = match crate::uri::uri_path_and_query(original) {
                Some(text) => text,
                None => "/"@,
            };
            match crate::uri::parsed_uri(s.known[k].addr + text) {
                Ok(uri) => s.destination(original) == Some(uri),
                Err(_) => s.destination(original) is None,
            }
        },
{
}

/// A reply says what its status and its body are, and nothing else.
pub proof fn law_a_reply_says_its_status_and_body(reply: Reply, status: u16, body: Seq<char>)
    ensures
        reply.says(status, body) <==> reply.status == status && reply.body@ == body,
{
}

} // verus!
