//! Reading the channel name out of a request.

use crate::io::HttpRequest;
use vstd::prelude::*;

verus! {

/// The channel that a request with header fields `headers` names: the value of
/// `Authorization`, else that of `authorization`, else `demo`.
pub open spec fn http_auth(headers: Map<Seq<char>, Seq<char>>) -> Seq<char> {
    if headers.contains_key("Authorization"@) {
        headers["Authorization"@]
    } else if headers.contains_key("authorization"@) {
        headers["authorization"@]
    } else {
        "demo"@
    }
}

/// The channel that the request names: the value of its `Authorization`
/// header field, else that of `authorization`, else `demo`.
pub fn get_http_auth(req: &HttpRequest) -> (channel: String)
    ensures
        channel@ == http_auth(req.headers@),
{
    let upper = "Authorization".to_owned();
    let lower = "authorization".to_owned();
    if let Some(auth) = req.headers.get(&upper) {
        auth.clone()
    } else if let Some(auth) = req.headers.get(&lower) {
        auth.clone()
    } else {
        "demo".to_owned()
    }
}

} // verus!
