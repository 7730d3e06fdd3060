//! Validation of a user-supplied server address before it is stored.
use vstd::prelude::*;
use vstd::string::*;
use crate::chunk::{join_url, url_joined};

verus! {

/// The serialization of `s` read as an absolute URL, or the message of the
/// parse error where it does not parse.
pub uninterp spec fn url_parsed(s: Seq<char>) -> Result<Seq<char>, Seq<char>>;

/// Relies on url::Url::parse: the parsed URL as a string, or the parse
/// error's message (its `Display`); both depend on the input alone.
#[verifier::external_body]
fn parse_url(s: &str) -> (r: Result<String, String>)
    ensures
        match r {
            Ok(u) => url_parsed(s@) == Ok::<Seq<char>, Seq<char>>(u@),
            Err(e) => url_parsed(s@) == Err::<Seq<char>, Seq<char>>(e@),
        },
{
    url::Url::parse(s).map(|u| u.to_string()).map_err(|e| e.to_string())
}

/// Message for an address that is not a URL.
pub open spec fn invalid_url_message(reason: Seq<char>) -> Seq<char> {
    "Invalid URL or Drop is inaccessible ("@ + reason + ")"@
}

/// The two addresses `use_remote` needs: the base URL to store and the
/// health-check endpoint `<base>/api/v1` to query.
pub fn remote_endpoints(url: &str) -> (r: Result<(String, String), String>)
    ensures
        match url_parsed(url@) {
            Err(reason) => r matches Err(e) && e@ == invalid_url_message(reason),
            Ok(base) => match url_joined(base, "/api/v1"@) {
                Some(endpoint) => r matches Ok((b, t)) && b@ == base && t@ == endpoint,
                None => r matches Err(e) && e@ == invalid_url_message("cannot join /api/v1"@),
            },
        },
{
    match parse_url(url) {
        Err(reason) => {
            let mut e = String::from_str("Invalid URL or Drop is inaccessible (");
            e.append(reason.as_str());
            e.append(")");
            assert(e@ =~= invalid_url_message(reason@));
            Err(e)
        },
        Ok(base) => {
            match join_url(base.as_str(), "/api/v1") {
                Some(endpoint) => Ok((base, endpoint)),
                None => {
                    let mut e = String::from_str("Invalid URL or Drop is inaccessible (");
                    e.append("cannot join /api/v1");
                    e.append(")");
                    assert(e@ =~= invalid_url_message("cannot join /api/v1"@));
                    Err(e)
                },
            }
        },
    }
}

/// A server is a Drop server when its health check names the application
/// "Drop".
pub fn check_healthcheck(app_name: &str) -> (r: Result<(), String>)
    ensures
        r is Ok <==> app_name@ == "Drop"@,
        r matches Err(e) ==> e@ == "Not a valid Drop endpoint"@,
{
    let name = String::from_str(app_name);
    let drop_name = String::from_str("Drop");
    if name == drop_name {
        Ok(())
    } else {
        Err(String::from_str("Not a valid Drop endpoint"))
    }
}

} // verus!
