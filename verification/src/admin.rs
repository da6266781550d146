//! What the administrative endpoint answers to a request.

use vstd::prelude::*;
use vstd::string::StringExecFns;

verus! {

/// The answers of the administrative endpoint.
#[derive(Debug, Clone, Copy, PartialEq, Eq, Structural)]
pub enum AdminReply {
    /// A line that names the service.
    Banner,
    /// The health check answer.
    Healthy,
    /// The counters in text form.
    Metrics,
    /// No such page.
    NotFound,
}

/// The answer to a request: `GET /` names the service, `GET /healthcheck`
/// answers the health check, `GET /metrics` gives the counters, and
/// everything else is not found.
pub open spec fn reply_to(is_get: bool, path: Seq<char>) -> AdminReply {
    if !is_get {
        AdminReply::NotFound
    } else if path == "/"@ {
        AdminReply::Banner
    } else if path == "/healthcheck"@ {
        AdminReply::Healthy
    } else if path == "/metrics"@ {
        AdminReply::Metrics
    } else {
        AdminReply::NotFound
    }
}

/// Decides the answer to a request from whether its method is `GET` and from
/// its path.
pub fn route(is_get: bool, path: &String) -> (r: AdminReply)
    ensures
        r == reply_to(is_get, path@),
{
    if !is_get {
        AdminReply::NotFound
    } else if *path == String::from_str("/") {
        AdminReply::Banner
    } else if *path == String::from_str("/healthcheck") {
        AdminReply::Healthy
    } else if *path == String::from_str("/metrics") {
        AdminReply::Metrics
    } else {
        AdminReply::NotFound
    }
}

impl AdminReply {
    /// The HTTP status of the answer.
    pub fn status(&self) -> (r: u16)
        ensures
            r == if *self == AdminReply::NotFound {
                404u16
            } else {
                200u16
            },
    {
        match self {
            AdminReply::NotFound => 404,
            _ => 200,
        }
    }

    /// The fixed body of the answer; the counters have none.
    pub fn body(&self) -> (r: Option<&'static str>)
        ensures
            match *self {
                AdminReply::Banner => r matches Some(text) && text@ == "statsrelay admin server"@,
                AdminReply::Healthy => r matches Some(text) && text@ == "OK"@,
                AdminReply::Metrics => r is None,
                AdminReply::NotFound => r matches Some(text) && text@ == "not found"@,
            },
    {
        match self {
            AdminReply::Banner => Some("statsrelay admin server"),
            AdminReply::Healthy => Some("OK"),
            AdminReply::Metrics => None,
            AdminReply::NotFound => Some("not found"),
        }
    }
}

} // verus!
