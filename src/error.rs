use vstd::prelude::*;

use crate::text::{decimal, push_decimal};

verus! {

/// The upstream service that a request went to.
#[derive(Clone, Copy, Debug, PartialEq, Eq, Structural)]
pub enum Service {
    /// The credential-exchange endpoint.
    Auth,
    /// The resource-profile endpoint.
    Profile,
    /// The chat-completion endpoint.
    Inference,
}

/// Why a request could not produce its value.
#[derive(Debug)]
pub enum RelayError {
    /// The service's address or credentials were not supplied.
    NotConfigured(Service),
    /// The request did not reach the service; the text describes the fault.
    Unreachable(Service, String),
    /// The service answered with a status outside 200..=299.
    Status(Service, u16),
    /// The answer's body could not be read; the text describes the fault.
    Malformed(Service, String),
    /// The named resource does not exist.
    NotFound(String),
    /// The model answered with no choices.
    EmptyCompletion,
    /// The conversation store failed; the text describes the fault.
    Storage(String),
}

pub open spec fn not_configured_text(s: Service) -> Seq<char> {
    match s {
        Service::Inference => "LLAMA_API_URL not configured"@,
        _ => "Battle.net not configured"@,
    }
}

pub open spec fn unreachable_prefix(s: Service) -> Seq<char> {
    match s {
        Service::Auth => "OAuth request failed: "@,
        Service::Profile => "API request failed: "@,
        Service::Inference => "Failed to reach llama.cpp: "@,
    }
}

pub open spec fn status_prefix(s: Service) -> Seq<char> {
    match s {
        Service::Auth => "OAuth returned status "@,
        Service::Profile => "Blizzard API returned status "@,
        Service::Inference => "llama.cpp returned status "@,
    }
}

pub open spec fn malformed_prefix(s: Service) -> Seq<char> {
    match s {
        Service::Auth => "Failed to parse OAuth response: "@,
        Service::Profile => "Failed to parse character data: "@,
        Service::Inference => "Failed to parse response: "@,
    }
}

/// The one-line text that the user is shown for `e`.
pub open spec fn error_text(e: RelayError) -> Seq<char> {
    match e {
        RelayError::NotConfigured(s) => not_configured_text(s),
        RelayError::Unreachable(s, d) => unreachable_prefix(s) + d@,
        RelayError::Status(s, code) => status_prefix(s) + decimal(code as nat),
        RelayError::Malformed(s, d) => malformed_prefix(s) + d@,
        RelayError::NotFound(name) => "Character **"@ + name@ + "** not found on Nightslayer."@,
        RelayError::EmptyCompletion => "No response from model"@,
        RelayError::Storage(d) => "DB error: "@ + d@,
    }
}

impl RelayError {
    /// The text that the user is shown for this error.
    pub fn message(&self) -> (r: String)
        ensures
            r@ == error_text(*self),
    {
        let mut r = String::new();
        match self {
            RelayError::NotConfigured(s) => {
                match s {
                    Service::Inference => r.append("LLAMA_API_URL not configured"),
                    _ => r.append("Battle.net not configured"),
                }
            },
            RelayError::Unreachable(s, d) => {
                match s {
                    Service::Auth => r.append("OAuth request failed: "),
                    Service::Profile => r.append("API request failed: "),
                    Service::Inference => r.append("Failed to reach llama.cpp: "),
                }
                r.append(d.as_str());
            },
            RelayError::Status(s, code) => {
                match s {
                    Service::Auth => r.append("OAuth returned status "),
                    Service::Profile => r.append("Blizzard API returned status "),
                    Service::Inference => r.append("llama.cpp returned status "),
                }
                push_decimal(&mut r, *code as u64);
            },
            RelayError::Malformed(s, d) => {
                match s {
                    Service::Auth => r.append("Failed to parse OAuth response: "),
                    Service::Profile => r.append("Failed to parse character data: "),
                    Service::Inference => r.append("Failed to parse response: "),
                }
                r.append(d.as_str());
            },
            RelayError::NotFound(name) => {
                r.append("Character **");
                r.append(name.as_str());
                r.append("** not found on Nightslayer.");
            },
            RelayError::EmptyCompletion => r.append("No response from model"),
            RelayError::Storage(d) => {
                r.append("DB error: ");
                r.append(d.as_str());
            },
        }
        assert(r@ =~= error_text(*self));
        r
    }
}

/// A status in 200..=299, as `StatusCode::is_success` reads it.
pub open spec fn is_success(status: u16) -> bool {
    200 <= status && status <= 299
}

/// Reads the status of an answer from `service` to a request about `name`:
/// `Ok` for a status in 200..=299, `NotFound(name)` for 404 from the profile
/// service, and `Status` for any other.
pub fn check_status(service: Service, status: u16, name: &str) -> (r: Result<(), RelayError>)
    ensures
        is_success(status) ==> r is Ok,
        !is_success(status) && service == Service::Profile && status == 404 ==> (match r {
            Err(RelayError::NotFound(n)) => n@ == name@,
            _ => false,
        }),
        !is_success(status) && !(service == Service::Profile && status == 404) ==> r == Err::<
            (),
            RelayError,
        >(RelayError::Status(service, status)),
{
    if service == Service::Profile && status == 404 {
        let mut n = String::new();
        n.append(name);
        assert(n@ =~= name@);
        Err(RelayError::NotFound(n))
    } else if 200 <= status && status <= 299 {
        Ok(())
    } else {
        Err(RelayError::Status(service, status))
    }
}

} // verus!
