//! Where a backend's base URL points: the host and port to connect to.

use vstd::prelude::*;
use url::Url;

verus! {

/// What the proxy reads from a parsed URL.
#[derive(Debug, Clone, PartialEq, Eq)]
pub struct Origin {
    pub host: Option<String>,
    pub port: Option<u16>,
}

/// The host and port that a backend is reached at.
#[derive(Debug, Clone, PartialEq, Eq)]
pub struct Target {
    pub host: String,
    pub port: u16,
}

/// Why a base URL gives no target.
#[derive(Debug, Clone, Copy, PartialEq, Eq, Structural)]
pub enum ResolveError {
    InvalidUrl,
    NoHost,
}

/// The port assumed where a URL names none and its scheme has no default.
pub const FALLBACK_PORT: u16 = 80;

/// Whether `Url::parse` accepts the text as an absolute URL.
pub uninterp spec fn url_accepted(text: Seq<char>) -> bool;

/// What `Url::host_str` gives for the URL parsed from the text.
pub uninterp spec fn url_host(text: Seq<char>) -> Option<Seq<char>>;

/// What `Url::port_or_known_default` gives for the URL parsed from the text.
pub uninterp spec fn url_port(text: Seq<char>) -> Option<u16>;

impl Origin {
    /// The host as plain text.
    pub open spec fn host_text(&self) -> Option<Seq<char>> {
        match self.host {
            Some(h) => Some(h@),
            None => None,
        }
    }
}

/// `Url::parse` of the `url` crate, followed by `Url::host_str` and
/// `Url::port_or_known_default` on the parsed URL. The contract claims that
/// all three depend on the text alone: an origin comes back exactly when the
/// text is accepted, and then holds the host and the port that the two
/// accessors give.
#[verifier::external_body]
fn read_origin(text: &str) -> (r: Option<Origin>)
    ensures
        r is Some <==> url_accepted(text@),
        r matches Some(origin) ==> origin.host_text() == url_host(text@) && origin.port
            == url_port(text@),
{
    match Url::parse(text) {
        Ok(parsed) => Some(
            Origin {
                host: parsed.host_str().map(|h| h.to_string()),
                port: parsed.port_or_known_default(),
            },
        ),
        Err(_) => None,
    }
}

/// Whether a text can serve as a backend's base URL: an absolute URL with a
/// host.
pub open spec fn usable_url(text: Seq<char>) -> bool {
    url_accepted(text) && url_host(text) is Some
}

/// The target that an origin stands for, or the reason why there is none.
pub open spec fn target_in(origin: Option<Origin>) -> Result<(Seq<char>, u16), ResolveError> {
    match origin {
        None => Err(ResolveError::InvalidUrl),
        Some(o) => match o.host {
            None => Err(ResolveError::NoHost),
            Some(h) => Ok(
                (
                    h@,
                    match o.port {
                        Some(p) => p,
                        None => FALLBACK_PORT,
                    },
                ),
            ),
        },
    }
}

impl Target {
    /// Host text and port, as plain values.
    pub open spec fn view(&self) -> (Seq<char>, u16) {
        (self.host@, self.port)
    }
}

/// Turns what was read from a URL into the target to connect to: no origin
/// means the text was no URL, no host is an error of its own, and a missing
/// port falls back to 80.
pub fn locate(origin: Option<Origin>) -> (r: Result<Target, ResolveError>)
    ensures
        match target_in(origin) {
            Ok(t) => r matches Ok(target) && target@ == t,
            Err(e) => r == Err::<Target, ResolveError>(e),
        },
{
    match origin {
        None => Err(ResolveError::InvalidUrl),
        Some(o) => match o.host {
            None => Err(ResolveError::NoHost),
            Some(host) => {
                let port: u16 = match o.port {
                    Some(p) => p,
                    None => FALLBACK_PORT,
                };
                Ok(Target { host, port })
            },
        },
    }
}

/// The target that a URL's text stands for, or the reason why there is
/// none.
pub open spec fn target_at(text: Seq<char>) -> Result<(Seq<char>, u16), ResolveError> {
    if !url_accepted(text) {
        Err(ResolveError::InvalidUrl)
    } else {
        match url_host(text) {
            None => Err(ResolveError::NoHost),
            Some(h) => Ok(
                (
                    h,
                    match url_port(text) {
                        Some(p) => p,
                        None => FALLBACK_PORT,
                    },
                ),
            ),
        }
    }
}

/// The host and port that a base URL points to.
pub fn resolve_target(url: &str) -> (r: Result<Target, ResolveError>)
    ensures
        match target_at(url@) {
            Ok(t) => r matches Ok(target) && target@ == t,
            Err(e) => r == Err::<Target, ResolveError>(e),
        },
{
    locate(read_origin(url))
}

/// Whether a text can serve as a backend's base URL.
pub fn is_usable_url(url: &str) -> (usable: bool)
    ensures
        usable == usable_url(url@),
{
    match read_origin(url) {
        Some(origin) => origin.host.is_some(),
        None => false,
    }
}

impl ResolveError {
    /// The message that goes with this error.
    pub open spec fn reason(self) -> Seq<char> {
        match self {
            ResolveError::InvalidUrl => "Invalid URL"@,
            ResolveError::NoHost => "No host found"@,
        }
    }

    /// The message that goes with this error, as a string.
    pub fn message(&self) -> (text: String)
        ensures
            text@ == self.reason(),
    {
        match self {
            ResolveError::InvalidUrl => "Invalid URL".to_owned(),
            ResolveError::NoHost => "No host found".to_owned(),
        }
    }
}

} // verus!
