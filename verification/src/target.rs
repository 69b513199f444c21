//! What the relay needs to know of a target's URL: its scheme, the authority
//! it names, whether it will do as a target, and the `Host` header that
//! follows from it.

use crate::text::{decimal, decimal_text};
use vstd::prelude::*;

verus! {

/// The error of the `url` crate's parser. Opaque here: it is only turned
/// into text.
#[verifier::external_type_specification]
#[verifier::external_body]
pub struct ExParseError(url::ParseError);

/// The host and the explicit port of a parsed URL.
#[derive(Debug)]
pub struct Authority {
    /// The host as the URL serialises it; `None` for URLs without one.
    pub host: Option<String>,
    /// The port, where the URL gives one that is not its scheme's default.
    pub port: Option<u16>,
}

/// What an [`Authority`] stands for.
pub struct AuthorityModel {
    pub host: Option<Seq<char>>,
    pub port: Option<u16>,
}

impl View for Authority {
    type V = AuthorityModel;

    open spec fn view(&self) -> AuthorityModel {
        AuthorityModel {
            host: match self.host {
                Some(h) => Some(h@),
                None => None,
            },
            port: self.port,
        }
    }
}

/// What is read off a parsed URL: its scheme and its authority.
#[derive(Debug)]
pub struct Location {
    /// The scheme in lower case, without the colon.
    pub scheme: String,
    /// The host and the port.
    pub authority: Authority,
}

/// What a [`Location`] stands for.
pub struct LocationModel {
    pub scheme: Seq<char>,
    pub authority: AuthorityModel,
}

impl View for Location {
    type V = LocationModel;

    open spec fn view(&self) -> LocationModel {
        LocationModel { scheme: self.scheme@, authority: self.authority@ }
    }
}

/// What the `url` crate's parser finds in `input`: `None` where it rejects
/// `input`, otherwise what `Url::scheme`, `Url::host_str` and `Url::port`
/// report of the parsed URL.
pub uninterp spec fn url_location(input: Seq<char>) -> Option<LocationModel>;

/// The authority that the parser finds in `input`, where it accepts `input`.
pub open spec fn url_authority(input: Seq<char>) -> Option<AuthorityModel> {
    match url_location(input) {
        Some(l) => Some(l.authority),
        None => None,
    }
}

/// Whether `input` parses as an absolute URL.
pub open spec fn is_url(input: Seq<char>) -> bool {
    url_location(input) is Some
}

/// Whether a scheme is `http` or `https`.
pub open spec fn is_http_scheme(scheme: Seq<char>) -> bool {
    scheme == "http"@ || scheme == "https"@
}

/// What keeps a parsed URL from being a target, in words: another scheme
/// than `http` or `https`, or else the lack of a host. `None` where nothing
/// does.
pub open spec fn location_fault(l: LocationModel) -> Option<Seq<char>> {
    if !is_http_scheme(l.scheme) {
        Some("URL scheme must be http or https"@)
    } else if l.authority.host is None {
        Some("URL has no host"@)
    } else {
        None
    }
}

/// Whether `input` will do as a target: it parses as an absolute URL, its
/// scheme is `http` or `https`, and it names a host.
pub open spec fn is_target_url(input: Seq<char>) -> bool {
    url_location(input) matches Some(l) && is_http_scheme(l.scheme) && l.authority.host is Some
}

/// The value of the `Host` header for an authority: the host, followed by a
/// colon and the port in decimal where a port is given. `None` without a
/// host.
pub open spec fn host_header(a: AuthorityModel) -> Option<Seq<char>> {
    match a.host {
        None => None,
        Some(h) => Some(
            match a.port {
                Some(p) => h + seq![':'] + decimal(p as nat),
                None => h,
            },
        ),
    }
}

/// Calls `url::Url::parse`, and on success reads `scheme`, `host_str` and
/// `port` off the parsed URL. Trusted: the result is an error exactly where
/// the parser rejects `input`, and otherwise holds the three values that
/// [`url_location`] names.
#[verifier::external_body]
fn parse_location(input: &str) -> (r: Result<Location, url::ParseError>)
    ensures
        r is Ok <==> url_location(input@) is Some,
        r matches Ok(l) ==> url_location(input@) == Some(l@),
{
    match url::Url::parse(input) {
        Ok(parsed) => Ok(
            Location {
                scheme: String::from(parsed.scheme()),
                authority: Authority {
                    host: parsed.host_str().map(String::from),
                    port: parsed.port(),
                },
            },
        ),
        Err(e) => Err(e),
    }
}

/// Renders a parser error through its `Display` impl. Trusted, and nothing
/// is claimed of the text.
#[verifier::external_body]
fn parse_error_text(e: &url::ParseError) -> (text: String) {
    e.to_string()
}

/// Parses `input` as an absolute URL and returns its scheme and authority,
/// or the parser's description of what is wrong with it.
pub fn location_of(input: &str) -> (r: Result<Location, String>)
    ensures
        r is Ok <==> is_url(input@),
        r matches Ok(l) ==> url_location(input@) == Some(l@),
{
    match parse_location(input) {
        Ok(l) => Ok(l),
        Err(e) => Err(parse_error_text(&e)),
    }
}

/// Parses `input` as an absolute URL and returns its authority, or the
/// parser's description of what is wrong with it.
pub fn authority_of(input: &str) -> (r: Result<Authority, String>)
    ensures
        r is Ok <==> is_url(input@),
        r matches Ok(a) ==> url_authority(input@) == Some(a@),
{
    match location_of(input) {
        Ok(l) => Ok(l.authority),
        Err(text) => Err(text),
    }
}

/// Says what keeps a parsed URL from being a target; see
/// [`location_fault`].
pub fn fault_of(location: &Location) -> (r: Option<String>)
    ensures
        match r {
            Some(text) => location_fault(location@) == Some(text@),
            None => location_fault(location@) is None,
        },
{
    let http = location.scheme == String::from_str("http");
    let https = location.scheme == String::from_str("https");
    if !http && !https {
        Some(String::from_str("URL scheme must be http or https"))
    } else if location.authority.host.is_none() {
        Some(String::from_str("URL has no host"))
    } else {
        None
    }
}

/// Says what keeps `input` from being a target: the parser's complaint
/// where it does not parse, else what [`location_fault`] says of what it
/// parses to. `None` exactly where `input` will do.
pub fn target_fault(input: &str) -> (r: Option<String>)
    ensures
        r is None <==> is_target_url(input@),
        url_location(input@) matches Some(l) ==> match r {
            Some(text) => location_fault(l) == Some(text@),
            None => location_fault(l) is None,
        },
{
    match location_of(input) {
        Err(text) => Some(text),
        Ok(location) => fault_of(&location),
    }
}

/// Builds the `Host` header value for `a`, or `None` where `a` has no host.
pub fn host_header_of(a: &Authority) -> (r: Option<String>)
    ensures
        match r {
            Some(h) => host_header(a@) == Some(h@),
            None => host_header(a@) is None,
        },
{
    match &a.host {
        None => None,
        Some(h) => {
            let mut value = h.clone();
            match a.port {
                Some(p) => {
                    proof {
                        reveal_strlit(":");
                    }
                    value.append(":");
                    let digits = decimal_text(p);
                    value.append(digits.as_str());
                    assert(":"@ =~= seq![':']);
                },
                None => {},
            }
            Some(value)
        },
    }
}

} // verus!
