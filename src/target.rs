//! Reading the user's `host[:port]` as a `voicechat://` URL.
use vstd::prelude::*;
use vstd::string::StringExecFns;

verus! {

/// UDP port probed when the input names none.
pub const DEFAULT_PORT: u16 = 24454;

/// What is read off a parsed URL: its host, if any, and its explicit port,
/// if any.
#[derive(Clone, Debug)]
pub struct UrlParts {
    pub host: Option<String>,
    pub port: Option<u16>,
}

/// The host and port that probes go to, before the host is resolved.
#[derive(Clone, Debug)]
pub struct Endpoint {
    pub host: String,
    pub port: u16,
}

#[derive(Clone, Copy, Debug, PartialEq, Eq, Structural)]
pub enum InputError {
    /// The input does not make a valid URL.
    UrlParse,
    /// The URL has no host.
    NoHost,
}

/// Host and explicit port of the URL that `url` spells, or `None` where it
/// is no valid URL; as `url::Url::parse` reads it.
pub uninterp spec fn url_parts(url: Seq<char>) -> Option<(Option<Seq<char>>, Option<u16>)>;

pub open spec fn parts_view(p: UrlParts) -> (Option<Seq<char>>, Option<u16>) {
    (
        match p.host {
            Some(h) => Some(h@),
            None => None,
        },
        p.port,
    )
}

/// The URL that the input is read as.
pub open spec fn probe_url(input: Seq<char>) -> Seq<char> {
    "voicechat://"@ + input
}

/// The endpoint that a parsed URL gives: its host, and its port or the
/// default one.
pub open spec fn endpoint_from(parts: Option<(Option<Seq<char>>, Option<u16>)>) -> Result<
    (Seq<char>, u16),
    InputError,
> {
    match parts {
        None => Err(InputError::UrlParse),
        Some((None, _)) => Err(InputError::NoHost),
        Some((Some(h), port)) => Ok(
            (
                h,
                match port {
                    Some(p) => p,
                    None => DEFAULT_PORT,
                },
            ),
        ),
    }
}

pub open spec fn endpoint_view(r: Result<Endpoint, InputError>) -> Result<
    (Seq<char>, u16),
    InputError,
> {
    match r {
        Ok(e) => Ok((e.host@, e.port)),
        Err(x) => Err(x),
    }
}

/// Relies on url::Url::parse, reading Url::host_str and Url::port off the
/// result: the parse depends on the text alone.
#[verifier::external_body]
fn parse_url(s: &str) -> (r: Option<UrlParts>)
    ensures
        match r {
            Some(p) => url_parts(s@) == Some(parts_view(p)),
            None => url_parts(s@) is None,
        },
{
    match url::Url::parse(s) {
        Ok(u) => Some(UrlParts { host: u.host_str().map(String::from), port: u.port() }),
        Err(_) => None,
    }
}

/// The endpoint that the parts of a parsed URL give (`None`: the URL did
/// not parse).
pub fn endpoint_from_parts(parts: Option<UrlParts>) -> (r: Result<Endpoint, InputError>)
    ensures
        endpoint_view(r) == endpoint_from(
            match parts {
                Some(p) => Some(parts_view(p)),
                None => None,
            },
        ),
{
    match parts {
        None => Err(InputError::UrlParse),
        Some(p) => match p.host {
            None => Err(InputError::NoHost),
            Some(h) => {
                let port = match p.port {
                    Some(n) => n,
                    None => DEFAULT_PORT,
                };
                Ok(Endpoint { host: h, port })
            },
        },
    }
}

/// Reads `host[:port]` as a `voicechat://` URL.
pub fn parse_endpoint(input: &str) -> (r: Result<Endpoint, InputError>)
    ensures
        endpoint_view(r) == endpoint_from(url_parts(probe_url(input@))),
{
    let url = String::from_str("voicechat://").concat(input);
    let parts = parse_url(url.as_str());
    endpoint_from_parts(parts)
}

} // verus!
