use crate::errors::WsError;
use crate::numeral::dec_rep;
use crate::numeral::dec_string;
use url::Url;
use vstd::prelude::*;
use vstd::string::StringExecFns;

verus! {

#[verifier::external_type_specification]
#[verifier::external_body]
pub struct ExUrl(Url);

/// Whether a string parses as an absolute URL. Url::parse accepts or rejects
/// a string as a function of its characters alone.
pub uninterp spec fn url_parses(s: Seq<char>) -> bool;

/// The scheme of the URL a string parses to, as Url::scheme reports it:
/// lower-cased by the parser.
pub uninterp spec fn url_scheme_of(s: Seq<char>) -> Seq<char>;

/// The host of the URL a string parses to, when it has one, as Url::host_str
/// reports it.
pub uninterp spec fn url_host_of(s: Seq<char>) -> Option<Seq<char>>;

/// The port of the URL a string parses to, as Url::port reports it: only a
/// port named explicitly and different from the scheme's default.
pub uninterp spec fn url_port_of(s: Seq<char>) -> Option<u16>;

/// A parsed URL beside the plain parts the engine reads from it.
pub struct ParsedUrl {
    pub url: Url,
    pub scheme: String,
    pub host: Option<String>,
    pub port: Option<u16>,
}

/// Relies on url::Url::parse, Url::scheme, Url::host_str and Url::port:
/// whether a string parses, and the parsed URL's scheme, host and port, are
/// each a function of the string's characters alone, and are returned here
/// as plain values beside the URL.
#[verifier::external_body]
fn url_parse(s: &str) -> (r: Option<ParsedUrl>)
    ensures
        r is Some <==> url_parses(s@),
        (r matches Some(p) ==> {
            &&& p.scheme@ == url_scheme_of(s@)
            &&& (p.host matches Some(h) ==> url_host_of(s@) == Some(h@))
            &&& (p.host is None <==> url_host_of(s@) is None)
            &&& p.port == url_port_of(s@)
        }),
{
    Url::parse(s).ok().map(|u| {
        let scheme = u.scheme().to_owned();
        let host = u.host_str().map(|h| h.to_owned());
        let port = u.port();
        ParsedUrl { url: u, scheme, host, port }
    })
}

/// Parse the requested URL, keeping the raw string beside the parsed value.
/// Exactly the strings that parse are accepted; no other check happens here
/// — the scheme is judged separately.
pub fn http_parse_url(raw_url: String) -> (r: Result<(String, Url), WsError>)
    ensures
        r is Ok <==> url_parses(raw_url@),
        (r matches Ok(p) ==> p.0@ == raw_url@),
        (r matches Err(e) ==> e == WsError::MalformedUrl),
{
    match url_parse(raw_url.as_str()) {
        Some(p) => Ok((raw_url, p.url)),
        None => Err(WsError::MalformedUrl),
    }
}

/// Whether a scheme is one of the two the engine accepts.
pub fn is_ws_scheme(scheme: &String) -> (r: bool)
    ensures
        r == (scheme@ == "ws"@ || scheme@ == "wss"@),
{
    let ws: String = "ws".to_owned();
    let wss: String = "wss".to_owned();
    *scheme == ws || *scheme == wss
}

/// Parse and admit a streaming target: accepted exactly when the string
/// parses as a URL and its scheme is ws or wss. The raw string is kept
/// beside the parsed URL for the host's diagnostics.
pub fn validate_request(raw_url: String) -> (r: Result<(String, ParsedUrl), WsError>)
    ensures
        r is Ok <==> url_parses(raw_url@) && (url_scheme_of(raw_url@) == "ws"@ || url_scheme_of(
            raw_url@,
        ) == "wss"@),
        (r matches Ok(p) ==> {
            &&& p.0@ == raw_url@
            &&& p.1.scheme@ == url_scheme_of(raw_url@)
            &&& (p.1.host matches Some(h) ==> url_host_of(raw_url@) == Some(h@))
            &&& (p.1.host is None <==> url_host_of(raw_url@) is None)
            &&& p.1.port == url_port_of(raw_url@)
        }),
        (r matches Err(e) ==> e == (if !url_parses(raw_url@) {
            WsError::MalformedUrl
        } else {
            WsError::UnsupportedScheme
        })),
{
    match url_parse(raw_url.as_str()) {
        Some(p) => {
            if is_ws_scheme(&p.scheme) {
                Ok((raw_url, p))
            } else {
                Err(WsError::UnsupportedScheme)
            }
        },
        None => Err(WsError::MalformedUrl),
    }
}

/// The synthesized Origin header value: `scheme://host:port`, built from the
/// URL's own parts. An absent host reads as empty and an absent port as 0;
/// the header is synthesized even then.
pub open spec fn origin_spec(scheme: Seq<char>, host: Seq<char>, port: int) -> Seq<char> {
    scheme + "://"@ + host + ":"@ + dec_rep(port)
}

/// Render the Origin header value for the given URL parts.
pub fn origin_header_value(scheme: &String, host: &String, port: u16) -> (r: String)
    ensures
        r@ == origin_spec(scheme@, host@, port as int),
{
    let mut out = scheme.clone();
    out.append("://");
    out.append(host.as_str());
    out.append(":");
    let digits = dec_string(port as u64);
    out.append(digits.as_str());
    proof {
        assert(out@ =~= origin_spec(scheme@, host@, port as int));
    }
    out
}

/// The Origin header value a connection to this URL synthesizes: its own
/// scheme, its host (empty when it has none) and its explicit port (0 when
/// it names none), in the fixed `scheme://host:port` shape.
pub fn origin_for_url(p: &ParsedUrl) -> (r: String)
    ensures
        r@ == origin_spec(
            p.scheme@,
            match p.host {
                Some(h) => h@,
                None => Seq::<char>::empty(),
            },
            match p.port {
                Some(q) => q as int,
                None => 0,
            },
        ),
{
    let host = match &p.host {
        Some(h) => h.clone(),
        None => String::new(),
    };
    let port = match p.port {
        Some(q) => q,
        None => 0,
    };
    origin_header_value(&p.scheme, &host, port)
}

} // verus!
