use vstd::prelude::*;
use crate::error::ClientError;

verus! {

/// A URL component that may be absent, as characters.
pub open spec fn opt_chars(o: Option<String>) -> Option<Seq<char>> {
    match o {
        Some(s) => Some(s@),
        None => None,
    }
}

/// The parts of a parsed URL that the client reads: host, port, path and
/// raw query string.
pub struct UrlParts {
    pub host: Option<String>,
    pub port: Option<u16>,
    pub path: String,
    pub query: Option<String>,
}

impl View for UrlParts {
    type V = (Option<Seq<char>>, Option<u16>, Seq<char>, Option<Seq<char>>);

    open spec fn view(&self) -> Self::V {
        (opt_chars(self.host), self.port, self.path@, opt_chars(self.query))
    }
}

/// A resolved URL: host (brackets of an IPv6 literal removed), port if
/// given, path, and raw query string if any.
pub type ResolvedUrl = (String, Option<u16>, String, Option<String>);

pub open spec fn resolved_view(
    r: Result<ResolvedUrl, ClientError>,
) -> Result<(Seq<char>, Option<u16>, Seq<char>, Option<Seq<char>>), ClientError> {
    match r {
        Ok(t) => Ok((t.0@, t.1, t.2@, opt_chars(t.3))),
        Err(e) => Err(e),
    }
}

/// What a generic URL parser makes of a string: `None` where it is no URL,
/// else host, port, path and query as the parser reports them.
pub uninterp spec fn parsed_url(
    s: Seq<char>,
) -> Option<(Option<Seq<char>>, Option<u16>, Seq<char>, Option<Seq<char>>)>;

/// Relies on the url crate's `Url::parse`, read through `host_str`, `port`,
/// `path` and `query`.
#[verifier::external_body]
fn parse_url_parts(s: &str) -> (r: Option<UrlParts>)
    ensures
        match r {
            Some(p) => parsed_url(s@) == Some(p@),
            None => parsed_url(s@) is None,
        },
{
    match url::Url::parse(s) {
        Ok(u) => Some(UrlParts {
            host: u.host_str().map(String::from),
            port: u.port(),
            path: String::from(u.path()),
            query: u.query().map(String::from),
        }),
        Err(_) => None,
    }
}

/// Whether a string is enclosed in a pair of square brackets.
pub open spec fn is_bracketed(h: Seq<char>) -> bool {
    h.len() >= 2 && h[0] == '[' && h.last() == ']'
}

/// A string with its surrounding square brackets, if any, removed.
pub open spec fn unbracketed(h: Seq<char>) -> Seq<char> {
    if is_bracketed(h) {
        h.subrange(1, h.len() - 1)
    } else {
        h
    }
}

/// A host with one pair of surrounding brackets removed. The brackets go
/// only where they enclose the whole host and no line feed stands between.
pub open spec fn strip_brackets(h: Seq<char>) -> Seq<char> {
    if is_bracketed(h) && !h.subrange(1, h.len() - 1).contains('\n') {
        h.subrange(1, h.len() - 1)
    } else {
        h
    }
}

/// Relies on regex's `Regex::replace` with the pattern `^\[(.*?)]$` and the
/// replacement `$1`: the pattern matches a whole string in brackets whose
/// inner part holds no line feed (`.` matches any other character), and the
/// match is replaced by that inner part.
#[verifier::external_body]
fn strip_host_brackets(h: &str) -> (r: String)
    ensures
        r@ == strip_brackets(h@),
{
    regex::Regex::new(r"^\[(.*?)]$").unwrap().replace(h, "$1").to_string()
}

/// The resolution of parsed URL parts: a host is required, its brackets are
/// removed, and what is left may not be empty; the rest is kept as it is.
pub open spec fn resolve_parts(
    p: (Option<Seq<char>>, Option<u16>, Seq<char>, Option<Seq<char>>),
) -> Result<(Seq<char>, Option<u16>, Seq<char>, Option<Seq<char>>), ClientError> {
    match p.0 {
        Some(h) => if strip_brackets(h).len() == 0 {
            Err(ClientError::InvalidHost)
        } else {
            Ok((strip_brackets(h), p.1, p.2, p.3))
        },
        None => Err(ClientError::InvalidHost),
    }
}

/// The resolution of a URL string.
pub open spec fn resolve_url(
    s: Seq<char>,
) -> Result<(Seq<char>, Option<u16>, Seq<char>, Option<Seq<char>>), ClientError> {
    match parsed_url(s) {
        Some(p) => resolve_parts(p),
        None => Err(ClientError::InvalidUrl),
    }
}

/// Resolves the parts of a parsed URL into host, port, path and query.
pub fn resolve_url_parts(parts: UrlParts) -> (r: Result<ResolvedUrl, ClientError>)
    ensures
        resolved_view(r) == resolve_parts(parts@),
{
    match parts.host {
        Some(h) => {
            let host = strip_host_brackets(h.as_str());
            if host.as_str().unicode_len() == 0 {
                Err(ClientError::InvalidHost)
            } else {
                Ok((host, parts.port, parts.path, parts.query))
            }
        },
        None => Err(ClientError::InvalidHost),
    }
}

/// Parses a CoAP URL into host, port, path and raw query string.
pub fn parse_coap_url(url: &str) -> (r: Result<ResolvedUrl, ClientError>)
    ensures
        resolved_view(r) == resolve_url(url@),
{
    match parse_url_parts(url) {
        Some(parts) => resolve_url_parts(parts),
        None => Err(ClientError::InvalidUrl),
    }
}

/// A host that the parser reports, bracketed as an IPv6 literal or not,
/// resolves to that host without its surrounding brackets, and the result
/// is itself not bracketed. This holds for hosts without a line feed that
/// are not bracketed twice and not empty inside their brackets.
pub proof fn lemma_resolved_host_unbracketed(s: Seq<char>)
    requires
        parsed_url(s) is Some,
        parsed_url(s).unwrap().0 is Some,
        !parsed_url(s).unwrap().0.unwrap().contains('\n'),
        unbracketed(parsed_url(s).unwrap().0.unwrap()).len() > 0,
        !is_bracketed(unbracketed(parsed_url(s).unwrap().0.unwrap())),
    ensures
        resolve_url(s) is Ok,
        resolve_url(s).unwrap().0 == unbracketed(parsed_url(s).unwrap().0.unwrap()),
        !is_bracketed(resolve_url(s).unwrap().0),
{
    let h = parsed_url(s).unwrap().0.unwrap();
    if is_bracketed(h) {
        let inner = h.subrange(1, h.len() - 1);
        if inner.contains('\n') {
            let i = choose|i: int| 0 <= i < inner.len() && inner[i] == '\n';
            assert(h[i + 1] == '\n');
        }
    }
}

/// A URL whose host is missing, or empty once its brackets are removed, is
/// refused with `InvalidHost`.
pub proof fn lemma_missing_host_refused(s: Seq<char>)
    requires
        parsed_url(s) is Some,
        parsed_url(s).unwrap().0 is None || strip_brackets(parsed_url(s).unwrap().0.unwrap()).len()
            == 0,
    ensures
        resolve_url(s) == Err::<(Seq<char>, Option<u16>, Seq<char>, Option<Seq<char>>), ClientError>(
            ClientError::InvalidHost,
        ),
{
}

} // verus!
