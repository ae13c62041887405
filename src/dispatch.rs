use vstd::prelude::*;
use vstd::utf8::{valid_utf8, decode_utf8, encode_utf8, decode_utf8_encode_utf8};
use crate::content_format::{ContentFormat, translate, parse_content_format};
use crate::error::ClientError;
use crate::request::{Request, RequestView, assembled, build_coap_request_for_url, opt_bytes};
use crate::resolver::{resolve_url, opt_chars, parsed_url};
use coap_lite::RequestType;

verus! {

/// The port of a CoAP server when the URL names none.
pub const DEFAULT_PORT: u16 = 5683;

/// What the operator asked for: a method, with the fields that it carries.
pub enum Command {
    Get { accept: Vec<String> },
    Post {
        accept: Vec<String>,
        content_format: Option<String>,
        data: Option<String>,
        file: Option<String>,
    },
    Put {
        accept: Vec<String>,
        content_format: Option<String>,
        data: Option<String>,
        file: Option<String>,
    },
    Delete { accept: Vec<String> },
}

/// Where the body of a POST or PUT comes from.
#[derive(Debug, PartialEq, Eq)]
pub enum PayloadSource {
    /// The data given on the command line.
    Inline(String),
    /// The path of a file that holds the data.
    File(String),
}

/// The port to connect to: the URL's own, else the CoAP default.
pub open spec fn port_or_default(port: Option<u16>) -> u16 {
    match port {
        Some(p) => p,
        None => DEFAULT_PORT,
    }
}

/// The port to connect to for a resolved URL's port.
pub fn effective_port(port: Option<u16>) -> (r: u16)
    ensures
        r == port_or_default(port),
{
    match port {
        Some(p) => p,
        None => DEFAULT_PORT,
    }
}

/// Chooses the body's source: inline data first, else the file; with
/// neither the request cannot be made.
pub fn select_payload_source(data: Option<String>, file: Option<String>) -> (r: Result<
    PayloadSource,
    ClientError,
>)
    ensures
        match data {
            Some(d) => r matches Ok(PayloadSource::Inline(x)) && x@ == d@,
            None => match file {
                Some(f) => r matches Ok(PayloadSource::File(x)) && x@ == f@,
                None => r == Err::<PayloadSource, ClientError>(ClientError::MissingPayloadSource),
            },
        },
{
    match data {
        Some(d) => Ok(PayloadSource::Inline(d)),
        None => match file {
            Some(f) => Ok(PayloadSource::File(f)),
            None => Err(ClientError::MissingPayloadSource),
        },
    }
}

pub open spec fn token_views(v: Seq<String>) -> Seq<Seq<char>> {
    v.map_values(|s: String| s@)
}

/// The content-formats of a list of tokens, or the error of the first token
/// that does not translate.
pub open spec fn translate_all(ts: Seq<Seq<char>>) -> Result<Seq<ContentFormat>, ClientError>
    decreases ts.len(),
{
    if ts.len() == 0 {
        Ok(Seq::empty())
    } else {
        match translate_all(ts.drop_last()) {
            Ok(v) => match translate(ts.last()) {
                Ok(c) => Ok(v.push(c)),
                Err(e) => Err(e),
            },
            Err(e) => Err(e),
        }
    }
}

proof fn lemma_translate_all_error_persists(ts: Seq<Seq<char>>, k: int)
    requires
        0 <= k <= ts.len(),
        translate_all(ts.subrange(0, k)) is Err,
    ensures
        translate_all(ts) == translate_all(ts.subrange(0, k)),
    decreases ts.len(),
{
    if k == ts.len() {
        assert(ts.subrange(0, k) =~= ts);
    } else {
        assert(ts.drop_last().subrange(0, k) =~= ts.subrange(0, k));
        lemma_translate_all_error_persists(ts.drop_last(), k);
    }
}

/// Translates each content-format token in turn.
pub fn parse_content_formats(tokens: &Vec<String>) -> (r: Result<Vec<ContentFormat>, ClientError>)
    ensures
        match translate_all(token_views(tokens@)) {
            Ok(v) => r matches Ok(x) && x@ == v,
            Err(e) => r == Err::<Vec<ContentFormat>, ClientError>(e),
        },
{
    let ghost ts = token_views(tokens@);
    let mut out: Vec<ContentFormat> = Vec::new();
    let mut i: usize = 0;
    while i < tokens.len()
        invariant
            i <= tokens@.len(),
            ts == token_views(tokens@),
            ts.len() == tokens@.len(),
            translate_all(ts.subrange(0, i as int)) == Ok::<Seq<ContentFormat>, ClientError>(out@),
        decreases tokens@.len() - i,
    {
        let r = parse_content_format(tokens[i].as_str());
        assert(ts.subrange(0, i + 1).drop_last() =~= ts.subrange(0, i as int));
        assert(ts.subrange(0, i + 1).last() == tokens@[i as int]@);
        match r {
            Ok(cf) => {
                out.push(cf);
            },
            Err(e) => {
                proof {
                    lemma_translate_all_error_persists(ts, i + 1);
                }
                return Err(e);
            },
        }
        i = i + 1;
    }
    assert(ts.subrange(0, i as int) =~= ts);
    Ok(out)
}

pub open spec fn request_view(r: Result<Request, ClientError>) -> Result<RequestView, ClientError> {
    match r {
        Ok(q) => Ok(q@),
        Err(e) => Err(e),
    }
}

/// The request for one method: the declared format is translated first,
/// then the acceptable formats, then the URL is resolved.
pub open spec fn method_request(
    url: Seq<char>,
    method: RequestType,
    accept: Seq<Seq<char>>,
    content_format: Option<Seq<char>>,
    payload: Option<Seq<u8>>,
) -> Result<RequestView, ClientError> {
    let cf = match content_format {
        Some(t) => match translate(t) {
            Ok(c) => Ok(Some(c)),
            Err(e) => Err(e),
        },
        None => Ok(None),
    };
    match cf {
        Err(e) => Err(e),
        Ok(c) => match translate_all(accept) {
            Err(e) => Err(e),
            Ok(a) => match resolve_url(url) {
                Err(e) => Err(e),
                Ok(u) => Ok(assembled(u, method, payload, c, a)),
            },
        },
    }
}

/// The bytes of the body of a POST or PUT: the data as UTF-8.
pub open spec fn data_bytes(data: Option<String>) -> Option<Seq<u8>> {
    match data {
        Some(d) => Some(encode_utf8(d@)),
        None => None,
    }
}

/// The request that a command makes, with `data` as the body of a POST or
/// PUT; GET and DELETE carry neither body nor content-format.
pub open spec fn command_request(url: Seq<char>, c: Command, data: Option<String>) -> Result<
    RequestView,
    ClientError,
> {
    match c {
        Command::Get { accept } => method_request(
            url,
            RequestType::Get,
            token_views(accept@),
            None,
            None,
        ),
        Command::Post { accept, content_format, .. } => method_request(
            url,
            RequestType::Post,
            token_views(accept@),
            opt_chars(content_format),
            data_bytes(data),
        ),
        Command::Put { accept, content_format, .. } => method_request(
            url,
            RequestType::Put,
            token_views(accept@),
            opt_chars(content_format),
            data_bytes(data),
        ),
        Command::Delete { accept } => method_request(
            url,
            RequestType::Delete,
            token_views(accept@),
            None,
            None,
        ),
    }
}

fn method_request_exec(
    url: &str,
    method: RequestType,
    accept: &Vec<String>,
    content_format: &Option<String>,
    payload: Option<Vec<u8>>,
) -> (r: Result<Request, ClientError>)
    ensures
        request_view(r) == method_request(
            url@,
            method,
            token_views(accept@),
            opt_chars(*content_format),
            opt_bytes(payload),
        ),
{
    let cf = match content_format {
        Some(t) => match parse_content_format(t.as_str()) {
            Ok(c) => Some(c),
            Err(e) => return Err(e),
        },
        None => None,
    };
    let accept_cf = match parse_content_formats(accept) {
        Ok(a) => a,
        Err(e) => return Err(e),
    };
    build_coap_request_for_url(url, method, payload, cf, Some(accept_cf))
}

fn data_to_bytes(data: Option<String>) -> (r: Option<Vec<u8>>)
    ensures
        opt_bytes(r) == data_bytes(data),
{
    match data {
        Some(d) => Some(d.as_str().as_bytes_vec()),
        None => None,
    }
}

/// Builds the request that a command makes, given the body of a POST or
/// PUT once its source has been read.
pub fn request_for_command(url: &str, command: &Command, data: Option<String>) -> (r: Result<
    Request,
    ClientError,
>)
    ensures
        request_view(r) == command_request(url@, *command, data),
{
    match command {
        Command::Get { accept } => method_request_exec(url, RequestType::Get, accept, &None, None),
        Command::Post { accept, content_format, .. } => method_request_exec(
            url,
            RequestType::Post,
            accept,
            content_format,
            data_to_bytes(data),
        ),
        Command::Put { accept, content_format, .. } => method_request_exec(
            url,
            RequestType::Put,
            accept,
            content_format,
            data_to_bytes(data),
        ),
        Command::Delete { accept } => method_request_exec(
            url,
            RequestType::Delete,
            accept,
            &None,
            None,
        ),
    }
}

/// What a response payload reads as text: its bytes decoded as UTF-8, each
/// invalid sequence replaced.
pub uninterp spec fn lossy_text(b: Seq<u8>) -> Seq<char>;

/// Relies on `String::from_utf8_lossy`: valid UTF-8 decodes to the text it
/// encodes, and each invalid sequence becomes U+FFFD.
#[verifier::external_body]
fn from_utf8_lossy(b: &[u8]) -> (r: String)
    ensures
        r@ == lossy_text(b@),
        valid_utf8(b@) ==> r@ == decode_utf8(b@),
        !valid_utf8(b@) ==> r@.contains('\u{FFFD}'),
{
    String::from_utf8_lossy(b).into_owned()
}

/// The text shown for a response payload. Valid UTF-8 comes out verbatim
/// (its encoding is the payload itself); anything else still decodes, with
/// replacement characters where sequences are invalid.
pub fn render_payload(payload: &Vec<u8>) -> (r: String)
    ensures
        r@ == lossy_text(payload@),
        valid_utf8(payload@) ==> r@ == decode_utf8(payload@) && encode_utf8(r@) == payload@,
        !valid_utf8(payload@) ==> r@.contains('\u{FFFD}'),
{
    let r = from_utf8_lossy(payload.as_slice());
    proof {
        if valid_utf8(payload@) {
            decode_utf8_encode_utf8(payload@);
        }
    }
    r
}

/// A URL that names no port resolves without one, and the client then
/// connects to the CoAP default port.
pub proof fn lemma_default_port(s: Seq<char>)
    requires
        resolve_url(s) is Ok,
        parsed_url(s).unwrap().1 is None,
    ensures
        resolve_url(s).unwrap().1 is None,
        port_or_default(resolve_url(s).unwrap().1) == DEFAULT_PORT,
{
}

/// Text encoded as UTF-8 is valid UTF-8 and decodes back to itself, so by
/// the contract of `render_payload` such a payload is shown as that text.
pub proof fn lemma_payload_round_trip(t: Seq<char>)
    ensures
        valid_utf8(encode_utf8(t)),
        decode_utf8(encode_utf8(t)) == t,
{
    vstd::utf8::encode_utf8_valid_utf8(t);
    vstd::utf8::encode_utf8_decode_utf8(t);
}

} // verus!
