use vstd::prelude::*;
use vstd::utf8::encode_utf8;
use crate::content_format::{ContentFormat, content_format_as_u16};
use crate::error::ClientError;
use crate::resolver::{ResolvedUrl, resolve_url, parse_coap_url, opt_chars};
use coap_lite::{CoapOption, RequestType};

verus! {

/// coap-lite's request method: its variants are plain tags.
#[verifier::external_type_specification]
pub struct ExRequestType(coap_lite::RequestType);

/// coap-lite's option numbers: plain tags, and `Unknown` with its number.
#[verifier::external_type_specification]
pub struct ExCoapOption(coap_lite::CoapOption);

/// A request ready for the transport: what the CoAP request builder is
/// handed, field for field.
pub struct Request {
    pub method: RequestType,
    pub path: String,
    pub domain: String,
    pub queries: Vec<Vec<u8>>,
    pub options: Vec<(CoapOption, Vec<u8>)>,
    pub payload: Option<Vec<u8>>,
}

/// The mathematical content of a `Request`.
pub struct RequestView {
    pub method: RequestType,
    pub path: Seq<char>,
    pub domain: Seq<char>,
    pub queries: Seq<Seq<u8>>,
    pub options: Seq<(CoapOption, Seq<u8>)>,
    pub payload: Option<Seq<u8>>,
}

pub open spec fn opt_bytes(o: Option<Vec<u8>>) -> Option<Seq<u8>> {
    match o {
        Some(b) => Some(b@),
        None => None,
    }
}

pub open spec fn options_view(o: Seq<(CoapOption, Vec<u8>)>) -> Seq<(CoapOption, Seq<u8>)> {
    o.map_values(|p: (CoapOption, Vec<u8>)| (p.0, p.1@))
}

impl View for Request {
    type V = RequestView;

    open spec fn view(&self) -> RequestView {
        RequestView {
            method: self.method,
            path: self.path@,
            domain: self.domain@,
            queries: self.queries@.map_values(|q: Vec<u8>| q@),
            options: options_view(self.options@),
            payload: opt_bytes(self.payload),
        }
    }
}

/// The bytes of an unsigned option value: big-endian with no leading zero
/// bytes, so that zero is empty.
pub open spec fn u16_option_value(v: u16) -> Seq<u8> {
    if v == 0 {
        seq![]
    } else if v < 256 {
        seq![v as u8]
    } else {
        seq![(v / 256) as u8, (v % 256) as u8]
    }
}

/// Relies on coap-lite's `From<OptionValueU16> for Vec<u8>`, which writes
/// the value big-endian in as few bytes as it needs (none for zero).
#[verifier::external_body]
fn encode_u16_option(v: u16) -> (r: Vec<u8>)
    ensures
        r@ == u16_option_value(v),
{
    Vec::<u8>::from(coap_lite::option_value::OptionValueU16(v))
}

/// One Accept option for each acceptable format, in the order given.
pub open spec fn accept_entries(accept: Seq<ContentFormat>) -> Seq<(CoapOption, Seq<u8>)> {
    accept.map_values(|a: ContentFormat| (CoapOption::Accept, u16_option_value(a.code)))
}

/// The options of a request: the Content-Format option if a format is
/// declared, then the Accept options.
pub open spec fn option_entries(cf: Option<ContentFormat>, accept: Seq<ContentFormat>) -> Seq<
    (CoapOption, Seq<u8>),
> {
    let head = match cf {
        Some(c) => seq![(CoapOption::ContentFormat, u16_option_value(c.code))],
        None => Seq::empty(),
    };
    head + accept_entries(accept)
}

pub open spec fn accept_seq(accept: Option<Vec<ContentFormat>>) -> Seq<ContentFormat> {
    match accept {
        Some(a) => a@,
        None => Seq::empty(),
    }
}

/// The request assembled from a resolved URL and the caller's choices: the
/// host as domain, the path as it is, the whole raw query as one Uri-Query
/// value, and the payload verbatim.
pub open spec fn assembled(
    url: (Seq<char>, Option<u16>, Seq<char>, Option<Seq<char>>),
    method: RequestType,
    payload: Option<Seq<u8>>,
    cf: Option<ContentFormat>,
    accept: Seq<ContentFormat>,
) -> RequestView {
    RequestView {
        method,
        path: url.2,
        domain: url.0,
        queries: match url.3 {
            Some(q) => seq![encode_utf8(q)],
            None => Seq::empty(),
        },
        options: option_entries(cf, accept),
        payload,
    }
}

/// Builds a request from an already resolved URL.
pub fn assemble_request(
    url: ResolvedUrl,
    method: RequestType,
    payload: Option<Vec<u8>>,
    content_format: Option<ContentFormat>,
    accept: Option<Vec<ContentFormat>>,
) -> (r: Request)
    ensures
        r@ == assembled(
            (url.0@, url.1, url.2@, opt_chars(url.3)),
            method,
            opt_bytes(payload),
            content_format,
            accept_seq(accept),
        ),
{
    let ghost accepted = accept_seq(accept);
    let (host, _, path, query) = url;
    let ghost query_copy = query;
    let mut queries: Vec<Vec<u8>> = Vec::new();
    if let Some(q) = query {
        queries.push(q.as_str().as_bytes_vec());
    }
    let mut options: Vec<(CoapOption, Vec<u8>)> = Vec::new();
    if let Some(cf) = content_format {
        options.push((CoapOption::ContentFormat, encode_u16_option(content_format_as_u16(cf))));
    }
    assert(options_view(options@) =~= option_entries(content_format, Seq::empty()));
    if let Some(a) = accept {
        let mut i: usize = 0;
        while i < a.len()
            invariant
                i <= a@.len(),
                a@ == accepted,
                options_view(options@) =~= option_entries(content_format, a@.subrange(0, i as int)),
            decreases a@.len() - i,
        {
            let code = content_format_as_u16(a[i]);
            let ghost before = options@;
            options.push((CoapOption::Accept, encode_u16_option(code)));
            let ghost entry = (CoapOption::Accept, u16_option_value(a@[i as int].code));
            assert(options_view(options@) =~= options_view(before).push(entry));
            assert(a@.subrange(0, i + 1) =~= a@.subrange(0, i as int).push(a@[i as int]));
            assert(accept_entries(a@.subrange(0, i + 1)) =~= accept_entries(
                a@.subrange(0, i as int),
            ).push(entry));
            assert(option_entries(content_format, a@.subrange(0, i + 1)) =~= option_entries(
                content_format,
                a@.subrange(0, i as int),
            ).push(entry));
            i = i + 1;
        }
        assert(a@.subrange(0, a@.len() as int) =~= a@);
    }
    proof {
        let expected: Seq<Seq<u8>> = match query_copy {
            Some(q) => seq![encode_utf8(q@)],
            None => Seq::empty(),
        };
        assert(queries@.map_values(|q: Vec<u8>| q@) =~= expected);
    }
    Request { method, path, domain: host, queries, options, payload }
}

/// Builds the request for a CoAP URL: the URL is resolved first, and its
/// error, if any, is returned unchanged.
pub fn build_coap_request_for_url(
    url: &str,
    method: RequestType,
    payload: Option<Vec<u8>>,
    content_format: Option<ContentFormat>,
    accept: Option<Vec<ContentFormat>>,
) -> (r: Result<Request, ClientError>)
    ensures
        match resolve_url(url@) {
            Ok(u) => r is Ok && r.unwrap()@ == assembled(
                u,
                method,
                opt_bytes(payload),
                content_format,
                accept_seq(accept),
            ),
            Err(e) => r == Err::<Request, ClientError>(e),
        },
{
    match parse_coap_url(url) {
        Ok(resolved) => Ok(assemble_request(resolved, method, payload, content_format, accept)),
        Err(e) => Err(e),
    }
}

/// Each acceptable format gives exactly one Accept option, in the order of
/// the list and without deduplication, after the Content-Format option if
/// one is declared.
pub proof fn lemma_accept_options_in_order(cf: Option<ContentFormat>, accept: Seq<ContentFormat>)
    ensures
        ({
            let opts = option_entries(cf, accept);
            let k: int = if cf is Some { 1 } else { 0 };
            &&& opts.len() == k + accept.len()
            &&& forall|i: int|
                0 <= i < accept.len() ==> opts[k + i] == (
                    CoapOption::Accept,
                    u16_option_value(#[trigger] accept[i].code),
                )
        }),
{
}

} // verus!
