use coap_client::content_format::{content_format_as_u16, is_numeral_token, parse_content_format, parse_numeral, str_eq, ContentFormat};
use coap_client::dispatch::{
    effective_port, parse_content_formats, render_payload, request_for_command, select_payload_source,
    Command, PayloadSource, DEFAULT_PORT,
};
use coap_client::error::ClientError;
use coap_client::request::{assemble_request, build_coap_request_for_url};
use coap_client::resolver::{parse_coap_url, resolve_url_parts, UrlParts};
use coap_lite::{CoapOption, RequestType};

fn strings(v: &[&str]) -> Vec<String> {
    v.iter().map(|s| s.to_string()).collect()
}

#[test]
fn bracketed_ipv6_host_is_unwrapped() {
    let (host, port, path, query) = parse_coap_url("coap://[::1]:5683/a").unwrap();
    assert_eq!(host, "::1");
    assert_eq!(port, Some(5683));
    assert_eq!(path, "/a");
    assert_eq!(query, None);
}

#[test]
fn url_without_host_is_refused() {
    assert_eq!(parse_coap_url("coap:///path"), Err(ClientError::InvalidHost));
}

#[test]
fn unparsable_url_is_refused() {
    assert_eq!(parse_coap_url("not a url"), Err(ClientError::InvalidUrl));
    assert_eq!(parse_coap_url(""), Err(ClientError::InvalidUrl));
}

#[test]
fn missing_port_defaults_when_connecting() {
    let (host, port, path, _) = parse_coap_url("coap://localhost/sensors").unwrap();
    assert_eq!(host, "localhost");
    assert_eq!(port, None);
    assert_eq!(path, "/sensors");
    assert_eq!(effective_port(port), 5683);
    assert_eq!(DEFAULT_PORT, 5683);
    assert_eq!(effective_port(Some(7000)), 7000);
}

#[test]
fn raw_query_is_kept() {
    let (_, _, _, query) = parse_coap_url("coap://h/p?a=1&b=x%20y").unwrap();
    assert_eq!(query, Some("a=1&b=x%20y".to_string()));
}

#[test]
fn resolving_parts_checks_the_host() {
    let parts = |host: Option<&str>| UrlParts {
        host: host.map(String::from),
        port: Some(1),
        path: "/p".to_string(),
        query: None,
    };
    assert_eq!(resolve_url_parts(parts(None)), Err(ClientError::InvalidHost));
    assert_eq!(resolve_url_parts(parts(Some(""))), Err(ClientError::InvalidHost));
    assert_eq!(
        resolve_url_parts(parts(Some("[fe80::1]"))),
        Ok(("fe80::1".to_string(), Some(1), "/p".to_string(), None))
    );
    assert_eq!(
        resolve_url_parts(parts(Some("[a\nb]"))).unwrap().0,
        "[a\nb]".to_string()
    );
    assert_eq!(resolve_url_parts(parts(Some("[]"))), Err(ClientError::InvalidHost));
    assert_eq!(resolve_url_parts(parts(Some("host]"))).unwrap().0, "host]".to_string());
}

#[test]
fn numeric_and_symbolic_json_agree() {
    let a = parse_content_format("50");
    let b = parse_content_format("application/json");
    assert_eq!(a, b);
    assert_eq!(a, Ok(ContentFormat { code: 50 }));
}

#[test]
fn unregistered_number_is_refused() {
    assert_eq!(parse_content_format("999999"), Err(ClientError::UnknownContentFormatCode));
    assert_eq!(parse_content_format("1"), Err(ClientError::UnknownContentFormatCode));
    assert_eq!(
        parse_content_format("99999999999999999999999999"),
        Err(ClientError::UnknownContentFormatCode)
    );
    assert_eq!(parse_content_format("+65536"), Err(ClientError::UnknownContentFormatCode));
}

#[test]
fn unknown_media_type_is_refused() {
    assert_eq!(
        parse_content_format("text/unknown"),
        Err(ClientError::UnsupportedContentFormatString)
    );
    assert_eq!(parse_content_format(""), Err(ClientError::UnsupportedContentFormatString));
    assert_eq!(
        parse_content_format("Application/JSON"),
        Err(ClientError::UnsupportedContentFormatString)
    );
    assert_eq!(
        parse_content_format("+"),
        Err(ClientError::UnsupportedContentFormatString)
    );
}

#[test]
fn media_type_table() {
    let code = |s: &str| parse_content_format(s).unwrap().code;
    assert_eq!(code("text/plain"), 0);
    assert_eq!(code("application/json"), 50);
    assert_eq!(code("application/xml"), 41);
    assert_eq!(code("application/cbor"), 60);
    assert_eq!(code("application/octet-stream"), 42);
    assert_eq!(code("+60"), 60);
    assert_eq!(code("30000"), 30000);
    assert_eq!(content_format_as_u16(ContentFormat { code: 11542 }), 11542);
}

#[test]
fn decimal_numerals() {
    assert_eq!(parse_numeral("0"), Some(0));
    assert_eq!(parse_numeral("+42"), Some(42));
    assert_eq!(parse_numeral("007"), Some(7));
    assert_eq!(parse_numeral("+"), None);
    assert_eq!(parse_numeral("-1"), None);
    assert_eq!(parse_numeral("1a"), None);
    assert_eq!(parse_numeral(""), None);
    assert_eq!(parse_numeral(&usize::MAX.to_string()), Some(usize::MAX));
    assert_eq!(parse_numeral("99999999999999999999999999"), None);
    assert!(is_numeral_token("99999999999999999999999999"));
    assert!(is_numeral_token("+0"));
    assert!(!is_numeral_token("+"));
    assert!(!is_numeral_token(""));
    assert!(!is_numeral_token("12x"));
    assert!(str_eq("abc", "abc"));
    assert!(!str_eq("abc", "abd"));
    assert!(!str_eq("ab", "abc"));
}

#[test]
fn format_lists_stop_at_first_bad_token() {
    let ok = parse_content_formats(&strings(&["application/json", "60"])).unwrap();
    assert_eq!(ok, vec![ContentFormat { code: 50 }, ContentFormat { code: 60 }]);
    assert_eq!(
        parse_content_formats(&strings(&["50", "7", "text/unknown"])),
        Err(ClientError::UnknownContentFormatCode)
    );
    assert_eq!(parse_content_formats(&strings(&[])), Ok(vec![]));
}

#[test]
fn accept_options_keep_order() {
    let accept = parse_content_formats(&strings(&["application/json", "application/cbor"])).unwrap();
    let r = build_coap_request_for_url("coap://h/x", RequestType::Get, None, None, Some(accept)).unwrap();
    assert_eq!(
        r.options,
        vec![(CoapOption::Accept, vec![50u8]), (CoapOption::Accept, vec![60u8])]
    );
}

#[test]
fn option_values_are_minimal_big_endian() {
    let r = build_coap_request_for_url(
        "coap://h/x",
        RequestType::Post,
        Some(vec![1, 2]),
        Some(ContentFormat { code: 0 }),
        Some(vec![ContentFormat { code: 10000 }, ContentFormat { code: 50 }, ContentFormat { code: 50 }]),
    )
    .unwrap();
    assert_eq!(
        r.options,
        vec![
            (CoapOption::ContentFormat, vec![]),
            (CoapOption::Accept, vec![0x27u8, 0x10]),
            (CoapOption::Accept, vec![50u8]),
            (CoapOption::Accept, vec![50u8]),
        ]
    );
    assert_eq!(r.payload, Some(vec![1, 2]));
}

#[test]
fn query_becomes_one_uri_query_value() {
    let r = build_coap_request_for_url("coap://h/p/q?a=1&b=2", RequestType::Delete, None, None, None).unwrap();
    assert_eq!(r.queries, vec![b"a=1&b=2".to_vec()]);
    assert_eq!(r.path, "/p/q");
    assert_eq!(r.domain, "h");
    assert!(r.options.is_empty());
    let r = build_coap_request_for_url("coap://h/p", RequestType::Delete, None, None, None).unwrap();
    assert!(r.queries.is_empty());
}

#[test]
fn url_errors_pass_through_the_builder() {
    assert!(matches!(
        build_coap_request_for_url("coap:///x", RequestType::Get, None, None, None),
        Err(ClientError::InvalidHost)
    ));
    assert!(matches!(
        build_coap_request_for_url("::", RequestType::Get, None, None, None),
        Err(ClientError::InvalidUrl)
    ));
}

#[test]
fn assembling_from_resolved_parts() {
    let url = ("example.org".to_string(), None, "/a".to_string(), Some("k=v".to_string()));
    let r = assemble_request(url, RequestType::Put, Some(b"x".to_vec()), Some(ContentFormat { code: 60 }), None);
    assert_eq!(r.method, RequestType::Put);
    assert_eq!(r.domain, "example.org");
    assert_eq!(r.queries, vec![b"k=v".to_vec()]);
    assert_eq!(r.options, vec![(CoapOption::ContentFormat, vec![60u8])]);
    assert_eq!(r.payload, Some(b"x".to_vec()));
}

#[test]
fn post_without_data_or_file_is_refused() {
    assert_eq!(select_payload_source(None, None), Err(ClientError::MissingPayloadSource));
    assert_eq!(
        select_payload_source(Some("d".to_string()), Some("f".to_string())),
        Ok(PayloadSource::Inline("d".to_string()))
    );
    assert_eq!(
        select_payload_source(None, Some("f".to_string())),
        Ok(PayloadSource::File("f".to_string()))
    );
}

#[test]
fn get_scenario() {
    let url = "coap://localhost:5683/sensors/temp";
    let cmd = Command::Get { accept: strings(&["application/json"]) };
    let r = request_for_command(url, &cmd, None).unwrap();
    assert_eq!(r.method, RequestType::Get);
    assert_eq!(r.domain, "localhost");
    assert_eq!(r.path, "/sensors/temp");
    assert_eq!(r.options, vec![(CoapOption::Accept, vec![50u8])]);
    assert_eq!(r.payload, None);
    assert_eq!(effective_port(parse_coap_url(url).unwrap().1), 5683);
}

#[test]
fn put_scenario() {
    let cmd = Command::Put {
        accept: vec![],
        content_format: Some("text/plain".to_string()),
        data: Some("on".to_string()),
        file: None,
    };
    let r = request_for_command("coap://10.0.0.1/led", &cmd, Some("on".to_string())).unwrap();
    assert_eq!(r.method, RequestType::Put);
    assert_eq!(r.domain, "10.0.0.1");
    assert_eq!(r.path, "/led");
    assert_eq!(r.payload, Some(b"on".to_vec()));
    assert_eq!(r.options, vec![(CoapOption::ContentFormat, vec![])]);
}

#[test]
fn command_errors_come_in_order() {
    let cmd = Command::Post {
        accept: strings(&["bogus"]),
        content_format: Some("12345".to_string()),
        data: None,
        file: None,
    };
    assert!(matches!(
        request_for_command("coap:///x", &cmd, Some("d".to_string())),
        Err(ClientError::UnknownContentFormatCode)
    ));
    let cmd = Command::Delete { accept: strings(&["bogus"]) };
    assert!(matches!(
        request_for_command("coap:///x", &cmd, None),
        Err(ClientError::UnsupportedContentFormatString)
    ));
    let cmd = Command::Delete { accept: vec![] };
    assert!(matches!(request_for_command("coap:///x", &cmd, None), Err(ClientError::InvalidHost)));
}

#[test]
fn payload_rendering() {
    assert_eq!(render_payload(&"héllo".as_bytes().to_vec()), "héllo");
    assert_eq!(render_payload(&vec![]), "");
    assert_eq!(render_payload(&vec![0xff, b'a']), "\u{FFFD}a");
    assert_eq!(render_payload(&vec![b'o', b'k', 0xc3]), "ok\u{FFFD}");
}

#[test]
fn error_messages() {
    assert_eq!(ClientError::MissingPayloadSource.message(), "must specify either data string or file path");
    assert_eq!(ClientError::InvalidUrl.message(), "url error");
    assert_eq!(ClientError::InvalidHost.message(), "host error");
    assert_eq!(ClientError::UnknownContentFormatCode.message(), "invalid content format number");
}
