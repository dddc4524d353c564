use proxy_provider::model::{
    check_json_number, DataSource, FetchError, ProxyDataSource, QueryInstantOptions, QueryMode, QuerySeriesOptions,
    RelayRequest, ReplyOutcome, RequestError, RequestMethod, TimeRange, Timestamp,
};
use proxy_provider::payload::{encode_payload, encode_query_mode};
use proxy_provider::relay::{
    build_request, create_headers, instant_request, interpret_reply, relay_request,
    series_request,
};
use proxy_provider::url::create_url;

fn proxy(proxy_id: &str, name: &str) -> ProxyDataSource {
    ProxyDataSource { proxy_id: proxy_id.to_owned(), data_source_name: name.to_owned() }
}

fn ts(number: &str) -> Timestamp {
    Timestamp { number: number.to_owned() }
}

fn range(from: &str, to: &str) -> TimeRange {
    TimeRange { from: ts(from), to: ts(to) }
}

fn expected_headers() -> Vec<(String, String)> {
    vec![
        ("Accept".to_owned(), "application/x-msgpack".to_owned()),
        ("Content-Type".to_owned(), "application/json".to_owned()),
    ]
}

fn incompatible() -> FetchError {
    FetchError::Other { message: "Incompatible data source".to_owned() }
}

fn other_sources() -> Vec<DataSource> {
    vec![
        DataSource::Prometheus { url: "http://prometheus:9090".to_owned() },
        DataSource::Elasticsearch { url: "http://elastic:9200".to_owned() },
        DataSource::Loki { url: "http://loki:3100".to_owned() },
    ]
}

#[test]
fn url_of_plain_identifiers() {
    let url = create_url(&proxy("abc-123", "prod_metrics.v1~x"));
    assert_eq!(url, "/api/proxies/abc-123/relay?dataSourceName=prod_metrics.v1~x");
}

#[test]
fn url_escapes_reserved_characters() {
    let url = create_url(&proxy("a b/c&d?e%f", "x=y#z+"));
    assert_eq!(url, "/api/proxies/a%20b%2Fc%26d%3Fe%25f/relay?dataSourceName=x%3Dy%23z%2B");
}

#[test]
fn url_escapes_unicode_bytes() {
    let url = create_url(&proxy("naïve", "日"));
    assert_eq!(url, "/api/proxies/na%C3%AFve/relay?dataSourceName=%E6%97%A5");
}

#[test]
fn url_of_empty_identifiers() {
    let url = create_url(&proxy("", ""));
    assert_eq!(url, "/api/proxies//relay?dataSourceName=");
}

#[test]
fn headers_are_fixed() {
    assert_eq!(create_headers(), expected_headers());
}

#[test]
fn instant_with_other_source_is_refused() {
    for source in other_sources() {
        let opts = QueryInstantOptions { data_source: source, time: ts("1.5") };
        assert_eq!(instant_request("up", opts), Err(incompatible()));
    }
}

#[test]
fn series_with_other_source_is_refused() {
    for source in other_sources() {
        let opts = QuerySeriesOptions { data_source: source, time_range: range("1", "2") };
        assert_eq!(series_request("up", opts), Err(incompatible()));
    }
}

#[test]
fn instant_request_is_built() {
    let opts = QueryInstantOptions {
        data_source: DataSource::Proxy(proxy("p 1", "prom/main")),
        time: ts("1700000000.5"),
    };
    let req = instant_request("up{job=\"api\"}", opts).unwrap();
    let expected = RelayRequest {
        method: RequestMethod::Post,
        url: "/api/proxies/p%201/relay?dataSourceName=prom%2Fmain".to_owned(),
        headers: expected_headers(),
        body: br#"{"query":"up{job=\"api\"}","queryType":{"type":"instant","payload":1700000000.5}}"#
            .to_vec(),
    };
    assert_eq!(req, expected);
}

#[test]
fn series_request_is_built() {
    let opts = QuerySeriesOptions {
        data_source: DataSource::Proxy(proxy("proxy", "loki")),
        time_range: range("1.0", "2.5"),
    };
    let req = series_request("rate(x[5m])", opts).unwrap();
    assert_eq!(req.method, RequestMethod::Post);
    assert_eq!(req.url, "/api/proxies/proxy/relay?dataSourceName=loki");
    assert_eq!(req.headers, expected_headers());
    assert_eq!(
        String::from_utf8(req.body).unwrap(),
        r#"{"query":"rate(x[5m])","queryType":{"type":"series","payload":{"from":1.0,"to":2.5}}}"#
    );
}

#[test]
fn query_text_is_escaped() {
    let req = relay_request(
        "a\\b\n\t\u{1}\u{7f}é",
        &DataSource::Proxy(proxy("p", "d")),
        QueryMode::Instant(ts("0")),
    )
    .unwrap();
    assert_eq!(
        String::from_utf8(req.body).unwrap(),
        "{\"query\":\"a\\\\b\\n\\t\\u0001\u{7f}é\",\"queryType\":{\"type\":\"instant\",\"payload\":0}}"
    );
}

#[test]
fn headers_do_not_depend_on_mode() {
    let source = DataSource::Proxy(proxy("p", "d"));
    let a = relay_request("q", &source, QueryMode::Instant(ts("3"))).unwrap();
    let b = relay_request("q", &source, QueryMode::Series(range("1", "2"))).unwrap();
    assert_eq!(a.headers, expected_headers());
    assert_eq!(b.headers, expected_headers());
}

#[test]
fn instant_mode_document() {
    let text = encode_query_mode(&QueryMode::Instant(ts("42.25")));
    assert_eq!(text, r#"{"type":"instant","payload":42.25}"#);
}

#[test]
fn series_mode_document() {
    let text = encode_query_mode(&QueryMode::Series(range("10", "20")));
    assert_eq!(text, r#"{"type":"series","payload":{"from":10,"to":20}}"#);
}

#[test]
fn payload_document_frames_query() {
    let text = encode_payload("\"q\"", &QueryMode::Instant(ts("1")));
    assert_eq!(text, r#"{"query":"q","queryType":{"type":"instant","payload":1}}"#);
}

#[test]
fn serialization_failure_is_other_error() {
    let r = build_request(
        Err("key must be a string".to_owned()),
        &DataSource::Proxy(proxy("p", "d")),
        QueryMode::Instant(ts("1")),
    );
    assert_eq!(
        r,
        Err(FetchError::Other { message: "Could not serialize query: key must be a string".to_owned() })
    );
}

#[test]
fn source_is_checked_before_serialization() {
    let r = build_request(
        Err("boom".to_owned()),
        &DataSource::Loki { url: "u".to_owned() },
        QueryMode::Instant(ts("1")),
    );
    assert_eq!(r, Err(incompatible()));
}

#[test]
fn remote_items_are_returned_unchanged() {
    let items = vec!["item1".to_owned(), "item2".to_owned()];
    let r = interpret_reply(ReplyOutcome::Decoded(Ok(items.clone())));
    assert_eq!(r, Ok(items));
}

#[test]
fn remote_empty_items() {
    let r = interpret_reply::<u32>(ReplyOutcome::Decoded(Ok(vec![])));
    assert_eq!(r, Ok(vec![]));
}

#[test]
fn remote_error_is_passed_through() {
    let remote = FetchError::RequestError { payload: RequestError::ServerError {
        status_code: 502,
        response: b"bad gateway".to_vec(),
    } };
    let r = interpret_reply::<u32>(ReplyOutcome::Decoded(Err(remote.clone())));
    assert_eq!(r, Err(remote));
    let other = FetchError::Other { message: "remote said no".to_owned() };
    let r = interpret_reply::<u32>(ReplyOutcome::Decoded(Err(other.clone())));
    assert_eq!(r, Err(other));
}

#[test]
fn undecodable_reply_is_data_error() {
    let r = interpret_reply::<u32>(ReplyOutcome::Undecodable("invalid type: integer".to_owned()));
    assert_eq!(
        r,
        Err(FetchError::DataError {
            message: "Error parsing Proxy response: invalid type: integer".to_owned()
        })
    );
}

#[test]
fn transport_failure_is_request_error() {
    for failure in vec![
        RequestError::Offline,
        RequestError::NoData,
        RequestError::Other { reason: "connection refused".to_owned() },
    ] {
        let r = interpret_reply::<u32>(ReplyOutcome::TransportFailed(failure.clone()));
        assert_eq!(r, Err(FetchError::RequestError { payload: failure }));
    }
}

#[test]
fn json_numbers_are_accepted() {
    for text in ["0", "-0", "7", "1700000000.5", "-12.250", "1e20", "1E+5", "2.5e-7", "10"] {
        assert!(check_json_number(text.as_bytes()), "{}", text);
    }
}

#[test]
fn non_numbers_are_refused() {
    for text in ["", "-", "01", "1.", ".5", "1e", "1e+", "+1", "1}", "1 ", "NaN", "1.5.2", "١"] {
        assert!(!check_json_number(text.as_bytes()), "{}", text);
    }
}

#[test]
fn timestamp_from_text() {
    assert_eq!(Timestamp::from_text("1.5".to_owned()), Some(ts("1.5")));
    assert_eq!(Timestamp::from_text("null".to_owned()), Some(ts("null")));
    assert_eq!(Timestamp::from_text("1}".to_owned()), None);
    assert_eq!(Timestamp::from_text("Null".to_owned()), None);
}
