use vstd::prelude::*;
use vstd::slice::slice_to_vec;
use vstd::utf8::encode_utf8;

use crate::model::{
    is_data_error, is_other_error, DataSource, FetchError, ProxyDataSource, QueryInstantOptions,
    QueryMode, QuerySeriesOptions, RelayRequest, ReplyOutcome, RequestMethod,
};
use crate::payload::{encode_payload, json_quote, json_quoted, payload_document};
use crate::url::{create_url, relay_url};

verus! {

/// The message of the error for a data source of another kind.
pub open spec fn incompatible_message() -> Seq<char> {
    "Incompatible data source"@
}

/// The prefix of the error message when the query cannot be serialized.
pub open spec fn serialize_prefix() -> Seq<char> {
    "Could not serialize query: "@
}

/// The prefix of the error message when the reply cannot be read.
pub open spec fn parse_prefix() -> Seq<char> {
    "Error parsing Proxy response: "@
}

/// The headers of every relay request: a binary reply is asked for, a JSON
/// body is sent.
pub open spec fn relay_headers(headers: Seq<(String, String)>) -> bool {
    headers.len() == 2
        && headers[0].0@ == "Accept"@
        && headers[0].1@ == "application/x-msgpack"@
        && headers[1].0@ == "Content-Type"@
        && headers[1].1@ == "application/json"@
}

/// `r` is the relay request of a query, written as the JSON string literal
/// `quoted_query`, in the given mode, to the proxied data source.
pub open spec fn is_relay_request(
    r: RelayRequest,
    source: ProxyDataSource,
    quoted_query: Seq<char>,
    mode: QueryMode,
) -> bool {
    &&& r.method == RequestMethod::Post
    &&& r.url@ == relay_url(source.proxy_id@, source.data_source_name@)
    &&& relay_headers(r.headers@)
    &&& r.body@ == encode_utf8(payload_document(quoted_query, mode))
}

/// The fixed headers of a relay request.
pub fn create_headers() -> (r: Vec<(String, String)>)
    ensures
        relay_headers(r@),
{
    let mut headers: Vec<(String, String)> = Vec::new();
    headers.push(("Accept".to_owned(), "application/x-msgpack".to_owned()));
    headers.push(("Content-Type".to_owned(), "application/json".to_owned()));
    headers
}

/// The error for a data source that is not proxied.
fn incompatible_source() -> (e: FetchError)
    ensures
        is_other_error(e, incompatible_message()),
{
    FetchError::Other { message: "Incompatible data source".to_owned() }
}

/// Builds the relay request from the outcome of writing the query as a JSON
/// string literal: the data source is checked first, then that outcome.
pub fn build_request(
    quoted_query: Result<String, String>,
    data_source: &DataSource,
    mode: QueryMode,
) -> (r: Result<RelayRequest, FetchError>)
    requires
        mode.valid(),
    ensures
        match data_source {
            DataSource::Proxy(source) => match quoted_query {
                Ok(q) => r matches Ok(req) && is_relay_request(req, *source, q@, mode),
                Err(cause) => r matches Err(e) && is_other_error(e, serialize_prefix() + cause@),
            },
            _ => r matches Err(e) && is_other_error(e, incompatible_message()),
        },
{
    let source = match data_source {
        DataSource::Proxy(source) => source,
        _ => {
            return Err(incompatible_source());
        },
    };
    match quoted_query {
        Ok(q) => {
            let text = encode_payload(q.as_str(), &mode);
            let body = slice_to_vec(text.as_str().as_bytes());
            Ok(RelayRequest {
                method: RequestMethod::Post,
                url: create_url(source),
                headers: create_headers(),
                body,
            })
        },
        Err(cause) => {
            let mut message = "Could not serialize query: ".to_owned();
            message.append(cause.as_str());
            Err(FetchError::Other { message })
        },
    }
}

/// The relay request of a query in the given mode. A data source of another
/// kind than the proxied one is refused before anything else is done; for a
/// proxied one the request is always built.
pub fn relay_request(query: &str, data_source: &DataSource, mode: QueryMode) -> (r: Result<
    RelayRequest,
    FetchError,
>)
    requires
        mode.valid(),
    ensures
        match data_source {
            DataSource::Proxy(source) => r matches Ok(req) && is_relay_request(
                req,
                *source,
                json_quoted(query@),
                mode,
            ),
            _ => r matches Err(e) && is_other_error(e, incompatible_message()),
        },
{
    if !(data_source matches DataSource::Proxy(_)) {
        return Err(incompatible_source());
    }
    build_request(json_quote(query), data_source, mode)
}

/// The relay request of an instant query.
pub fn instant_request(query: &str, opts: QueryInstantOptions) -> (r: Result<
    RelayRequest,
    FetchError,
>)
    requires
        opts.time.valid(),
    ensures
        match opts.data_source {
            DataSource::Proxy(source) => r matches Ok(req) && is_relay_request(
                req,
                source,
                json_quoted(query@),
                QueryMode::Instant(opts.time),
            ),
            _ => r matches Err(e) && is_other_error(e, incompatible_message()),
        },
{
    relay_request(query, &opts.data_source, QueryMode::Instant(opts.time))
}

/// The relay request of a series query.
pub fn series_request(query: &str, opts: QuerySeriesOptions) -> (r: Result<
    RelayRequest,
    FetchError,
>)
    requires
        opts.time_range.valid(),
    ensures
        match opts.data_source {
            DataSource::Proxy(source) => r matches Ok(req) && is_relay_request(
                req,
                source,
                json_quoted(query@),
                QueryMode::Series(opts.time_range),
            ),
            _ => r matches Err(e) && is_other_error(e, incompatible_message()),
        },
{
    relay_request(query, &opts.data_source, QueryMode::Series(opts.time_range))
}

/// The result of a query from what came of sending its request: the items of
/// a remote success, a remote error unchanged, a `DataError` naming the cause
/// when the reply could not be read, and a `RequestError` carrying the
/// transport's failure.
pub fn interpret_reply<T>(outcome: ReplyOutcome<T>) -> (r: Result<Vec<T>, FetchError>)
    ensures
        match outcome {
            ReplyOutcome::Decoded(envelope) => r == envelope,
            ReplyOutcome::Undecodable(cause) => r matches Err(e) && is_data_error(
                e,
                parse_prefix() + cause@,
            ),
            ReplyOutcome::TransportFailed(failure) => r == Err::<Vec<T>, FetchError>(
                FetchError::RequestError { payload: failure },
            ),
        },
{
    match outcome {
        ReplyOutcome::Decoded(Ok(items)) => Ok(items),
        ReplyOutcome::Decoded(Err(remote)) => Err(remote),
        ReplyOutcome::Undecodable(cause) => {
            let mut message = "Error parsing Proxy response: ".to_owned();
            message.append(cause.as_str());
            Err(FetchError::DataError { message })
        },
        ReplyOutcome::TransportFailed(failure) => Err(FetchError::RequestError { payload: failure }),
    }
}

} // verus!
