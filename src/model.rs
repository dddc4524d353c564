use vstd::prelude::*;
use vstd::utf8::encode_utf8;

verus! {

/// A data source reached through a proxy. Both identifiers are opaque: they
/// are only ever percent-encoded into the relay URL.
#[derive(Debug, Clone, PartialEq, Eq)]
pub struct ProxyDataSource {
    pub proxy_id: String,
    pub data_source_name: String,
}

/// The kinds of data source a query can name. Only the proxied kind is
/// served by this client; the others are reached by other providers.
#[derive(Debug, Clone, PartialEq, Eq)]
pub enum DataSource {
    Prometheus { url: String },
    Elasticsearch { url: String },
    Loki { url: String },
    Proxy(ProxyDataSource),
}

/// A point in time (seconds since the Unix epoch), held as the JSON text that
/// stands for it on the wire: a JSON number such as `1700000000.5`, or `null`
/// for a time that no number gives.
#[derive(Debug, Clone, PartialEq, Eq)]
pub struct Timestamp {
    pub number: String,
}

/// An ASCII decimal digit.
pub open spec fn is_digit(c: u8) -> bool {
    48 <= c <= 57
}

/// The end of the run of digits in `b` that starts at `i`.
pub open spec fn digits_end(b: Seq<u8>, i: int) -> int
    decreases b.len() - i,
{
    if 0 <= i < b.len() && is_digit(b[i]) {
        digits_end(b, i + 1)
    } else {
        i
    }
}

/// The end of the integer part of a JSON number that starts at `i`: `0`, or
/// a digit other than `0` and the digits after it; `-1` where there is none.
pub open spec fn int_part_end(b: Seq<u8>, i: int) -> int {
    if 0 <= i < b.len() && b[i] == 48 {
        i + 1
    } else if 0 <= i < b.len() && 49 <= b[i] <= 57 {
        digits_end(b, i + 1)
    } else {
        -1
    }
}

/// The end of the optional fraction (`.` and one digit or more) at `i`; `-1`
/// where a `.` has no digit after it.
pub open spec fn fraction_end(b: Seq<u8>, i: int) -> int {
    if 0 <= i < b.len() && b[i] == 46 {
        let e = digits_end(b, i + 1);
        if e > i + 1 {
            e
        } else {
            -1
        }
    } else {
        i
    }
}

/// The end of the optional exponent (`e` or `E`, an optional sign, one digit
/// or more) at `i`; `-1` where the exponent has no digit.
pub open spec fn exponent_end(b: Seq<u8>, i: int) -> int {
    if 0 <= i < b.len() && (b[i] == 101 || b[i] == 69) {
        let j = if i + 1 < b.len() && (b[i + 1] == 43 || b[i + 1] == 45) {
            i + 2
        } else {
            i + 1
        };
        let e = digits_end(b, j);
        if e > j {
            e
        } else {
            -1
        }
    } else {
        i
    }
}

/// `b` is a JSON number: an optional `-`, an integer part, an optional
/// fraction and an optional exponent, and nothing else.
pub open spec fn is_json_number(b: Seq<u8>) -> bool {
    let i0: int = if 0 < b.len() && b[0] == 45 {
        1
    } else {
        0
    };
    let i1 = int_part_end(b, i0);
    let i2 = fraction_end(b, i1);
    i1 >= 0 && i2 >= 0 && exponent_end(b, i2) == b.len()
}

/// The text of a timestamp is a JSON number or `null`.
pub open spec fn is_timestamp_text(s: Seq<char>) -> bool {
    is_json_number(encode_utf8(s)) || s == "null"@
}

/// The end of the run of digits in `b` that starts at `i`.
fn scan_digits(b: &[u8], i: usize) -> (r: usize)
    requires
        i <= b@.len(),
    ensures
        r == digits_end(b@, i as int),
        i <= r <= b@.len(),
{
    let mut j = i;
    while j < b.len() && 48 <= b[j] && b[j] <= 57
        invariant
            i <= j <= b@.len(),
            digits_end(b@, i as int) == digits_end(b@, j as int),
        decreases b@.len() - j,
    {
        j = j + 1;
    }
    j
}

/// Whether `b` is a JSON number.
pub fn check_json_number(b: &[u8]) -> (r: bool)
    ensures
        r == is_json_number(b@),
{
    let n = b.len();
    let i0: usize = if n > 0 && b[0] == 45 {
        1
    } else {
        0
    };
    let i1: usize;
    if i0 < n && b[i0] == 48 {
        i1 = i0 + 1;
    } else if i0 < n && 49 <= b[i0] && b[i0] <= 57 {
        i1 = scan_digits(b, i0 + 1);
    } else {
        return false;
    }
    let i2: usize;
    if i1 < n && b[i1] == 46 {
        let e = scan_digits(b, i1 + 1);
        if e > i1 + 1 {
            i2 = e;
        } else {
            return false;
        }
    } else {
        i2 = i1;
    }
    let i3: usize;
    if i2 < n && (b[i2] == 101 || b[i2] == 69) {
        let j: usize = if i2 + 1 < n && (b[i2 + 1] == 43 || b[i2 + 1] == 45) {
            i2 + 2
        } else {
            i2 + 1
        };
        let e = scan_digits(b, j);
        if e > j {
            i3 = e;
        } else {
            return false;
        }
    } else {
        i3 = i2;
    }
    i3 == n
}

impl Timestamp {
    /// The text is a JSON number or `null`.
    pub open spec fn valid(&self) -> bool {
        is_timestamp_text(self.number@)
    }

    /// A timestamp of the given text, where it is a JSON number or `null`.
    pub fn from_text(number: String) -> (r: Option<Timestamp>)
        ensures
            r is Some <==> is_timestamp_text(number@),
            r matches Some(t) ==> t.number@ == number@,
    {
        let null = "null".to_owned();
        if check_json_number(number.as_str().as_bytes()) || number == null {
            Some(Timestamp { number })
        } else {
            None
        }
    }
}

/// A closed time range.
#[derive(Debug, Clone, PartialEq, Eq)]
pub struct TimeRange {
    pub from: Timestamp,
    pub to: Timestamp,
}

impl TimeRange {
    /// Both ends are valid timestamps.
    pub open spec fn valid(&self) -> bool {
        self.from.valid() && self.to.valid()
    }
}

/// How a query is evaluated: at one point in time, or over a range.
#[derive(Debug, Clone, PartialEq, Eq)]
pub enum QueryMode {
    Instant(Timestamp),
    Series(TimeRange),
}

impl QueryMode {
    /// The timestamps the mode carries are valid.
    pub open spec fn valid(&self) -> bool {
        match self {
            QueryMode::Instant(t) => t.valid(),
            QueryMode::Series(range) => range.valid(),
        }
    }
}

/// Options of an instant query.
#[derive(Debug, Clone, PartialEq, Eq)]
pub struct QueryInstantOptions {
    pub data_source: DataSource,
    pub time: Timestamp,
}

/// Options of a series query.
#[derive(Debug, Clone, PartialEq, Eq)]
pub struct QuerySeriesOptions {
    pub data_source: DataSource,
    pub time_range: TimeRange,
}

/// A failure of the host transport itself.
#[derive(Debug, Clone, PartialEq, Eq)]
pub enum RequestError {
    Offline,
    NoData,
    ServerError { status_code: u16, response: Vec<u8> },
    Other { reason: String },
}

/// Every way a query can fail.
#[derive(Debug, Clone, PartialEq, Eq)]
pub enum FetchError {
    /// The transport could not deliver the request or its reply.
    RequestError { payload: RequestError },
    /// The reply could not be read.
    DataError { message: String },
    /// Anything else, such as a data source of the wrong kind.
    Other { message: String },
}

/// `e` is `Other` with the given message.
pub open spec fn is_other_error(e: FetchError, message: Seq<char>) -> bool {
    match e {
        FetchError::Other { message: m } => m@ == message,
        _ => false,
    }
}

/// `e` is `DataError` with the given message.
pub open spec fn is_data_error(e: FetchError, message: Seq<char>) -> bool {
    match e {
        FetchError::DataError { message: m } => m@ == message,
        _ => false,
    }
}

/// The only method the relay uses.
#[derive(Debug, Clone, Copy, PartialEq, Eq, Structural)]
pub enum RequestMethod {
    Post,
}

/// A request for the host transport to send.
#[derive(Debug, Clone, PartialEq, Eq)]
pub struct RelayRequest {
    pub method: RequestMethod,
    pub url: String,
    pub headers: Vec<(String, String)>,
    pub body: Vec<u8>,
}

/// What came of sending a request and reading its reply as a
/// `Result<Vec<T>, FetchError>` envelope.
#[derive(Debug)]
pub enum ReplyOutcome<T> {
    /// The transport failed.
    TransportFailed(RequestError),
    /// The reply arrived but could not be read as an envelope; the cause.
    Undecodable(String),
    /// The envelope that was read.
    Decoded(Result<Vec<T>, FetchError>),
}

} // verus!
