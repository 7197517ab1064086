//! The upstream transit API: its request URL and the records it returns.

use vstd::prelude::*;
use vstd::string::*;
use crate::config::ApiConfig;
use crate::text::optional_slice_text;

verus! {

/// The bytes that percent-encoding leaves as they are: ASCII letters and
/// digits, `-`, `.`, `_` and `~`.
pub open spec fn is_unreserved(b: u8) -> bool {
    ||| 0x30 <= b <= 0x39
    ||| 0x41 <= b <= 0x5a
    ||| 0x61 <= b <= 0x7a
    ||| b == 0x2d
    ||| b == 0x2e
    ||| b == 0x5f
    ||| b == 0x7e
}

/// The upper-case hexadecimal digit for a value below 16.
pub open spec fn hex_digit(d: u8) -> char {
    if d < 10 {
        (0x30 + d) as u8 as char
    } else {
        (0x37 + d) as u8 as char
    }
}

/// One byte as it stands in a percent-encoded string.
pub open spec fn escaped_byte(b: u8) -> Seq<char> {
    if is_unreserved(b) {
        seq![b as char]
    } else {
        seq!['%', hex_digit(b / 16), hex_digit(b % 16)]
    }
}

/// The percent-encoding of a byte string, byte by byte.
pub open spec fn percent_encoded(bytes: Seq<u8>) -> Seq<char>
    decreases bytes.len(),
{
    if bytes.len() == 0 {
        Seq::empty()
    } else {
        percent_encoded(bytes.drop_last()) + escaped_byte(bytes.last())
    }
}

/// The percent-encoding of a string's UTF-8 bytes.
pub open spec fn url_encoded(s: Seq<char>) -> Seq<char> {
    percent_encoded(vstd::utf8::encode_utf8(s))
}

/// Calls `urlencoding::encode`. Trusted: the result is the percent-encoding
/// of the UTF-8 bytes of `s`, in which every byte but an ASCII letter, a
/// digit, `-`, `.`, `_` or `~` becomes `%` and two upper-case hex digits.
#[verifier::external_body]
fn encode(s: &str) -> (r: String)
    ensures
        r@ == url_encoded(s@),
{
    urlencoding::encode(s).into_owned()
}

/// A credential counts only when it is present and not empty.
pub open spec fn is_given(value: Option<Seq<char>>) -> bool {
    value matches Some(v) && v.len() > 0
}

/// The query string for the credentials that are given, each
/// percent-encoded: nothing at all when there is none.
pub open spec fn credentials_query(app_id: Option<Seq<char>>, app_key: Option<Seq<char>>) -> Seq<char> {
    if is_given(app_id) && is_given(app_key) {
        "?app_id="@ + url_encoded(app_id.unwrap()) + "&app_key="@ + url_encoded(app_key.unwrap())
    } else if is_given(app_id) {
        "?app_id="@ + url_encoded(app_id.unwrap())
    } else if is_given(app_key) {
        "?app_key="@ + url_encoded(app_key.unwrap())
    } else {
        Seq::empty()
    }
}

/// The arrivals URL of a stop.
pub open spec fn arrivals_url(stop_id: Seq<char>, app_id: Option<Seq<char>>, app_key: Option<Seq<char>>) -> Seq<char> {
    "https://api.tfl.gov.uk/StopPoint/"@ + url_encoded(stop_id) + "/Arrivals"@ + credentials_query(app_id, app_key)
}

/// Builds the URL of the arrivals request for `stop_id`. The stop identifier
/// and the credentials are percent-encoded; a credential that is absent or
/// empty adds no parameter, and without any the URL has no query string.
pub fn build_tfl_url(stop_id: &str, app_id: Option<&str>, app_key: Option<&str>) -> (url: String)
    ensures
        url@ == arrivals_url(stop_id@, optional_slice_text(app_id), optional_slice_text(app_key)),
{
    let mut url = String::from_str("https://api.tfl.gov.uk/StopPoint/");
    let stop = encode(stop_id);
    url.append(stop.as_str());
    url.append("/Arrivals");
    let ghost path = url@;
    let mut separator = "?";
    if let Some(id) = app_id {
        if !id.is_empty() {
            let value = encode(id);
            url.append(separator);
            url.append("app_id=");
            url.append(value.as_str());
            separator = "&";
        }
    }
    if let Some(key) = app_key {
        if !key.is_empty() {
            let value = encode(key);
            url.append(separator);
            url.append("app_key=");
            url.append(value.as_str());
        }
    }
    proof {
        reveal_strlit("?");
        reveal_strlit("&");
        reveal_strlit("app_id=");
        reveal_strlit("app_key=");
        reveal_strlit("?app_id=");
        reveal_strlit("?app_key=");
        reveal_strlit("&app_key=");
        assert(url@ =~= path + credentials_query(optional_slice_text(app_id), optional_slice_text(app_key)));
    }
    url
}

/// The provider's bookkeeping for one prediction. Nothing here reads it: it
/// is handed on as it came.
#[derive(Debug, PartialEq, Eq)]
pub struct Timing {
    pub countdown_server_adjustment: String,
    pub source: String,
    pub insert: String,
    pub read: String,
    pub sent: String,
    pub received: String,
}

impl Clone for Timing {
    fn clone(&self) -> (copy: Self)
        ensures
            copy == *self,
    {
        Timing {
            countdown_server_adjustment: self.countdown_server_adjustment.clone(),
            source: self.source.clone(),
            insert: self.insert.clone(),
            read: self.read.clone(),
            sent: self.sent.clone(),
            received: self.received.clone(),
        }
    }
}

/// One predicted arrival of a vehicle at the stop, as the provider reports it.
#[derive(Debug, PartialEq, Eq)]
pub struct Arrival {
    pub id: String,
    pub operation_type: i32,
    pub vehicle_id: String,
    /// The stop that the vehicle is predicted to reach.
    pub naptan_id: String,
    /// That stop's name.
    pub station_name: String,
    pub line_id: String,
    /// The route name, by which arrivals are filtered.
    pub line_name: String,
    pub platform_name: String,
    pub direction: String,
    pub bearing: String,
    pub trip_id: String,
    pub base_version: String,
    pub destination_naptan_id: String,
    /// Where the vehicle is going.
    pub destination_name: String,
    /// When the prediction was observed, in ISO 8601.
    pub timestamp: String,
    /// Seconds until the vehicle reaches the stop; zero or less for one that is
    /// due or gone.
    pub time_to_station: i64,
    pub current_location: String,
    pub towards: String,
    pub expected_arrival: String,
    pub time_to_live: String,
    pub mode_name: String,
    /// The provider's countdown bookkeeping.
    pub timing: Timing,
}

impl Clone for Arrival {
    fn clone(&self) -> (copy: Self)
        ensures
            copy == *self,
    {
        Arrival {
            id: self.id.clone(),
            operation_type: self.operation_type,
            vehicle_id: self.vehicle_id.clone(),
            naptan_id: self.naptan_id.clone(),
            station_name: self.station_name.clone(),
            line_id: self.line_id.clone(),
            line_name: self.line_name.clone(),
            platform_name: self.platform_name.clone(),
            direction: self.direction.clone(),
            bearing: self.bearing.clone(),
            trip_id: self.trip_id.clone(),
            base_version: self.base_version.clone(),
            destination_naptan_id: self.destination_naptan_id.clone(),
            destination_name: self.destination_name.clone(),
            timestamp: self.timestamp.clone(),
            time_to_station: self.time_to_station,
            current_location: self.current_location.clone(),
            towards: self.towards.clone(),
            expected_arrival: self.expected_arrival.clone(),
            time_to_live: self.time_to_live.clone(),
            mode_name: self.mode_name.clone(),
            timing: self.timing.clone(),
        }
    }
}

/// A copy of a list of arrivals.
pub fn clone_arrivals(arrivals: &Vec<Arrival>) -> (copy: Vec<Arrival>)
    ensures
        copy@ == arrivals@,
{
    let copy = arrivals.clone();
    assert(copy@ =~= arrivals@);
    copy
}

/// How an HTTP status reads in text: its number, a space, and its standard
/// reason phrase. Meant for codes from 100 to 999.
pub uninterp spec fn status_line(code: u16) -> Seq<char>;

/// Calls `http::StatusCode::from_u16` and formats the status with its
/// `Display`. Trusted: a status exists exactly for the codes from 100 to 999,
/// and its text depends on the code alone; `status_line` names it.
#[verifier::external_body]
fn display_status(code: u16) -> (text: Option<String>)
    ensures
        text is Some <==> 100 <= code <= 999,
        text matches Some(t) ==> t@ == status_line(code),
{
    match http::StatusCode::from_u16(code) {
        Ok(status) => Some(status.to_string()),
        Err(_) => None,
    }
}

/// The status code of an HTTP response: a number from 100 to 999.
#[derive(Debug, Clone, Copy, PartialEq, Eq)]
pub struct StatusCode {
    code: u16,
}

impl StatusCode {
    #[verifier::type_invariant]
    spec fn in_range(self) -> bool {
        100 <= self.code <= 999
    }

    /// The number of the status.
    pub closed spec fn value(self) -> u16 {
        self.code
    }

    /// Whether the status is one of success: 200 to 299.
    pub open spec fn success(self) -> bool {
        200 <= self.value() < 300
    }

    /// The status with this number, if the number is one: from 100 to 999.
    pub fn from_u16(code: u16) -> (status: Option<StatusCode>)
        ensures
            status is Some <==> 100 <= code <= 999,
            status matches Some(s) ==> s.value() == code,
    {
        if 100 <= code && code <= 999 {
            Some(StatusCode { code })
        } else {
            None
        }
    }

    /// The number of the status.
    pub fn as_u16(&self) -> (code: u16)
        ensures
            code == self.value(),
            100 <= code <= 999,
    {
        proof {
            use_type_invariant(self);
        }
        self.code
    }

    /// Whether the status is one of success: 200 to 299.
    pub fn is_success(&self) -> (yes: bool)
        ensures
            yes == self.success(),
    {
        200 <= self.code && self.code < 300
    }

    /// The status as text, such as `503 Service Unavailable`.
    pub fn to_text(&self) -> (text: String)
        ensures
            text@ == status_line(self.value()),
    {
        proof {
            use_type_invariant(self);
        }
        match display_status(self.code) {
            Some(text) => text,
            None => String::new(),
        }
    }
}

/// Why a fetch from the provider gave no arrivals.
#[derive(Debug, PartialEq, Eq)]
pub enum TflError {
    /// The provider was not reached, or not for long enough: the connection
    /// failed, or the time ran out before the response had come whole.
    /// Holds the cause.
    Unreachable(String),
    /// The provider answered with a status that is not one of success.
    /// Holds the status and the text of the body.
    UpstreamError(StatusCode, String),
    /// The body of a successful response is no list of arrivals. Holds the
    /// decoder's message.
    ParseError(String),
}

/// What a `TflError` holds, as plain values.
pub ghost enum TflErrorView {
    Unreachable(Seq<char>),
    UpstreamError(u16, Seq<char>),
    ParseError(Seq<char>),
}

impl View for TflError {
    type V = TflErrorView;

    open spec fn view(&self) -> TflErrorView {
        match *self {
            TflError::Unreachable(cause) => TflErrorView::Unreachable(cause@),
            TflError::UpstreamError(status, body) => TflErrorView::UpstreamError(status.value(), body@),
            TflError::ParseError(cause) => TflErrorView::ParseError(cause@),
        }
    }
}

/// For how long a request to the provider may run, in seconds.
pub const UPSTREAM_TIMEOUT_SECS: u64 = 5;

/// What has happened to a request to the provider, as its driver saw it.
#[derive(Debug, PartialEq, Eq)]
pub enum UpstreamEvent {
    /// Nothing yet: the arrivals are wanted.
    Start,
    /// The request failed on the way: no connection was made, or the time
    /// ran out before the response had come whole. Holds the cause.
    TransportFailed(String),
    /// A response came, with this status.
    Responded(StatusCode),
    /// The body of a response with this status was read as text; absent if
    /// it could not be read.
    ErrorBody(StatusCode, Option<String>),
    /// The body of the response was decoded into these arrivals.
    Decoded(Vec<Arrival>),
    /// The body of the response is no list of arrivals. Holds the decoder's
    /// message.
    DecodeFailed(String),
}

/// What the driver of a request to the provider is to do next.
#[derive(Debug, PartialEq, Eq)]
pub enum UpstreamAction {
    /// Send a GET request to `url` and wait no longer than `timeout_secs`.
    Send { url: String, timeout_secs: u64 },
    /// Read the body of the response, which has this status, as text.
    ReadErrorBody(StatusCode),
    /// Decode the body of the response as a list of arrivals.
    Decode,
    /// Stop: this is the outcome.
    Finish(Result<Vec<Arrival>, TflError>),
}

/// The text of a body that was read, and none of one that could not be.
pub open spec fn body_text(body: Option<String>) -> Seq<char> {
    match body {
        Some(text) => text@,
        None => Seq::empty(),
    }
}

/// One step of fetching the arrivals of the configured stop: what to do
/// after `event`.
///
/// The request goes to the stop's URL and may run for five seconds. A
/// request that fails on the way is an unreachable provider. A response with a status of
/// success has its body decoded, and the arrivals are handed on as they
/// came; a body that does not decode is a parse error. A response with any
/// other status has its body read as text and is an upstream error with
/// that status and text, the text empty where it could not be read.
pub fn fetch_arrivals(config: &ApiConfig, event: UpstreamEvent) -> (action: UpstreamAction)
    ensures
        match event {
            UpstreamEvent::Start => {
                &&& action matches UpstreamAction::Send { url, timeout_secs }
                &&& url@ == config.url()
                &&& timeout_secs == UPSTREAM_TIMEOUT_SECS
            },
            UpstreamEvent::TransportFailed(cause) => action == UpstreamAction::Finish(
                Err(TflError::Unreachable(cause)),
            ),
            UpstreamEvent::Responded(status) => if status.success() {
                action == UpstreamAction::Decode
            } else {
                action == UpstreamAction::ReadErrorBody(status)
            },
            UpstreamEvent::ErrorBody(status, body) => {
                &&& action matches UpstreamAction::Finish(Err(err))
                &&& err@ == TflErrorView::UpstreamError(status.value(), body_text(body))
            },
            UpstreamEvent::Decoded(arrivals) => action == UpstreamAction::Finish(Ok(arrivals)),
            UpstreamEvent::DecodeFailed(cause) => action == UpstreamAction::Finish(
                Err(TflError::ParseError(cause)),
            ),
        },
{
    match event {
        UpstreamEvent::Start => UpstreamAction::Send {
            url: config.build_tfl_url(),
            timeout_secs: UPSTREAM_TIMEOUT_SECS,
        },
        UpstreamEvent::TransportFailed(cause) => UpstreamAction::Finish(Err(TflError::Unreachable(cause))),
        UpstreamEvent::Responded(status) => {
            if status.is_success() {
                UpstreamAction::Decode
            } else {
                UpstreamAction::ReadErrorBody(status)
            }
        },
        UpstreamEvent::ErrorBody(status, body) => {
            let text = match body {
                Some(text) => text,
                None => String::new(),
            };
            UpstreamAction::Finish(Err(TflError::UpstreamError(status, text)))
        },
        UpstreamEvent::Decoded(arrivals) => UpstreamAction::Finish(Ok(arrivals)),
        UpstreamEvent::DecodeFailed(cause) => UpstreamAction::Finish(Err(TflError::ParseError(cause))),
    }
}

} // verus!
