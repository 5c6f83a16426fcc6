//! The ChatGPT `wham/usage` endpoint: the request, and how its answer is read.
//!
//! The endpoint is private and its schema may drift, so reading is lenient: a
//! window that cannot be read is skipped on its own, and only an answer with no
//! recognizable window at all is an error.

use vstd::arithmetic::power2::{lemma2_to64, pow2};
use vstd::prelude::*;

use crate::binary64::{
    divide_by_hundred, hundredth, lemma_one_and_hundred, lemma_units_increase, units, HUNDRED,
    INFINITY, SIGN, STEP,
};
use crate::json::{json_of_text, Json, JsonNumber, JsonView};
use crate::rfc3339::{epoch_seconds, parse_rfc3339_to_epoch_secs};
use crate::snapshot::{bucket_of, codex_window_bucket, CodexWindow, UsageSnapshot, UsageWindow};

verus! {

/// Why a JSON document is no usage report.
#[derive(Clone, Copy, Debug, PartialEq, Eq, Structural)]
pub enum ShapeError {
    /// The part that should hold the windows is not an object.
    NotAnObject,
    /// No window is there under any known name.
    NoWindow,
}

/// A percentage from 0 to 100, in units of two to the power -1074. Nothing for
/// a number outside that range or not finite.
pub open spec fn percent_units(number: JsonNumber) -> Option<int> {
    match number {
        JsonNumber::PosInt(n) => if n <= 100 {
            Some(n * pow2(1074))
        } else {
            None
        },
        JsonNumber::NegInt(n) => if 0 <= n <= 100 {
            Some(n * pow2(1074))
        } else {
            None
        },
        JsonNumber::Float(bits) => if bits == SIGN {
            Some(0)
        } else if bits < INFINITY && units(bits as int) <= 100 * pow2(1074) {
            Some(units(bits as int))
        } else {
            None
        },
    }
}

/// The share that a percentage stands for: its hundredth, to the nearest
/// binary64 value. A hundredth of negative zero is negative zero.
pub open spec fn utilization_of(number: JsonNumber) -> Option<u64> {
    match percent_units(number) {
        Some(num) => Some(
            if number == JsonNumber::Float(SIGN) {
                SIGN
            } else {
                hundredth(num)
            },
        ),
        None => None,
    }
}

/// When a window resets: a Unix epoch integer or an RFC 3339 text.
pub open spec fn resets_at_of(value: Option<JsonView>) -> Option<u64> {
    match value {
        Some(json) => match json.as_u64() {
            Some(epoch) => Some(epoch),
            None => match json.as_str() {
                Some(text) => epoch_seconds(text),
                None => None,
            },
        },
        None => None,
    }
}

/// What a window object reports, if its percentage is usable.
pub open spec fn window_of(value: JsonView) -> Option<UsageWindow> {
    match value.get("used_percent"@) {
        Some(JsonView::Number(number)) => match utilization_of(number) {
            Some(utilization) => Some(
                UsageWindow { utilization, resets_at: resets_at_of(value.get("resets_at"@)) },
            ),
            None => None,
        },
        _ => None,
    }
}

/// Reads a percentage as a share.
pub fn parse_percent(number: JsonNumber) -> (utilization: Option<u64>)
    ensures
        utilization == utilization_of(number),
{
    match number {
        JsonNumber::PosInt(n) => if n <= 100 {
            Some(divide_by_hundred(n, 1074))
        } else {
            None
        },
        JsonNumber::NegInt(n) => if 0 <= n && n <= 100 {
            Some(divide_by_hundred(n as u64, 1074))
        } else {
            None
        },
        JsonNumber::Float(bits) => {
            proof {
                lemma_one_and_hundred();
                if bits < HUNDRED {
                    lemma_units_increase(bits as int, HUNDRED as int);
                } else if HUNDRED < bits {
                    lemma_units_increase(HUNDRED as int, bits as int);
                }
            }
            if bits == SIGN {
                Some(SIGN)
            } else if bits <= HUNDRED {
                let exponent: u64 = bits / STEP;
                let fraction: u64 = bits % STEP;
                assert(pow2(0) == 1) by {
                    lemma2_to64();
                }
                if exponent == 0 {
                    Some(divide_by_hundred(fraction, 0))
                } else {
                    Some(divide_by_hundred(STEP + fraction, (exponent - 1) as u32))
                }
            } else {
                None
            }
        },
    }
}

/// Reads when a window resets.
pub fn parse_resets_at(value: Option<&Json>) -> (seconds: Option<u64>)
    ensures
        seconds == resets_at_of(
            match value {
                Some(json) => Some(json@),
                None => None,
            },
        ),
{
    let json = match value {
        Some(json) => json,
        None => return None,
    };
    if let Some(epoch) = json.as_u64() {
        return Some(epoch);
    }
    match json.as_str() {
        Some(text) => parse_rfc3339_to_epoch_secs(text),
        None => None,
    }
}

/// Reads one window object. `None` on any problem with its percentage.
pub fn parse_window(value: &Json) -> (window: Option<UsageWindow>)
    ensures
        window == window_of(value@),
{
    match value.get("used_percent") {
        Some(Json::Number(number)) => match parse_percent(*number) {
            Some(utilization) => Some(
                UsageWindow { utilization, resets_at: parse_resets_at(value.get("resets_at")) },
            ),
            None => None,
        },
        _ => None,
    }
}

/// The object that should hold the windows.
pub open spec fn container_of(value: JsonView) -> JsonView {
    match (value.get("rate_limit"@), value.get("rate_limits"@)) {
        (Some(container), _) => container,
        (None, Some(container)) => container,
        (None, None) => value,
    }
}

/// The first of two members that is there.
pub open spec fn either_member(
    value: JsonView,
    name: Seq<char>,
    other: Seq<char>,
) -> Option<JsonView> {
    match value.get(name) {
        Some(member) => Some(member),
        None => value.get(other),
    }
}

/// The window in the five-hour lane.
pub open spec fn primary_of(container: JsonView) -> Option<JsonView> {
    either_member(container, "primary_window"@, "five_hour_limit"@)
}

/// The window in the weekly lane.
pub open spec fn secondary_of(container: JsonView) -> Option<JsonView> {
    either_member(container, "secondary_window"@, "weekly_limit"@)
}

/// The bucket of a window: by its length where it states a known one, else that
/// of its lane.
pub open spec fn lane_bucket(window: JsonView, lane: CodexWindow) -> CodexWindow {
    let stated = match window.get("window_minutes"@) {
        Some(minutes) => match minutes.as_i64() {
            Some(n) => bucket_of(n),
            None => None,
        },
        None => None,
    };
    match stated {
        Some(bucket) => bucket,
        None => lane,
    }
}

/// What the window of a lane reports for a bucket.
pub open spec fn reported(
    window: Option<JsonView>,
    lane: CodexWindow,
    bucket: CodexWindow,
) -> Option<UsageWindow> {
    match window {
        Some(json) => if lane_bucket(json, lane) == bucket {
            window_of(json)
        } else {
            None
        },
        None => None,
    }
}

/// What a container reports for a bucket. Where both lanes report for it, the
/// secondary one counts.
pub open spec fn bucket_window(container: JsonView, bucket: CodexWindow) -> Option<UsageWindow> {
    match reported(secondary_of(container), CodexWindow::Weekly, bucket) {
        Some(window) => Some(window),
        None => reported(primary_of(container), CodexWindow::FiveHour, bucket),
    }
}

/// What a usage document reports.
pub open spec fn usage_of(value: JsonView) -> Result<UsageSnapshot, ShapeError> {
    let container = container_of(value);
    if !(container is Object) {
        Err(ShapeError::NotAnObject)
    } else if primary_of(container) is None && secondary_of(container) is None {
        Err(ShapeError::NoWindow)
    } else {
        Ok(
            UsageSnapshot {
                five_hour: bucket_window(container, CodexWindow::FiveHour),
                seven_day: bucket_window(container, CodexWindow::Weekly),
                seven_day_oi: None,
            },
        )
    }
}

/// Reads a lane: the bucket that its window belongs to, and what it reports.
fn parse_lane(window: Option<&Json>, lane: CodexWindow) -> (read: Option<
    (CodexWindow, UsageWindow),
>)
    ensures
        match (window, read) {
            (None, _) => read is None,
            (Some(json), None) => window_of(json@) is None,
            (Some(json), Some((bucket, usage))) => bucket == lane_bucket(json@, lane) && window_of(
                json@,
            ) == Some(usage),
        },
{
    let json = match window {
        Some(json) => json,
        None => return None,
    };
    let usage = match parse_window(json) {
        Some(usage) => usage,
        None => return None,
    };
    let stated = match json.get("window_minutes") {
        Some(minutes) => match minutes.as_i64() {
            Some(n) => codex_window_bucket(n),
            None => None,
        },
        None => None,
    };
    let bucket = match stated {
        Some(bucket) => bucket,
        None => lane,
    };
    Some((bucket, usage))
}

/// Reads a usage document. A document with no recognizable window is an error;
/// a window that is there but cannot be read is skipped on its own.
pub fn parse_usage(value: &Json) -> (usage: Result<UsageSnapshot, ShapeError>)
    ensures
        usage == usage_of(value@),
{
    let container = match value.get("rate_limit") {
        Some(container) => container,
        None => match value.get("rate_limits") {
            Some(container) => container,
            None => value,
        },
    };
    if !container.is_object() {
        return Err(ShapeError::NotAnObject);
    }
    let primary = match container.get("primary_window") {
        Some(window) => Some(window),
        None => container.get("five_hour_limit"),
    };
    let secondary = match container.get("secondary_window") {
        Some(window) => Some(window),
        None => container.get("weekly_limit"),
    };
    if primary.is_none() && secondary.is_none() {
        return Err(ShapeError::NoWindow);
    }
    let mut five_hour: Option<UsageWindow> = None;
    let mut seven_day: Option<UsageWindow> = None;
    match parse_lane(primary, CodexWindow::FiveHour) {
        Some((CodexWindow::FiveHour, usage)) => five_hour = Some(usage),
        Some((CodexWindow::Weekly, usage)) => seven_day = Some(usage),
        None => {},
    }
    match parse_lane(secondary, CodexWindow::Weekly) {
        Some((CodexWindow::FiveHour, usage)) => five_hour = Some(usage),
        Some((CodexWindow::Weekly, usage)) => seven_day = Some(usage),
        None => {},
    }
    // The weekly window of one model family alone has no counterpart here.
    Ok(UsageSnapshot { five_hour, seven_day, seven_day_oi: None })
}

/// Path appended to a provider's base URL to reach the usage endpoint.
pub const USAGE_PATH: &'static str = "/wham/usage";

/// How long a poll may take, in seconds. The client carries no timeout of its
/// own, and a hung connection must not stall the poller.
pub const USAGE_TIMEOUT_SECONDS: u64 = 10;

/// How many characters of a refused answer's body an error quotes.
pub const DETAIL_CHARS: usize = 200;

/// A `GET` request, for the HTTP client to send.
#[derive(Debug)]
pub struct UsageRequest {
    pub url: String,
    /// Names and values, in order.
    pub headers: Vec<(String, String)>,
    pub timeout_seconds: u64,
}

impl UsageRequest {
    /// The headers as texts.
    pub open spec fn header_texts(self) -> Seq<(Seq<char>, Seq<char>)> {
        Seq::new(self.headers@.len(), |i: int| (self.headers@[i].0@, self.headers@[i].1@))
    }
}

/// A text without the slashes at its end.
pub open spec fn without_end_slashes(s: Seq<char>) -> Seq<char>
    decreases s.len(),
{
    if s.len() > 0 && s.last() == '/' {
        without_end_slashes(s.drop_last())
    } else {
        s
    }
}

/// The URL of the usage endpoint under a base URL.
pub fn usage_url(base_url: &str) -> (url: String)
    ensures
        url@ == without_end_slashes(base_url@) + USAGE_PATH@,
{
    let mut end: usize = base_url.unicode_len();
    assert(base_url@.take(end as int) =~= base_url@);
    while end > 0 && base_url.get_char(end - 1) == '/'
        invariant
            end <= base_url@.len(),
            without_end_slashes(base_url@) == without_end_slashes(base_url@.take(end as int)),
        decreases end,
    {
        assert(base_url@.take(end as int).drop_last() =~= base_url@.take(end - 1));
        end = end - 1;
    }
    assert(base_url@.take(end as int) =~= base_url@.subrange(0, end as int));
    base_url.substring_char(0, end).to_owned().concat(USAGE_PATH)
}

/// The request that asks for one account's usage: the bearer of its login, its
/// account id, and the identity of the client.
pub fn usage_request(
    base_url: &str,
    access_token: &str,
    account_id: &str,
    user_agent: &str,
    version: &str,
) -> (request: UsageRequest)
    ensures
        request.url@ == without_end_slashes(base_url@) + USAGE_PATH@,
        request.header_texts() == seq![
            ("authorization"@, "Bearer "@ + access_token@),
            ("chatgpt-account-id"@, account_id@),
            ("originator"@, "codex_cli_rs"@),
            ("user-agent"@, user_agent@),
            ("version"@, version@),
        ],
        request.timeout_seconds == USAGE_TIMEOUT_SECONDS,
{
    let mut headers: Vec<(String, String)> = Vec::new();
    headers.push(("authorization".to_owned(), "Bearer ".to_owned().concat(access_token)));
    headers.push(("chatgpt-account-id".to_owned(), account_id.to_owned()));
    headers.push(("originator".to_owned(), "codex_cli_rs".to_owned()));
    headers.push(("user-agent".to_owned(), user_agent.to_owned()));
    headers.push(("version".to_owned(), version.to_owned()));
    UsageRequest { url: usage_url(base_url), headers, timeout_seconds: USAGE_TIMEOUT_SECONDS }
}

/// Why a poll has no snapshot.
#[derive(Debug)]
pub enum UsageError {
    /// The endpoint refused, with this status line and start of a body.
    Refused { status: String, detail: String },
    /// The body is not JSON, for the reason given.
    InvalidJson(String),
    /// The body is JSON but no usage report.
    Shape(ShapeError),
}

/// Whether an HTTP status tells of success.
pub open spec fn is_success(status: u16) -> bool {
    200 <= status <= 299
}

/// The start of a text, at most `n` characters.
pub open spec fn start_of(s: Seq<char>, n: int) -> Seq<char> {
    if s.len() <= n {
        s
    } else {
        s.take(n)
    }
}

/// The snapshot that an answer yields, if any: its status tells of success and
/// its body is a usage report.
pub open spec fn snapshot_of_response(status: u16, body: Seq<char>) -> Option<UsageSnapshot> {
    match json_of_text(body) {
        Ok(document) => match usage_of(document) {
            Ok(snapshot) => if is_success(status) {
                Some(snapshot)
            } else {
                None
            },
            Err(_) => None,
        },
        Err(_) => None,
    }
}

/// Reads the endpoint's answer: its status, the status as it is displayed, and
/// its body.
pub fn read_usage_response(status: u16, status_line: &str, body: &str) -> (usage: Result<
    UsageSnapshot,
    UsageError,
>)
    ensures
        usage is Ok <==> snapshot_of_response(status, body@) is Some,
        match usage {
            Ok(snapshot) => snapshot_of_response(status, body@) == Some(snapshot),
            Err(UsageError::Refused { status: line, detail }) => {
                &&& !is_success(status)
                &&& line@ == status_line@
                &&& detail@ == start_of(body@, DETAIL_CHARS as int)
            },
            Err(UsageError::InvalidJson(message)) => {
                &&& is_success(status)
                &&& json_of_text(body@) == Err::<JsonView, Seq<char>>(message@)
            },
            Err(UsageError::Shape(error)) => {
                &&& is_success(status)
                &&& json_of_text(body@) matches Ok(document)
                &&& usage_of(document) == Err::<UsageSnapshot, ShapeError>(error)
            },
        },
{
    if status < 200 || status > 299 {
        let length: usize = body.unicode_len();
        let quoted: usize = if length <= DETAIL_CHARS {
            length
        } else {
            DETAIL_CHARS
        };
        let detail = body.substring_char(0, quoted).to_owned();
        assert(detail@ =~= start_of(body@, DETAIL_CHARS as int));
        return Err(UsageError::Refused { status: status_line.to_owned(), detail });
    }
    match Json::from_text(body) {
        Ok(document) => match parse_usage(&document) {
            Ok(snapshot) => Ok(snapshot),
            Err(error) => Err(UsageError::Shape(error)),
        },
        Err(message) => Err(UsageError::InvalidJson(message)),
    }
}

impl UsageError {
    /// The error in words.
    pub open spec fn words(self) -> Seq<char> {
        match self {
            UsageError::Refused { status, detail } => "wham usage request failed ("@ + status@
                + "): "@ + detail@,
            UsageError::InvalidJson(message) => "invalid wham usage response: "@ + message@,
            UsageError::Shape(ShapeError::NotAnObject) =>
                "wham usage response is not a JSON object"@,
            UsageError::Shape(ShapeError::NoWindow) =>
                "wham usage response carries no recognizable rate-limit window"@,
        }
    }

    /// The error in words.
    pub fn message(&self) -> (words: String)
        ensures
            words@ == self.words(),
    {
        match self {
            UsageError::Refused { status, detail } => "wham usage request failed (".to_owned()
                .concat(status.as_str()).concat("): ").concat(detail.as_str()),
            UsageError::InvalidJson(message) => "invalid wham usage response: ".to_owned().concat(
                message.as_str(),
            ),
            UsageError::Shape(ShapeError::NotAnObject) =>
                "wham usage response is not a JSON object".to_owned(),
            UsageError::Shape(ShapeError::NoWindow) =>
                "wham usage response carries no recognizable rate-limit window".to_owned(),
        }
    }
}

} // verus!
