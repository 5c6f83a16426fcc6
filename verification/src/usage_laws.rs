//! What holds of every usage document.

use vstd::arithmetic::power2::{lemma_pow2_pos, pow2};
use vstd::prelude::*;

use crate::binary64::{
    distance, law_nearest_is_at_the_least_distance, lemma_hundredth_exists, lemma_one_and_hundred,
    lemma_units_increase, nearest, units, HUNDRED, ONE, SIGN,
};
use crate::json::{json_of_text, JsonNumber, JsonView};
use crate::rfc3339::epoch_seconds;
use crate::snapshot::{bucket_of, CodexWindow, UsageSnapshot, UsageWindow};
use crate::usage::{
    bucket_window, container_of, is_success, lane_bucket, percent_units, primary_of, reported,
    resets_at_of, secondary_of, snapshot_of_response, start_of, usage_of, utilization_of, window_of,
    without_end_slashes, ShapeError, UsageError, UsageRequest, DETAIL_CHARS, USAGE_PATH,
    USAGE_TIMEOUT_SECONDS,
};

verus! {

/// A reported utilization is a share: from 0 to 1, where 0 may be negative
/// zero. It is the value nearest to a hundredth of the percentage.
pub proof fn law_utilization_is_a_share(number: JsonNumber)
    ensures
        utilization_of(number) matches Some(utilization) ==> {
            &&& percent_units(number) matches Some(num)
            &&& utilization <= ONE || utilization == SIGN
            &&& utilization != SIGN ==> nearest(utilization as int, num, 100)
        },
{
    if let Some(num) = percent_units(number) {
        lemma_pow2_pos(1074);
        let p = pow2(1074) as int;
        assert(forall|n: int| 0 <= n <= 100 ==> 0 <= #[trigger] (n * p) <= 100 * p)
            by (nonlinear_arith)
            requires
                p > 0,
        ;
        if let JsonNumber::Float(bits) = number {
            if bits != SIGN {
                lemma_units_increase(bits as int, bits + 1);
            }
        }
        lemma_hundredth_exists(num);
    }
}

/// A percentage below 0, above 100 or not finite is no percentage.
pub proof fn law_percent_out_of_range_is_rejected(bits: u64)
    ensures
        utilization_of(JsonNumber::Float(bits)) is Some <==> bits <= HUNDRED || bits == SIGN,
{
    lemma_one_and_hundred();
    if bits < HUNDRED {
        lemma_units_increase(bits as int, HUNDRED as int);
    } else if HUNDRED < bits {
        lemma_units_increase(HUNDRED as int, bits as int);
    }
}

/// A stated length decides the bucket where it is a known one, whatever lane the
/// window stands in; else the lane does.
pub proof fn law_known_length_decides_the_bucket(
    window: JsonView,
    minutes: i64,
    lane: CodexWindow,
)
    requires
        window.get("window_minutes"@) matches Some(member) && member.as_i64() == Some(minutes),
    ensures
        lane_bucket(window, lane) == match bucket_of(minutes) {
            Some(bucket) => bucket,
            None => lane,
        },
{
}

/// A readable window of the secondary lane is reported in its bucket. So is one
/// of the primary lane, unless the secondary lane reports for that bucket.
pub proof fn law_readable_windows_are_reported(container: JsonView, window: JsonView)
    requires
        window_of(window) is Some,
    ensures
        secondary_of(container) == Some(window) ==> bucket_window(
            container,
            lane_bucket(window, CodexWindow::Weekly),
        ) == window_of(window),
        primary_of(container) == Some(window) && reported(
            secondary_of(container),
            CodexWindow::Weekly,
            lane_bucket(window, CodexWindow::FiveHour),
        ) is None ==> bucket_window(container, lane_bucket(window, CodexWindow::FiveHour))
            == window_of(window),
{
}

/// A window that cannot be read is skipped on its own: what is reported is what
/// the other lane reports.
pub proof fn law_unreadable_window_is_skipped_alone(container: JsonView, bucket: CodexWindow)
    ensures
        (primary_of(container) matches Some(w) ==> window_of(w) is None) ==> bucket_window(
            container,
            bucket,
        ) == reported(secondary_of(container), CodexWindow::Weekly, bucket),
        (secondary_of(container) matches Some(w) ==> window_of(w) is None) ==> bucket_window(
            container,
            bucket,
        ) == reported(primary_of(container), CodexWindow::FiveHour, bucket),
{
}

/// A document is a usage report exactly if its container is an object with a
/// window under one of the four known names, readable or not.
pub proof fn law_recognizable_documents(value: JsonView)
    ensures
        usage_of(value) is Ok <==> {
            let container = container_of(value);
            &&& container is Object
            &&& {
                ||| container.get("primary_window"@) is Some
                ||| container.get("five_hour_limit"@) is Some
                ||| container.get("secondary_window"@) is Some
                ||| container.get("weekly_limit"@) is Some
            }
        },
{
}

/// A report without a readable window is empty, and no other is.
pub proof fn law_empty_reports(value: JsonView)
    ensures
        usage_of(value) matches Ok(snapshot) ==> (snapshot.empty() <==> {
            &&& primary_of(container_of(value)) matches Some(w) ==> window_of(w) is None
            &&& secondary_of(container_of(value)) matches Some(w) ==> window_of(w) is None
        }),
{
    let container = container_of(value);
    if let Some(w) = primary_of(container) {
        assert(bucket_window(container, lane_bucket(w, CodexWindow::FiveHour)) is None ==> window_of(
            w,
        ) is None);
    }
    if let Some(w) = secondary_of(container) {
        assert(bucket_window(container, lane_bucket(w, CodexWindow::Weekly)) is None ==> window_of(
            w,
        ) is None);
    }
}

/// The weekly window of one model family is never reported by this endpoint.
pub proof fn law_no_scoped_window(value: JsonView)
    ensures
        usage_of(value) matches Ok(snapshot) ==> snapshot.seven_day_oi is None,
{
}

/// The names that reading a document looks at outside the windows.
pub open spec fn is_read_name(name: Seq<char>) -> bool {
    ||| name == "rate_limit"@
    ||| name == "rate_limits"@
    ||| name == "primary_window"@
    ||| name == "five_hour_limit"@
    ||| name == "secondary_window"@
    ||| name == "weekly_limit"@
}

/// Any other member of a document, present or absent, changes nothing.
pub proof fn law_other_members_are_ignored(
    members: Map<Seq<char>, JsonView>,
    name: Seq<char>,
    member: JsonView,
)
    requires
        !is_read_name(name),
    ensures
        usage_of(JsonView::Object(members.insert(name, member))) == usage_of(
            JsonView::Object(members),
        ),
{
    let plain = JsonView::Object(members);
    let extended = JsonView::Object(members.insert(name, member));
    assert(forall|key: Seq<char>| is_read_name(key) ==> #[trigger] extended.get(key) == plain.get(key));
    assert(is_read_name("rate_limit"@) && is_read_name("rate_limits"@));
    assert(is_read_name("primary_window"@) && is_read_name("five_hour_limit"@));
    assert(is_read_name("secondary_window"@) && is_read_name("weekly_limit"@));
}

/// A report is a matter of the four window members of the container alone: two
/// documents that agree on them report the same.
pub proof fn law_report_rests_on_the_windows(value: JsonView, other: JsonView)
    requires
        container_of(value) is Object,
        container_of(other) is Object,
        container_of(value).get("primary_window"@) == container_of(other).get("primary_window"@),
        container_of(value).get("five_hour_limit"@) == container_of(other).get("five_hour_limit"@),
        container_of(value).get("secondary_window"@) == container_of(other).get(
            "secondary_window"@,
        ),
        container_of(value).get("weekly_limit"@) == container_of(other).get("weekly_limit"@),
    ensures
        usage_of(value) == usage_of(other),
{
}

/// Whether a JSON number has the given value, in units of two to the power
/// -1074. Negative zero has the value 0; no other number with the sign bit, no
/// infinity and no NaN has a value here.
pub open spec fn has_value(number: JsonNumber, value: int) -> bool {
    match number {
        JsonNumber::PosInt(n) => value == n * pow2(1074),
        JsonNumber::NegInt(n) => value == n * pow2(1074),
        JsonNumber::Float(bits) => {
            ||| bits < 0x7ff0_0000_0000_0000 && value == units(bits as int)
            ||| bits == 0x8000_0000_0000_0000 && value == 0
        },
    }
}

/// Whether a share is at no greater distance from a hundredth of a percentage
/// than another binary64 value is, and even where both are at the same one.
/// Negative zero stays what it is.
pub open spec fn is_share(share: u64, number: JsonNumber, percent: int, other: int) -> bool {
    if number == JsonNumber::Float(0x8000_0000_0000_0000) {
        share == 0x8000_0000_0000_0000
    } else {
        &&& distance(share as int, percent, 100) <= distance(other, percent, 100)
        &&& distance(share as int, percent, 100) == distance(other, percent, 100) && other != share
            ==> share % 2 == 0
    }
}

/// A percentage from 0 to 100, and no other, is a share, and the share is the
/// binary64 value at the least distance from a hundredth of it; of two at the
/// same distance, the one with an even pattern. Negative zero stays what it is.
pub proof fn law_share_is_a_hundredth_of_the_percentage(
    number: JsonNumber,
    percent: int,
    other: int,
)
    requires
        has_value(number, percent),
        0 <= other < 0x7ff0_0000_0000_0000,
    ensures
        utilization_of(number) is Some <==> 0 <= percent <= 100 * pow2(1074),
        utilization_of(number) matches Some(share) ==> is_share(share, number, percent, other),
{
    law_utilization_is_a_share(number);
    lemma_pow2_pos(1074);
    let p = pow2(1074) as int;
    match number {
        JsonNumber::PosInt(n) => {
            assert(n <= 100 <==> n * p <= 100 * p) by (nonlinear_arith)
                requires
                    p > 0,
            ;
            assert(n * p >= 0) by (nonlinear_arith)
                requires
                    p > 0,
                    n >= 0,
            ;
        },
        JsonNumber::NegInt(n) => {
            assert((n <= 100 <==> n * p <= 100 * p) && (n >= 0 <==> n * p >= 0))
                by (nonlinear_arith)
                requires
                    p > 0,
            ;
        },
        JsonNumber::Float(bits) => {
            if bits != SIGN {
                lemma_units_increase(bits as int, bits + 1);
            }
        },
    }
    if let Some(share) = utilization_of(number) {
        if number != JsonNumber::Float(SIGN) {
            lemma_hundredth_exists(percent);
            law_nearest_is_at_the_least_distance(share as int, percent, 100, other);
        }
    }
}

/// A number without a value is no percentage.
pub proof fn law_number_without_a_value_is_no_percentage(bits: u64)
    requires
        bits >= 0x7ff0_0000_0000_0000,
        bits != 0x8000_0000_0000_0000,
    ensures
        utilization_of(JsonNumber::Float(bits)) is None,
{
}

/// What a window object reports: the share that its `used_percent` stands for,
/// and the reset that its `resets_at` tells. It reports nothing exactly if it has
/// no `used_percent` that is a percentage from 0 to 100.
pub proof fn law_window_reports_its_percentage(
    window: Map<Seq<char>, JsonView>,
    number: JsonNumber,
    percent: int,
    other: int,
)
    requires
        window.contains_key("used_percent"@),
        window["used_percent"@] == JsonView::Number(number),
        has_value(number, percent),
        0 <= other < 0x7ff0_0000_0000_0000,
    ensures
        window_of(JsonView::Object(window)) is Some <==> 0 <= percent <= 100 * pow2(1074),
        window_of(JsonView::Object(window)) matches Some(usage) ==> is_share(
            usage.utilization,
            number,
            percent,
            other,
        ),
{
    law_share_is_a_hundredth_of_the_percentage(number, percent, other);
}

/// A window reports nothing where its percentage is missing, is no number, or is
/// a number without a value; neither does anything but an object.
pub proof fn law_window_without_a_percentage_reports_nothing(
    window: Map<Seq<char>, JsonView>,
    value: JsonView,
    bits: u64,
)
    ensures
        !window.contains_key("used_percent"@) ==> window_of(JsonView::Object(window)) is None,
        !(window["used_percent"@] is Number) ==> window_of(JsonView::Object(window)) is None,
        window["used_percent"@] == JsonView::Number(JsonNumber::Float(bits)) && bits
            >= 0x7ff0_0000_0000_0000 && bits != 0x8000_0000_0000_0000 ==> window_of(
            JsonView::Object(window),
        ) is None,
        !(value is Object) ==> window_of(value) is None,
{
}

/// When a window resets: at the epoch second that an integer gives, or at the
/// instant that a timestamp tells. Anything else, or nothing, is no reset, and
/// keeps no window from being reported.
pub proof fn law_window_reports_its_reset(window: Map<Seq<char>, JsonView>, usage: UsageWindow)
    requires
        window_of(JsonView::Object(window)) == Some(usage),
    ensures
        !window.contains_key("resets_at"@) ==> usage.resets_at is None,
        window.contains_key("resets_at"@) ==> match window["resets_at"@] {
            JsonView::Number(JsonNumber::PosInt(epoch)) => usage.resets_at == Some(epoch),
            JsonView::Text(text) => usage.resets_at == epoch_seconds(text),
            _ => usage.resets_at is None,
        },
{
}

/// What stands at `resets_at` is read the same wherever it comes from.
pub proof fn law_resets(value: JsonView)
    ensures
        resets_at_of(None) is None,
        resets_at_of(Some(value)) == match value {
            JsonView::Number(JsonNumber::PosInt(epoch)) => Some(epoch),
            JsonView::Text(text) => epoch_seconds(text),
            _ => None,
        },
{
}

/// The windows stand in the member `rate_limit`; without it in `rate_limits`;
/// without either in the document itself.
pub proof fn law_container_of_the_windows(document: Map<Seq<char>, JsonView>)
    ensures
        document.contains_key("rate_limit"@) ==> usage_of(JsonView::Object(document)) == usage_of(
            JsonView::Object(map!["rate_limit"@ => document["rate_limit"@]]),
        ),
        !document.contains_key("rate_limit"@) && document.contains_key("rate_limits"@) ==> usage_of(
            JsonView::Object(document),
        ) == usage_of(JsonView::Object(map!["rate_limit"@ => document["rate_limits"@]])),
        !document.contains_key("rate_limit"@) && !document.contains_key("rate_limits"@)
            ==> usage_of(JsonView::Object(document)) == usage_of(
            JsonView::Object(map!["rate_limit"@ => JsonView::Object(document)]),
        ),
{
}

/// What is no object holds no windows, be it the document or its container.
pub proof fn law_only_an_object_is_a_report(value: JsonView)
    requires
        !(value is Object),
    ensures
        usage_of(value) == Err::<UsageSnapshot, ShapeError>(ShapeError::NotAnObject),
        usage_of(JsonView::Object(map!["rate_limit"@ => value])) == Err::<
            UsageSnapshot,
            ShapeError,
        >(ShapeError::NotAnObject),
{
}

/// Whether a window states a length in minutes.
pub open spec fn states_minutes(window: JsonView, minutes: int) -> bool {
    window matches JsonView::Object(members) && members.contains_key("window_minutes"@) && (
    members["window_minutes"@] matches JsonView::Number(number) && match number {
        JsonNumber::PosInt(n) => n == minutes,
        JsonNumber::NegInt(n) => n == minutes,
        JsonNumber::Float(_) => false,
    })
}

/// What the members of a container report. The first lane is `primary_window`,
/// or else `five_hour_limit`, and is the five-hour window unless it states a
/// length of a week; the second is `secondary_window`, or else `weekly_limit`, and
/// is the weekly window unless it states a length of five hours. Where both are
/// the same window and both can be read, the second counts. With neither there
/// is no report.
pub proof fn law_report_of_a_container(
    container: Map<Seq<char>, JsonView>,
    first: Option<JsonView>,
    second: Option<JsonView>,
)
    requires
        first == if container.contains_key("primary_window"@) {
            Some(container["primary_window"@])
        } else if container.contains_key("five_hour_limit"@) {
            Some(container["five_hour_limit"@])
        } else {
            None
        },
        second == if container.contains_key("secondary_window"@) {
            Some(container["secondary_window"@])
        } else if container.contains_key("weekly_limit"@) {
            Some(container["weekly_limit"@])
        } else {
            None
        },
    ensures
        ({
            let report = usage_of(
                JsonView::Object(map!["rate_limit"@ => JsonView::Object(container)]),
            );
            let first_usage = match first {
                Some(window) => window_of(window),
                None => None,
            };
            let second_usage = match second {
                Some(window) => window_of(window),
                None => None,
            };
            let first_is_weekly = first matches Some(window) && states_minutes(window, 10080);
            let second_is_short = second matches Some(window) && states_minutes(window, 300);
            &&& first is None && second is None ==> report == Err::<UsageSnapshot, ShapeError>(
                ShapeError::NoWindow,
            )
            &&& first is Some || second is Some ==> report == Ok::<UsageSnapshot, ShapeError>(
                UsageSnapshot {
                    five_hour: if second_is_short && second_usage is Some {
                        second_usage
                    } else if !first_is_weekly {
                        first_usage
                    } else {
                        None
                    },
                    seven_day: if !second_is_short && second_usage is Some {
                        second_usage
                    } else if first_is_weekly {
                        first_usage
                    } else {
                        None
                    },
                    seven_day_oi: None,
                },
            )
        }),
{
}

/// A report states the shares of its windows: the second lane's in any case, and
/// the first lane's where it is the only one.
pub proof fn law_report_states_the_shares(
    container: Map<Seq<char>, JsonView>,
    window: Map<Seq<char>, JsonView>,
    number: JsonNumber,
    percent: int,
    other: int,
)
    requires
        window.contains_key("used_percent"@),
        window["used_percent"@] == JsonView::Number(number),
        has_value(number, percent),
        0 <= percent <= 100 * pow2(1074),
        0 <= other < 0x7ff0_0000_0000_0000,
    ensures
        ({
            let report = usage_of(
                JsonView::Object(map!["rate_limit"@ => JsonView::Object(container)]),
            );
            let weekly = states_minutes(JsonView::Object(window), 10080);
            let short = states_minutes(JsonView::Object(window), 300);
            &&& container.contains_key("secondary_window"@) && container["secondary_window"@]
                == JsonView::Object(window) ==> (report matches Ok(snapshot) && ((if short {
                snapshot.five_hour
            } else {
                snapshot.seven_day
            }) matches Some(usage) && is_share(usage.utilization, number, percent, other)))
            &&& container.contains_key("primary_window"@) && container["primary_window"@]
                == JsonView::Object(window) && !container.contains_key("secondary_window"@)
                && !container.contains_key("weekly_limit"@) ==> (report matches Ok(snapshot) && ((
            if weekly {
                snapshot.seven_day
            } else {
                snapshot.five_hour
            }) matches Some(usage) && is_share(usage.utilization, number, percent, other)))
        }),
{
    law_window_reports_its_percentage(window, number, percent, other);
}

/// A URL loses the slashes at its end, all of them and nothing else.
pub proof fn law_end_slashes(text: Seq<char>)
    ensures
        ({
            let base = without_end_slashes(text);
            &&& base.len() <= text.len()
            &&& base == text.take(base.len() as int)
            &&& forall|i: int| base.len() <= i < text.len() ==> #[trigger] text[i] == '/'
            &&& base.len() > 0 ==> base.last() != '/'
        }),
    decreases text.len(),
{
    if text.len() > 0 && text.last() == '/' {
        law_end_slashes(text.drop_last());
        let base = without_end_slashes(text);
        assert(base =~= text.take(base.len() as int));
        assert forall|i: int| base.len() <= i < text.len() implies #[trigger] text[i] == '/' by {
            if i < text.len() - 1 {
                assert(text.drop_last()[i] == text[i]);
            }
        }
    } else {
        assert(text =~= text.take(text.len() as int));
    }
}

/// However many slashes end a base URL, the endpoint is the same.
pub proof fn law_one_more_slash_changes_nothing(text: Seq<char>)
    ensures
        without_end_slashes(text.push('/')) == without_end_slashes(text),
{
    assert(text.push('/').drop_last() =~= text);
}

/// Where the endpoint is, how long it may take, and how much of a refusal is
/// quoted.
pub proof fn law_fixed_parts_of_a_request(request: UsageRequest, i: int)
    ensures
        USAGE_PATH@ == "/wham/usage"@,
        USAGE_TIMEOUT_SECONDS == 10,
        DETAIL_CHARS == 200,
        request.header_texts().len() == request.headers@.len(),
        0 <= i < request.headers@.len() ==> request.header_texts()[i].0 == request.headers@[i].0@
            && request.header_texts()[i].1 == request.headers@[i].1@,
{
}

/// An answer yields a snapshot exactly if its status is one of the two hundreds
/// and its body is JSON that reports that snapshot.
pub proof fn law_answers_that_yield_a_snapshot(
    status: u16,
    body: Seq<char>,
    snapshot: UsageSnapshot,
)
    ensures
        is_success(status) <==> status / 100 == 2,
        snapshot_of_response(status, body) == Some(snapshot) <==> {
            &&& status / 100 == 2
            &&& json_of_text(body) matches Ok(document)
            &&& usage_of(document) == Ok::<UsageSnapshot, ShapeError>(snapshot)
        },
{
}

/// A quote is the start of the text, and all of it where that is short.
pub proof fn law_quotes(text: Seq<char>, n: int)
    requires
        0 <= n,
    ensures
        start_of(text, n).len() == if text.len() <= n {
            text.len() as int
        } else {
            n
        },
        forall|i: int| 0 <= i < start_of(text, n).len() ==> #[trigger] start_of(text, n)[i] == text[i],
{
}

/// An error says what went wrong, and quotes what the endpoint or the parser
/// said.
pub proof fn law_errors_in_words(error: UsageError)
    ensures
        error matches UsageError::Refused { status, detail } ==> error.words()
            == "wham usage request failed ("@ + status@ + "): "@ + detail@,
        error matches UsageError::InvalidJson(message) ==> error.words()
            == "invalid wham usage response: "@ + message@,
        error == UsageError::Shape(ShapeError::NotAnObject) ==> error.words()
            == "wham usage response is not a JSON object"@,
        error == UsageError::Shape(ShapeError::NoWindow) ==> error.words()
            == "wham usage response carries no recognizable rate-limit window"@,
{
}

} // verus!
