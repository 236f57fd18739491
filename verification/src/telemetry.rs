//! Reports of what happens on a device.
use crate::clock::{
    DomainTime, read_rfc3339, rfc3339_offset_text, rfc3339_time, write_rfc3339_offset,
};
use crate::firing::MonitoringEvent;
use crate::json::{
    bool_field, entries_view, entry, field, int_of, int_text, int_value, json_read, json_text,
    lemma_json_list_view, list_view, name_items, name_views, named_items, read_json, signed_text,
    text_field, uint_field, uint_of, uint_value, write_json, Json, JsonView,
};
use crate::text::{
    cat, cat3, chars_of, decimal, decimal_text, owned, parse_unsigned, text_of, unsigned_value,
};
use vstd::arithmetic::power2::{
    lemma2_to64, lemma2_to64_rest, lemma_pow2_strictly_increases, lemma_pow2_unfold, pow2,
};
use vstd::prelude::*;

verus! {

/// A report of what happened on a device.
#[derive(Debug)]
pub struct TelemetryReport {
    pub device_id: String,
    pub generated_at: String,
    pub event_count: u64,
    pub events: Vec<MonitoringEvent>,
    pub manual: bool,
    pub trigger: String,
}

/// An event of a report over character sequences.
pub struct EventView {
    pub event_type: Seq<char>,
    pub timestamp: Seq<char>,
    pub metadata_json: Seq<char>,
}

/// A report over character sequences.
pub struct ReportView {
    pub device_id: Seq<char>,
    pub generated_at: Seq<char>,
    pub event_count: nat,
    pub events: Seq<EventView>,
    pub manual: bool,
    pub trigger: Seq<char>,
}

pub open spec fn event_view(e: MonitoringEvent) -> EventView {
    EventView {
        event_type: e.event_type@,
        timestamp: e.timestamp@,
        metadata_json: e.metadata_json@,
    }
}

pub open spec fn event_views(list: Seq<MonitoringEvent>) -> Seq<EventView> {
    list.map_values(|e: MonitoringEvent| event_view(e))
}

impl View for TelemetryReport {
    type V = ReportView;

    open spec fn view(&self) -> ReportView {
        ReportView {
            device_id: self.device_id@,
            generated_at: self.generated_at@,
            event_count: self.event_count as nat,
            events: event_views(self.events@),
            manual: self.manual,
            trigger: self.trigger@,
        }
    }
}

/// What the server answers to a report.
#[derive(Debug)]
pub struct ReportAck {
    pub status: String,
    pub received_at: String,
}

/// The first and the last second that chrono knows.
pub const FIRST_SECOND: i64 = -8_334_601_228_800;

pub const LAST_SECOND: i64 = 8_210_266_876_799;

/// The 64 bits of the floating-point value that serde_json has for a number that is given by
/// its text; nothing where the text is no number.
pub uninterp spec fn float_bits(number: Seq<char>) -> Option<u64>;

/// `as_f64` of `serde_json::Number`: a number as a floating-point value, which is handed out as
/// its bits. The result is a function of the number alone.
#[verifier::external_body]
fn read_float_bits(number: &str) -> (out: Option<u64>)
    ensures
        out == float_bits(number@),
{
    serde_json::from_str::<serde_json::Number>(number).ok()
        .and_then(|n| n.as_f64())
        .map(|v| v.to_bits())
}

/// The lower 52 bits of a floating-point value: its digits behind the point.
pub open spec fn float_fraction(bits: u64) -> nat {
    (bits % 0x10_0000_0000_0000) as nat
}

/// The 11 bits above them: the exponent.
pub open spec fn float_exponent(bits: u64) -> nat {
    (bits / 0x10_0000_0000_0000 % 2048) as nat
}

/// The size of a finite floating-point value: a whole number times a power of two.
pub open spec fn float_size(bits: u64) -> (nat, int) {
    if float_exponent(bits) == 0 {
        (float_fraction(bits), -1074)
    } else {
        (float_fraction(bits) + 0x10_0000_0000_0000, float_exponent(bits) - 1075)
    }
}

/// The whole number nearest to `m` times two to the power of `k`, the larger one of two that
/// are equally near.
pub open spec fn nearest(m: nat, k: int) -> nat {
    if k >= 0 {
        m * pow2(k as nat)
    } else {
        (2 * m + pow2((-k) as nat)) / (2 * pow2((-k) as nat))
    }
}

/// The nearest whole number of 64 bits with a sign.
pub open spec fn clamped(n: int) -> int {
    if n > i64::MAX {
        i64::MAX as int
    } else if n < i64::MIN {
        i64::MIN as int
    } else {
        n
    }
}

/// A floating-point value rounded to the nearest whole number, half away from zero, within 64
/// bits: what is infinite goes to the end of the range, and what is no number to 0.
pub open spec fn float_rounded(bits: u64) -> int {
    let size = if float_exponent(bits) < 2047 {
        nearest(float_size(bits).0, float_size(bits).1) as int
    } else if float_fraction(bits) == 0 {
        0x8000_0000_0000_0000int
    } else {
        0int
    };
    if bits < 0x8000_0000_0000_0000 {
        clamped(size)
    } else {
        clamped(-size)
    }
}

fn power_of_two(n: u64) -> (p: u64)
    requires
        n <= 63,
    ensures
        p == pow2(n as nat),
{
    let mut p: u64 = 1;
    let mut i: u64 = 0;
    proof {
        lemma2_to64();
        lemma2_to64_rest();
    }
    while i < n
        invariant
            i <= n <= 63,
            p == pow2(i as nat),
            pow2(63) == 0x8000_0000_0000_0000,
        decreases n - i,
    {
        proof {
            lemma_pow2_unfold((i + 1) as nat);
            if i + 1 < 63 {
                lemma_pow2_strictly_increases((i + 1) as nat, 63);
            }
        }
        p = p * 2;
        i = i + 1;
    }
    p
}

/// The nearest whole number, where it is less than two to the power of 63.
fn round_size(m: u64, k: i64) -> (out: Option<u64>)
    requires
        m < 0x20_0000_0000_0000,
        k >= 11 ==> m >= 0x10_0000_0000_0000,
        -1074 <= k <= 1100,
    ensures
        match out {
            Some(n) => n == nearest(m as nat, k as int) && n < 0x8000_0000_0000_0000,
            None => nearest(m as nat, k as int) >= 0x8000_0000_0000_0000,
        },
{
    proof {
        lemma2_to64();
        lemma2_to64_rest();
    }
    if k >= 11 {
        proof {
            if k > 11 {
                lemma_pow2_strictly_increases(11, k as nat);
            }
            assert(m * pow2(k as nat) >= 0x10_0000_0000_0000 * 2048) by (nonlinear_arith)
                requires
                    m >= 0x10_0000_0000_0000,
                    pow2(k as nat) >= 2048,
            ;
        }
        None
    } else if k >= 0 {
        let p: u64 = power_of_two(k as u64);
        proof {
            if k < 10 {
                lemma_pow2_strictly_increases(k as nat, 10);
            }
            assert(m * p < 0x20_0000_0000_0000 * 1024) by (nonlinear_arith)
                requires
                    m < 0x20_0000_0000_0000,
                    0 < p <= 1024,
            ;
        }
        Some(m * p)
    } else if k < -54 {
        proof {
            let p = pow2((-k) as nat) as int;
            lemma_pow2_strictly_increases(54, (-k) as nat);
            assert((2 * m + p) / (2 * p) == 0) by (nonlinear_arith)
                requires
                    0 <= 2 * m < p,
            ;
        }
        Some(0)
    } else {
        let p: u64 = power_of_two((0 - k) as u64);
        proof {
            if k > -54 {
                lemma_pow2_strictly_increases((-k) as nat, 54);
            }
            assert((2 * m + p) / (2 * p) <= 2 * m + p) by (nonlinear_arith)
                requires
                    p >= 1,
                    m >= 0,
            ;
        }
        Some((2 * m + p) / (2 * p))
    }
}

/// Rounds a floating-point value that is given by its bits.
pub fn round_float(bits: u64) -> (out: i64)
    ensures
        out == float_rounded(bits),
{
    let fraction: u64 = bits % 0x10_0000_0000_0000;
    let exponent: u64 = bits / 0x10_0000_0000_0000 % 2048;
    let size: Option<u64> = if exponent == 2047 {
        if fraction == 0 {
            None
        } else {
            Some(0)
        }
    } else if exponent == 0 {
        round_size(fraction, -1074)
    } else {
        round_size(fraction + 0x10_0000_0000_0000, exponent as i64 - 1075)
    };
    match size {
        Some(n) => if bits < 0x8000_0000_0000_0000 {
            n as i64
        } else {
            0 - n as i64
        },
        None => if bits < 0x8000_0000_0000_0000 {
            i64::MAX
        } else {
            i64::MIN
        },
    }
}

/// The whole number that a text stands for: digits with a sign before them at most, within
/// 64 bits.
pub open spec fn signed_value(s: Seq<char>) -> Option<int> {
    if s.len() > 0 && s[0] == '-' {
        let digits = s.skip(1);
        if digits.len() > 0 && digits[0] == '+' {
            None
        } else {
            match unsigned_value(digits, 9_223_372_036_854_775_808) {
                Some(n) => Some(-(n as int)),
                None => None,
            }
        }
    } else {
        match unsigned_value(s, i64::MAX as nat) {
            Some(n) => Some(n as int),
            None => None,
        }
    }
}

/// Reads a whole number with a sign before it at most.
pub fn parse_signed(s: &str) -> (out: Option<i64>)
    ensures
        match out {
            Some(n) => signed_value(s@) == Some(n as int),
            None => signed_value(s@) is None,
        },
{
    let chars = chars_of(s);
    if chars.len() > 0 && chars[0] == '-' {
        if chars.len() > 1 && chars[1] == '+' {
            return None;
        }
        let digits = text_of(&chars, 1, chars.len());
        proof {
            assert(digits@ =~= s@.skip(1));
        }
        match parse_unsigned(digits.as_str(), 9_223_372_036_854_775_808) {
            Some(n) => Some((-(n as i128)) as i64),
            None => None,
        }
    } else {
        match parse_unsigned(s, i64::MAX as u64) {
            Some(n) => Some(n as i64),
            None => None,
        }
    }
}

/// The point in time that seconds since the start of 1970 stand for, or what is wrong.
pub open spec fn time_of_seconds(seconds: int) -> Result<DomainTime, Seq<char>> {
    if FIRST_SECOND <= seconds <= LAST_SECOND {
        Ok(DomainTime { seconds: seconds as i64, nanos: 0 })
    } else {
        Err("Invalid unix timestamp: "@ + int_text(seconds))
    }
}

/// The point in time that a value in a report stands for, or what is wrong with it: a number
/// of seconds, rounded where it is not whole, such a number as text, or RFC 3339.
pub open spec fn time_of(j: JsonView) -> Result<DomainTime, Seq<char>> {
    match j {
        JsonView::Number(number) => match int_of(number) {
            Some(n) => time_of_seconds(n),
            None => match uint_of(number) {
                Some(n) => Err("Unix timestamp out of range: "@ + decimal(n)),
                None => match float_bits(number) {
                    Some(bits) => time_of_seconds(float_rounded(bits)),
                    None => Err("expected a unix timestamp in seconds or RFC3339 string"@),
                },
            },
        },
        JsonView::Text(s) => match signed_value(s) {
            Some(n) => time_of_seconds(n),
            None => match rfc3339_time(s) {
                Some(t) => Ok(t),
                None => Err("Invalid timestamp '"@ + s + "'"@),
            },
        },
        _ => Err("expected a unix timestamp in seconds or RFC3339 string"@),
    }
}

pub open spec fn time_out(out: Result<DomainTime, String>) -> Result<DomainTime, Seq<char>> {
    match out {
        Ok(t) => Ok(t),
        Err(e) => Err(e@),
    }
}

fn read_seconds(seconds: i64) -> (out: Result<DomainTime, String>)
    ensures
        time_out(out) == time_of_seconds(seconds as int),
{
    if FIRST_SECOND <= seconds && seconds <= LAST_SECOND {
        Ok(DomainTime { seconds, nanos: 0 })
    } else {
        let number = signed_text(seconds);
        Err(cat("Invalid unix timestamp: ", number.as_str()))
    }
}

/// Reads the point in time of an event.
pub fn read_event_timestamp(value: &Json) -> (out: Result<DomainTime, String>)
    ensures
        time_out(out) == time_of(value@),
{
    match value {
        Json::Number(number) => match int_value(number.as_str()) {
            Some(n) => read_seconds(n),
            None => match uint_value(number.as_str()) {
                Some(n) => {
                    let text = decimal_text(n);
                    Err(cat("Unix timestamp out of range: ", text.as_str()))
                },
                None => match read_float_bits(number.as_str()) {
                    Some(bits) => read_seconds(round_float(bits)),
                    None => Err(owned("expected a unix timestamp in seconds or RFC3339 string")),
                },
            },
        },
        Json::Text(s) => match parse_signed(s.as_str()) {
            Some(n) => read_seconds(n),
            None => match read_rfc3339(s.as_str()) {
                Some(t) => Ok(t),
                None => Err(cat3("Invalid timestamp '", s.as_str(), "'")),
            },
        },
        _ => Err(owned("expected a unix timestamp in seconds or RFC3339 string")),
    }
}

/// An event of a report as it is sent: its time in RFC 3339 form, its metadata as text. It is
/// given as an object, or as a list of its fields.
pub open spec fn event_of(j: JsonView) -> Result<EventView, Seq<char>> {
    let j = named_items(j, seq!["type"@, "timestamp"@, "metadata"@], 2);
    match text_field(j, "type"@) {
        None => Err("missing field `type`"@),
        Some(event_type) => match field(j, "timestamp"@) {
            None => Err("missing field `timestamp`"@),
            Some(value) => match time_of(value) {
                Err(e) => Err(e),
                Ok(t) => Ok(
                    EventView {
                        event_type,
                        timestamp: rfc3339_offset_text(t),
                        metadata_json: json_text(
                            match field(j, "metadata"@) {
                                Some(metadata) => metadata,
                                None => JsonView::Object(Seq::empty()),
                            },
                        ),
                    },
                ),
            },
        },
    }
}

fn read_event(j: &Json) -> (out: Result<MonitoringEvent, String>)
    ensures
        match event_of(j@) {
            Ok(e) => out matches Ok(o) && event_view(o) == e,
            Err(e) => out matches Err(o) && o@ == e,
        },
{
    let names = vec!["type", "timestamp", "metadata"];
    let j = name_items(j, &names, 2);
    proof {
        assert(name_views(names@) =~= seq!["type"@, "timestamp"@, "metadata"@]);
    }
    let event_type = match j.get_text("type") {
        Some(event_type) => event_type,
        None => return Err(owned("missing field `type`")),
    };
    let time = match j.get("timestamp") {
        Some(value) => match read_event_timestamp(value) {
            Ok(t) => t,
            Err(e) => return Err(e),
        },
        None => return Err(owned("missing field `timestamp`")),
    };
    let metadata_json = match j.get("metadata") {
        Some(metadata) => write_json(metadata),
        None => {
            let none: Vec<(String, Json)> = Vec::new();
            proof {
                assert(entries_view(none@) =~= Seq::empty());
            }
            write_json(&Json::object(none))
        },
    };
    Ok(MonitoringEvent { event_type, timestamp: write_rfc3339_offset(time), metadata_json })
}

/// The events of a report; the first that cannot be read is what is wrong.
pub open spec fn events_of(items: Seq<JsonView>) -> Result<Seq<EventView>, Seq<char>>
    decreases items.len(),
{
    if items.len() == 0 {
        Ok(Seq::empty())
    } else {
        match events_of(items.drop_last()) {
            Err(e) => Err(e),
            Ok(events) => match event_of(items.last()) {
                Err(e) => Err(e),
                Ok(event) => Ok(events.push(event)),
            },
        }
    }
}

proof fn lemma_events_error(items: Seq<JsonView>, n: int)
    requires
        0 <= n <= items.len(),
        events_of(items.take(n)) is Err,
    ensures
        events_of(items) == events_of(items.take(n)),
    decreases items.len() - n,
{
    if n < items.len() {
        assert(items.take(n + 1).drop_last() =~= items.take(n));
        lemma_events_error(items, n + 1);
    } else {
        assert(items.take(n) =~= items);
    }
}

fn read_events(items: &Vec<Json>) -> (out: Result<Vec<MonitoringEvent>, String>)
    ensures
        match events_of(list_view(items@)) {
            Ok(events) => out matches Ok(o) && event_views(o@) == events,
            Err(e) => out matches Err(o) && o@ == e,
        },
{
    let ghost all = list_view(items@);
    let mut out: Vec<MonitoringEvent> = Vec::new();
    let mut i: usize = 0;
    proof {
        assert(all.take(0) =~= Seq::empty());
        assert(event_views(out@) =~= Seq::empty());
    }
    while i < items.len()
        invariant
            i <= items@.len(),
            all == list_view(items@),
            events_of(all.take(i as int)) == Ok::<Seq<EventView>, Seq<char>>(event_views(out@)),
        decreases items@.len() - i,
    {
        proof {
            assert(all.take(i + 1).drop_last() =~= all.take(i as int));
            assert(all.take(i + 1).last() == items@[i as int]@);
        }
        match read_event(&items[i]) {
            Ok(event) => {
                let ghost was = out@;
                out.push(event);
                proof {
                    assert(event_views(out@) =~= event_views(was).push(event_view(out@.last())));
                }
            },
            Err(e) => {
                proof {
                    lemma_events_error(all, i + 1);
                }
                return Err(e);
            },
        }
        i = i + 1;
    }
    proof {
        assert(all.take(i as int) =~= all);
    }
    Ok(out)
}

/// The names of what a report holds, in their order.
pub open spec fn report_names() -> Seq<Seq<char>> {
    seq!["deviceId"@, "generatedAt"@, "eventCount"@, "events"@, "manual"@, "trigger"@]
}

/// The report that a JSON value stands for, or what is wrong with it. It is given as an object,
/// or as a list of its fields.
pub open spec fn report_of(j: JsonView) -> Result<ReportView, Seq<char>> {
    let j = named_items(j, report_names(), 6);
    match text_field(j, "deviceId"@) {
        None => Err("missing field `deviceId`"@),
        Some(device_id) => match text_field(j, "generatedAt"@) {
            None => Err("missing field `generatedAt`"@),
            Some(generated_at) => match uint_field(j, "eventCount"@) {
                None => Err("missing field `eventCount`"@),
                Some(event_count) => match field(j, "events"@) {
                    Some(JsonView::List(items)) => match events_of(items) {
                        Err(e) => Err(e),
                        Ok(events) => match bool_field(j, "manual"@) {
                            None => Err("missing field `manual`"@),
                            Some(manual) => match text_field(j, "trigger"@) {
                                None => Err("missing field `trigger`"@),
                                Some(trigger) => Ok(
                                    ReportView {
                                        device_id,
                                        generated_at,
                                        event_count,
                                        events,
                                        manual,
                                        trigger,
                                    },
                                ),
                            },
                        },
                    },
                    _ => Err("missing field `events`"@),
                },
            },
        },
    }
}

pub open spec fn report_out(out: Result<TelemetryReport, String>) -> Result<ReportView, Seq<char>> {
    match out {
        Ok(r) => Ok(r@),
        Err(e) => Err(e@),
    }
}

/// Reads a report from its JSON form.
pub fn map_report_payload(j: &Json) -> (out: Result<TelemetryReport, String>)
    ensures
        report_out(out) == report_of(j@),
{
    broadcast use lemma_json_list_view;

    let names = vec!["deviceId", "generatedAt", "eventCount", "events", "manual", "trigger"];
    let j = name_items(j, &names, 6);
    proof {
        assert(name_views(names@) =~= report_names());
    }
    let device_id = match j.get_text("deviceId") {
        Some(s) => s,
        None => return Err(owned("missing field `deviceId`")),
    };
    let generated_at = match j.get_text("generatedAt") {
        Some(s) => s,
        None => return Err(owned("missing field `generatedAt`")),
    };
    let event_count: u64 = match j.get_uint("eventCount") {
        Some(n) => n,
        None => return Err(owned("missing field `eventCount`")),
    };
    let events = match j.get("events") {
        Some(Json::List(items)) => match read_events(items) {
            Ok(events) => events,
            Err(e) => return Err(e),
        },
        _ => return Err(owned("missing field `events`")),
    };
    let manual = match j.get_bool("manual") {
        Some(b) => b,
        None => return Err(owned("missing field `manual`")),
    };
    let trigger = match j.get_text("trigger") {
        Some(s) => s,
        None => return Err(owned("missing field `trigger`")),
    };
    Ok(TelemetryReport { device_id, generated_at, event_count, events, manual, trigger })
}

/// The report that is to be sent for a text, or why none is.
pub open spec fn report_for(configured: bool, payload: Seq<char>) -> Result<ReportView, Seq<char>> {
    if !configured {
        Err("Telemetry client is not configured"@)
    } else {
        match json_read(payload) {
            Err(e) => Err("Invalid telemetry payload: "@ + e),
            Ok(j) => match report_of(j) {
                Err(e) => Err("Invalid telemetry payload: "@ + e),
                Ok(report) => Ok(report),
            },
        }
    }
}

/// The report that is to be sent for a text.
pub fn prepare_report(configured: bool, payload_json: &str) -> (out: Result<TelemetryReport, String>)
    ensures
        report_out(out) == report_for(configured, payload_json@),
{
    if !configured {
        return Err(owned("Telemetry client is not configured"));
    }
    match read_json(payload_json) {
        Err(e) => Err(cat("Invalid telemetry payload: ", e.as_str())),
        Ok(j) => match map_report_payload(&j) {
            Err(e) => Err(cat("Invalid telemetry payload: ", e.as_str())),
            Ok(report) => Ok(report),
        },
    }
}

/// What became of a report that was sent.
#[derive(Debug)]
pub enum ReportOutcome {
    Acknowledged { ack: ReportAck },
    /// There is no way to the server.
    Unreachable { fault: String },
    /// There is no token to send it with.
    NoToken,
    TimedOut,
    Refused { fault: String },
}

/// The JSON form of the server's answer.
pub open spec fn ack_json(status: Seq<char>, received_at: Seq<char>) -> JsonView {
    JsonView::Object(
        seq![("receivedAt"@, JsonView::Text(received_at)), ("status"@, JsonView::Text(status))],
    )
}

/// The server's answer as text.
pub fn ack_to_json(ack: &ReportAck) -> (text: String)
    ensures
        text@ == json_text(ack_json(ack.status@, ack.received_at@)),
{
    let entries = vec![
        entry("receivedAt", Json::text(ack.received_at.as_str())),
        entry("status", Json::text(ack.status.as_str())),
    ];
    proof {
        assert(entries_view(entries@) =~= ack_json(ack.status@, ack.received_at@)->Object_0);
    }
    write_json(&Json::object(entries))
}

/// What the sender of a report is told, and whether the connection can be used again: it is
/// given up where the request failed on it.
pub open spec fn report_answer(outcome: ReportOutcome) -> (Result<Seq<char>, Seq<char>>, bool) {
    match outcome {
        ReportOutcome::Acknowledged { ack } => (
            Ok(json_text(ack_json(ack.status@, ack.received_at@))),
            true,
        ),
        ReportOutcome::Unreachable { fault } => (Err(fault@), true),
        ReportOutcome::NoToken => (Err("Authentication bearer token is not configured"@), true),
        ReportOutcome::TimedOut => (Err("Telemetry report request timed out"@), false),
        ReportOutcome::Refused { fault } => (
            Err("Failed to send telemetry report: "@ + fault@),
            false,
        ),
    }
}

pub open spec fn told(out: Result<String, String>) -> Result<Seq<char>, Seq<char>> {
    match out {
        Ok(s) => Ok(s@),
        Err(e) => Err(e@),
    }
}

/// What the sender of a report is told, and whether the connection is kept.
pub fn finish_report(outcome: &ReportOutcome) -> (out: (Result<String, String>, bool))
    ensures
        (told(out.0), out.1) == report_answer(*outcome),
{
    match outcome {
        ReportOutcome::Acknowledged { ack } => (Ok(ack_to_json(ack)), true),
        ReportOutcome::Unreachable { fault } => (Err(fault.clone()), true),
        ReportOutcome::NoToken => (
            Err(owned("Authentication bearer token is not configured")),
            true,
        ),
        ReportOutcome::TimedOut => (Err(owned("Telemetry report request timed out")), false),
        ReportOutcome::Refused { fault } => (
            Err(cat("Failed to send telemetry report: ", fault.as_str())),
            false,
        ),
    }
}

/// A report that is read has an event for each that was given, in their order.
pub proof fn law_events_in_order(items: Seq<JsonView>)
    requires
        events_of(items) is Ok,
    ensures
        events_of(items)->Ok_0.len() == items.len(),
        forall|i: int|
            0 <= i < items.len() ==> event_of(#[trigger] items[i]) == Ok::<EventView, Seq<char>>(
                events_of(items)->Ok_0[i],
            ),
    decreases items.len(),
{
    if items.len() > 0 {
        law_events_in_order(items.drop_last());
        assert forall|i: int| 0 <= i < items.len() implies event_of(#[trigger] items[i]) == Ok::<
            EventView,
            Seq<char>,
        >(events_of(items)->Ok_0[i]) by {
            if i < items.len() - 1 {
                assert(items.drop_last()[i] == items[i]);
            }
        }
    }
}

} // verus!
