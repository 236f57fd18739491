//! When triggers fire.
use crate::clock::{DomainTime, read_rfc3339, rfc3339_time};
use crate::error::{ErrorView, SdkError, failure};
use crate::json::opt_view;
use crate::scheduling::{RuleView, TriggerRule, rule_views};
use crate::telemetry::{FIRST_SECOND, LAST_SECOND};
use crate::text::{
    cat, cat3, chars_of, decimal, decimal_text, first_index, has_prefix, join, joined, owned,
    parse_unsigned, same, starts_with, text_of, trim, trimmed, unsigned_value, views,
};
use vstd::prelude::*;
use vstd::string::StringExecFns;

verus! {

/// Something that happened, as triggers see it.
#[derive(Debug)]
pub struct MonitoringEvent {
    pub event_type: String,
    pub timestamp: String,
    pub metadata_json: String,
}

impl MonitoringEvent {
    /// A copy of the event.
    pub fn duplicate_event(&self) -> (copy: MonitoringEvent)
        ensures
            copy == *self,
    {
        MonitoringEvent {
            event_type: self.event_type.clone(),
            timestamp: self.timestamp.clone(),
            metadata_json: self.metadata_json.clone(),
        }
    }
}

/// How often a trigger may fire.
#[derive(Clone, Copy, Debug, PartialEq, Eq, Structural)]
pub enum RepeatFrequency {
    PerDay(u32),
    PerWeek(u32),
}

/// When a rule lets a trigger fire.
#[derive(Debug)]
pub enum TriggerTiming {
    Cron { expression: String },
    Timer { value: String },
    Event { event_type: String },
    RepeatFrequency { frequency: RepeatFrequency },
}

/// Whether a point in time comes before another.
pub open spec fn time_less(a: DomainTime, b: DomainTime) -> bool {
    a.seconds < b.seconds || (a.seconds == b.seconds && a.nanos < b.nanos)
}

fn is_earlier(a: DomainTime, b: DomainTime) -> (r: bool)
    ensures
        r == time_less(a, b),
{
    a.seconds < b.seconds || (a.seconds == b.seconds && a.nanos < b.nanos)
}

pub open spec fn earlier_of(a: DomainTime, b: DomainTime) -> DomainTime {
    if time_less(b, a) {
        b
    } else {
        a
    }
}

/// Nanoseconds that a second can have: those of a leap second only at the end of a minute.
pub open spec fn fits_second(t: DomainTime) -> bool {
    t.nanos < 1_000_000_000 || (t.nanos < 2_000_000_000 && t.seconds as int % 60 == 59)
}

/// A point in time that chrono knows.
pub open spec fn known_time(t: DomainTime) -> bool {
    FIRST_SECOND <= t.seconds <= LAST_SECOND && fits_second(t)
}

/// A point in time that chrono knows and can show on a clock that is some seconds ahead of
/// UTC.
pub open spec fn known_on(t: DomainTime, offset: int) -> bool {
    known_time(t) && FIRST_SECOND <= t.seconds + offset <= LAST_SECOND
}

/// The seconds by which a local clock can differ from UTC.
pub open spec fn is_offset(offset: int) -> bool {
    -86_400 < offset < 86_400
}

/// Whether croner reads a text as a schedule.
pub uninterp spec fn cron_readable(expression: Seq<char>) -> bool;

/// What croner finds as the first time of a schedule after a point in time, on a clock that
/// is some seconds ahead of UTC; nothing where it reads no schedule or finds no time.
pub uninterp spec fn cron_next(expression: Seq<char>, after: DomainTime, offset: int) -> Option<
    DomainTime,
>;

/// `Cron::from_str` of croner: whether the text is a schedule. That is a function of the text
/// alone.
#[verifier::external_body]
pub(crate) fn reads_cron(expression: &str) -> (r: bool)
    ensures
        r == cron_readable(expression@),
{
    expression.parse::<croner::Cron>().is_ok()
}

/// `Cron::find_next_occurrence` of croner on a clock with a fixed offset, the start left out.
/// The result is a function of the text, the start and the offset. The search goes on from the
/// next second, so what it finds lies in a later second; it is found on the local clock, which
/// can show it.
#[verifier::external_body]
pub(crate) fn find_cron(expression: &str, after: DomainTime, offset: i32) -> (out: Option<DomainTime>)
    requires
        known_on(after, offset as int),
        is_offset(offset as int),
    ensures
        out == cron_next(expression@, after, offset as int),
        out matches Some(t) ==> after.seconds < t.seconds && known_on(t, offset as int),
{
    let zone = chrono::FixedOffset::east_opt(offset).unwrap();
    let start = chrono::DateTime::from_timestamp(after.seconds, after.nanos).unwrap_or_default();
    match expression.parse::<croner::Cron>() {
        Ok(schedule) => match schedule.find_next_occurrence(&start.with_timezone(&zone), false) {
            Ok(t) => Some(DomainTime { seconds: t.timestamp(), nanos: t.timestamp_subsec_nanos() }),
            Err(_) => None,
        },
        Err(_) => None,
    }
}

/// What chrono reads from a text as the seconds by which a clock is ahead of UTC.
pub uninterp spec fn offset_seconds(text: Seq<char>) -> Option<int>;

/// `FixedOffset::from_str` of chrono. The result is a function of the text alone, and less
/// than a day.
#[verifier::external_body]
pub(crate) fn read_offset(text: &str) -> (out: Option<i32>)
    ensures
        match out {
            Some(n) => offset_seconds(text@) == Some(n as int) && is_offset(n as int),
            None => offset_seconds(text@) is None,
        },
{
    match text.parse::<chrono::FixedOffset>() {
        Ok(zone) => Some(zone.local_minus_utc()),
        Err(_) => None,
    }
}

/// The later of the point from which to go on and the point that must have passed.
pub open spec fn effective_anchor(anchor: DomainTime, now: Option<DomainTime>) -> DomainTime {
    match now {
        Some(now) => if time_less(anchor, now) {
            now
        } else {
            anchor
        },
        None => anchor,
    }
}

/// When a schedule fires next, after the anchor and after `now`.
pub open spec fn next_fire(
    expression: Seq<char>,
    anchor: DomainTime,
    now: Option<DomainTime>,
    offset: int,
) -> Result<Option<DomainTime>, ErrorView> {
    match cron_next(expression, effective_anchor(anchor, now), offset) {
        Some(t) => Ok(Some(t)),
        None => Err(ErrorView::Failure { message: "Invalid cron expression"@ }),
    }
}

pub open spec fn fire_out(out: Result<Option<DomainTime>, SdkError>) -> Result<
    Option<DomainTime>,
    ErrorView,
> {
    match out {
        Ok(t) => Ok(t),
        Err(e) => Err(e@),
    }
}

/// When a schedule fires next, on a clock that is `offset` seconds ahead of UTC: after the
/// anchor, and after `now` where it is given.
pub fn compute_next_fire(
    cron_expr: &str,
    anchor: DomainTime,
    now: Option<DomainTime>,
    offset: i32,
) -> (out: Result<Option<DomainTime>, SdkError>)
    requires
        known_on(effective_anchor(anchor, now), offset as int),
        is_offset(offset as int),
    ensures
        fire_out(out) == next_fire(cron_expr@, anchor, now, offset as int),
        out matches Ok(Some(t)) ==> time_less(anchor, t)
            && (now matches Some(n) ==> time_less(n, t)),
        out is Ok ==> out->Ok_0 is Some,
{
    let start = match now {
        Some(now) => if is_earlier(anchor, now) {
            now
        } else {
            anchor
        },
        None => anchor,
    };
    match find_cron(cron_expr, start, offset) {
        Some(t) => Ok(Some(t)),
        None => Err(failure("Invalid cron expression")),
    }
}

/// The start of a window of minutes that ends at a point in time. A leap second is left for
/// the second before it or after it, towards which the window goes.
pub open spec fn window_start(current: DomainTime, minutes: int) -> DomainTime {
    if current.nanos < 1_000_000_000 || minutes == 0 {
        DomainTime { seconds: (current.seconds - 60 * minutes) as i64, nanos: current.nanos }
    } else if minutes > 0 {
        DomainTime {
            seconds: (current.seconds + 1 - 60 * minutes) as i64,
            nanos: (current.nanos - 1_000_000_000) as u32,
        }
    } else {
        DomainTime {
            seconds: (current.seconds - 60 * minutes) as i64,
            nanos: (current.nanos - 1_000_000_000) as u32,
        }
    }
}

/// Whether an event has a time, and that lies within a span.
pub open spec fn happened_within(e: MonitoringEvent, start: DomainTime, end: DomainTime) -> bool {
    rfc3339_time(e.timestamp@) matches Some(t) && !time_less(t, start) && !time_less(end, t)
}

/// The events that happened within the minutes before a point in time, in their order.
pub fn filter_events_at_time(
    all_events: &Vec<MonitoringEvent>,
    current: DomainTime,
    window_minutes: i64,
) -> (out: Vec<MonitoringEvent>)
    requires
        known_time(current),
        -153_722_867_280_912 <= window_minutes <= 153_722_867_280_912,
        known_time(window_start(current, window_minutes as int)),
    ensures
        out@ == all_events@.filter(
            |e: MonitoringEvent|
                happened_within(e, window_start(current, window_minutes as int), current),
        ),
{
    let start = if current.nanos < 1_000_000_000 || window_minutes == 0 {
        DomainTime { seconds: current.seconds - 60 * window_minutes, nanos: current.nanos }
    } else if window_minutes > 0 {
        DomainTime {
            seconds: current.seconds + 1 - 60 * window_minutes,
            nanos: current.nanos - 1_000_000_000,
        }
    } else {
        DomainTime {
            seconds: current.seconds - 60 * window_minutes,
            nanos: current.nanos - 1_000_000_000,
        }
    };
    let ghost keep = |e: MonitoringEvent|
        happened_within(e, window_start(current, window_minutes as int), current);
    let mut out: Vec<MonitoringEvent> = Vec::new();
    let mut i: usize = 0;
    proof {
        reveal(Seq::filter);
        assert(all_events@.take(0) =~= Seq::empty());
    }
    while i < all_events.len()
        invariant
            i <= all_events@.len(),
            start == window_start(current, window_minutes as int),
            keep == (|e: MonitoringEvent|
                happened_within(e, window_start(current, window_minutes as int), current)),
            out@ == all_events@.take(i as int).filter(keep),
        decreases all_events@.len() - i,
    {
        proof {
            reveal(Seq::filter);
            assert(all_events@.take(i + 1).drop_last() =~= all_events@.take(i as int));
        }
        if let Some(t) = read_rfc3339(all_events[i].timestamp.as_str()) {
            if !is_earlier(t, start) && !is_earlier(current, t) {
                out.push(all_events[i].duplicate_event());
            }
        }
        i = i + 1;
    }
    proof {
        assert(all_events@.take(i as int) =~= all_events@);
    }
    out
}

/// Whether one of the timings waits for events of a type.
pub open spec fn waits_for(timings: Seq<TriggerTiming>, event_type: Seq<char>) -> bool {
    exists|i: int| 0 <= i < timings.len() && is_event_of(#[trigger] timings[i], event_type)
}

pub open spec fn is_event_of(timing: TriggerTiming, event_type: Seq<char>) -> bool {
    timing matches TriggerTiming::Event { event_type: e } && e@ == event_type
}

pub open spec fn waits_for_events(timings: Seq<TriggerTiming>) -> bool {
    exists|i: int| 0 <= i < timings.len() && (#[trigger] timings[i]) is Event
}

/// Whether an event can be what made a trigger fire: of a type that it waits for, where it
/// waits for any, and not after it fired.
pub open spec fn is_cause(
    timings: Seq<TriggerTiming>,
    e: MonitoringEvent,
    fire_time: DomainTime,
) -> bool {
    &&& (!waits_for_events(timings) || waits_for(timings, e.event_type@))
    &&& rfc3339_time(e.timestamp@) matches Some(t) && !time_less(fire_time, t)
}

pub open spec fn event_time(e: MonitoringEvent) -> DomainTime {
    rfc3339_time(e.timestamp@)->0
}

/// Whether an event is the last of the latest that can have made a trigger fire.
pub open spec fn is_current(
    events: Seq<MonitoringEvent>,
    timings: Seq<TriggerTiming>,
    fire_time: DomainTime,
    at: int,
) -> bool {
    &&& 0 <= at < events.len()
    &&& is_cause(timings, events[at], fire_time)
    &&& forall|k: int|
        0 <= k < events.len() && is_cause(timings, #[trigger] events[k], fire_time) ==> !time_less(
            event_time(events[at]),
            event_time(events[k]),
        ) && (k > at ==> time_less(event_time(events[k]), event_time(events[at])))
}

fn has_event_timing(timings: &Vec<TriggerTiming>) -> (r: bool)
    ensures
        r == waits_for_events(timings@),
{
    let mut i: usize = 0;
    while i < timings.len()
        invariant
            i <= timings@.len(),
            forall|k: int| 0 <= k < i ==> !((#[trigger] timings@[k]) is Event),
        decreases timings@.len() - i,
    {
        if let TriggerTiming::Event { .. } = &timings[i] {
            return true;
        }
        i = i + 1;
    }
    false
}

fn has_timing_for(timings: &Vec<TriggerTiming>, event_type: &str) -> (r: bool)
    ensures
        r == waits_for(timings@, event_type@),
{
    let mut i: usize = 0;
    while i < timings.len()
        invariant
            i <= timings@.len(),
            forall|k: int| 0 <= k < i ==> !is_event_of(#[trigger] timings@[k], event_type@),
        decreases timings@.len() - i,
    {
        if let TriggerTiming::Event { event_type: e } = &timings[i] {
            if same(e.as_str(), event_type) {
                return true;
            }
        }
        i = i + 1;
    }
    false
}

/// The event that made a trigger fire: the latest that can have, and of those the last.
pub fn select_current_event<'a>(
    events: &'a Vec<MonitoringEvent>,
    timings: &Vec<TriggerTiming>,
    fire_time: DomainTime,
) -> (out: Option<&'a MonitoringEvent>)
    ensures
        match out {
            Some(e) => exists|at: int|
                #[trigger] is_current(events@, timings@, fire_time, at) && *e == events@[at],
            None => forall|k: int|
                0 <= k < events@.len() ==> !is_cause(timings@, #[trigger] events@[k], fire_time),
        },
{
    let waits = has_event_timing(timings);
    let mut best: usize = events.len();
    let mut best_time = DomainTime { seconds: 0, nanos: 0 };
    let mut i: usize = 0;
    while i < events.len()
        invariant
            i <= events@.len(),
            waits == waits_for_events(timings@),
            best == events@.len() ==> forall|k: int|
                0 <= k < i ==> !is_cause(timings@, #[trigger] events@[k], fire_time),
            best != events@.len() ==> {
                &&& best < i
                &&& is_cause(timings@, events@[best as int], fire_time)
                &&& best_time == event_time(events@[best as int])
                &&& forall|k: int|
                    0 <= k < i && is_cause(timings@, #[trigger] events@[k], fire_time)
                        ==> !time_less(best_time, event_time(events@[k])) && (k > best
                        ==> time_less(event_time(events@[k]), best_time))
            },
        decreases events@.len() - i,
    {
        let e = &events[i];
        if !waits || has_timing_for(timings, e.event_type.as_str()) {
            if let Some(t) = read_rfc3339(e.timestamp.as_str()) {
                if !is_earlier(fire_time, t) {
                    if best == events.len() || !is_earlier(t, best_time) {
                        best = i;
                        best_time = t;
                    }
                }
            }
        }
        i = i + 1;
    }
    if best == events.len() {
        None
    } else {
        proof {
            assert(is_current(events@, timings@, fire_time, best as int));
        }
        Some(&events[best])
    }
}

/// What stands between the first two of a character.
pub open spec fn between(s: Seq<char>, quote: char) -> Option<Seq<char>> {
    let from = first_index(s, quote);
    let rest = s.skip(from + 1);
    let to = first_index(rest, quote);
    if from < s.len() && to < rest.len() {
        Some(rest.take(to))
    } else {
        None
    }
}

/// The schedule in the text of a rule.
pub open spec fn rule_cron(rule: Seq<char>) -> Option<Seq<char>> {
    let s = trimmed(rule);
    if starts_with(s, "cron("@) {
        match between(s, '\'') {
            Some(expression) => Some(expression),
            None => between(s, '"'),
        }
    } else {
        None
    }
}

/// The schedule of the first rule with one.
pub open spec fn first_cron(rules: Seq<RuleView>) -> Option<Seq<char>>
    decreases rules.len(),
{
    if rules.len() == 0 {
        None
    } else {
        match rule_cron(rules[0].rule) {
            Some(expression) => Some(expression),
            None => first_cron(rules.drop_first()),
        }
    }
}

fn find_char(chars: &Vec<char>, from: usize, c: char) -> (at: usize)
    requires
        from <= chars@.len(),
    ensures
        at == from + first_index(chars@.skip(from as int), c),
        from <= at <= chars@.len(),
        at < chars@.len() ==> chars@[at as int] == c,
{
    let ghost rest = chars@.skip(from as int);
    let mut i: usize = from;
    proof {
        assert(rest.skip(0) =~= rest);
    }
    while i < chars.len() && chars[i] != c
        invariant
            from <= i <= chars@.len(),
            rest == chars@.skip(from as int),
            first_index(rest, c) == (i - from) + first_index(rest.skip(i - from), c),
        ensures
            i < chars@.len() ==> chars@[i as int] == c,
        decreases chars@.len() - i,
    {
        proof {
            let now = rest.skip(i - from);
            assert(now[0] == chars@[i as int]);
            assert(now.drop_first() =~= rest.skip(i + 1 - from));
        }
        i = i + 1;
    }
    proof {
        if i < chars@.len() {
            assert(rest.skip(i - from)[0] == chars@[i as int]);
        } else {
            assert(rest.skip(i - from) =~= Seq::empty());
        }
    }
    i
}

fn text_between(chars: &Vec<char>, quote: char) -> (out: Option<String>)
    ensures
        opt_view(out) == between(chars@, quote),
{
    proof {
        assert(chars@.skip(0) =~= chars@);
    }
    let from: usize = find_char(chars, 0, quote);
    if from == chars.len() {
        return None;
    }
    let to: usize = find_char(chars, from + 1, quote);
    if to == chars.len() {
        return None;
    }
    let text = text_of(chars, from + 1, to);
    proof {
        assert(text@ =~= chars@.skip(from + 1).take(to - from - 1));
    }
    Some(text)
}

/// The schedule of the first precondition with one.
pub fn extract_cron_from_preconditions(preconditions: &Vec<TriggerRule>) -> (out: Option<String>)
    ensures
        opt_view(out) == first_cron(rule_views(preconditions@)),
{
    let ghost all = rule_views(preconditions@);
    let mut i: usize = 0;
    proof {
        assert(all.skip(0) =~= all);
    }
    while i < preconditions.len()
        invariant
            i <= preconditions@.len(),
            all == rule_views(preconditions@),
            first_cron(all) == first_cron(all.skip(i as int)),
        decreases preconditions@.len() - i,
    {
        proof {
            assert(all.skip(i as int)[0] == preconditions@[i as int]@);
            assert(all.skip(i as int).drop_first() =~= all.skip(i + 1));
        }
        let text = trim(preconditions[i].rule.as_str());
        if has_prefix(text.as_str(), "cron(") {
            let chars = chars_of(text.as_str());
            match text_between(&chars, '\'') {
                Some(expression) => return Some(expression),
                None => {},
            }
            match text_between(&chars, '"') {
                Some(expression) => return Some(expression),
                None => {},
            }
        }
        i = i + 1;
    }
    proof {
        assert(all.skip(i as int) =~= Seq::empty());
    }
    None
}

/// What stands between a prefix and a closing bracket.
pub open spec fn bracketed(s: Seq<char>, prefix: Seq<char>) -> Option<Seq<char>> {
    if starts_with(s, prefix) && s.len() > prefix.len() && s.last() == ')' {
        Some(s.subrange(prefix.len() as int, s.len() - 1))
    } else {
        None
    }
}

fn text_bracketed(s: &str, prefix: &str) -> (out: Option<String>)
    ensures
        opt_view(out) == bracketed(s@, prefix@),
{
    let chars = chars_of(s);
    let from: usize = prefix.unicode_len();
    if has_prefix(s, prefix) && chars.len() > from && chars[chars.len() - 1] == ')' {
        Some(text_of(&chars, from, chars.len() - 1))
    } else {
        None
    }
}

/// A number of times; none where the text is no number.
pub open spec fn times_of(text: Seq<char>) -> Option<nat> {
    unsigned_value(trimmed(text), u32::MAX as nat)
}

/// What a rule says of how often a trigger may fire: `None` that it says nothing, and
/// `Some(None)` that what it says cannot be read.
pub open spec fn rule_frequency(rule: Seq<char>) -> Option<Option<RepeatFrequency>> {
    let s = trimmed(rule);
    match bracketed(s, "repeat_per_day("@) {
        Some(text) => match times_of(text) {
            Some(n) => if n > 0 {
                Some(Some(RepeatFrequency::PerDay(n as u32)))
            } else {
                None
            },
            None => Some(None),
        },
        None => match bracketed(s, "repeat_per_week("@) {
            Some(text) => match times_of(text) {
                Some(n) => if n > 0 {
                    Some(Some(RepeatFrequency::PerWeek(n as u32)))
                } else {
                    None
                },
                None => Some(None),
            },
            None => None,
        },
    }
}

/// What the first condition that says anything says of how often a trigger may fire.
pub open spec fn first_frequency(rules: Seq<RuleView>) -> Option<RepeatFrequency>
    decreases rules.len(),
{
    if rules.len() == 0 {
        None
    } else {
        match rule_frequency(rules[0].rule) {
            Some(frequency) => frequency,
            None => first_frequency(rules.drop_first()),
        }
    }
}

/// How often the conditions let a trigger fire.
pub fn extract_repeat_frequency_from_conditions(conditions: &Vec<TriggerRule>) -> (out: Option<
    RepeatFrequency,
>)
    ensures
        out == first_frequency(rule_views(conditions@)),
{
    let ghost all = rule_views(conditions@);
    let mut i: usize = 0;
    proof {
        assert(all.skip(0) =~= all);
    }
    while i < conditions.len()
        invariant
            i <= conditions@.len(),
            all == rule_views(conditions@),
            first_frequency(all) == first_frequency(all.skip(i as int)),
        decreases conditions@.len() - i,
    {
        proof {
            assert(all.skip(i as int)[0] == conditions@[i as int]@);
            assert(all.skip(i as int).drop_first() =~= all.skip(i + 1));
        }
        let text = trim(conditions[i].rule.as_str());
        if let Some(arg) = text_bracketed(text.as_str(), "repeat_per_day(") {
            let arg = trim(arg.as_str());
            match parse_unsigned(arg.as_str(), u32::MAX as u64) {
                Some(value) => {
                    if value > 0 {
                        return Some(RepeatFrequency::PerDay(value as u32));
                    }
                },
                None => return None,
            }
        } else if let Some(arg) = text_bracketed(text.as_str(), "repeat_per_week(") {
            let arg = trim(arg.as_str());
            match parse_unsigned(arg.as_str(), u32::MAX as u64) {
                Some(value) => {
                    if value > 0 {
                        return Some(RepeatFrequency::PerWeek(value as u32));
                    }
                },
                None => return None,
            }
        }
        i = i + 1;
    }
    proof {
        assert(all.skip(i as int) =~= Seq::empty());
    }
    None
}

/// The seconds that must pass between two firings: a day or a week by the number of times,
/// and one at least.
pub open spec fn min_gap(freq: RepeatFrequency) -> Option<int> {
    match freq {
        RepeatFrequency::PerDay(n) => if n == 0 {
            None
        } else if 86_400int / n as int >= 1 {
            Some(86_400int / n as int)
        } else {
            Some(1)
        },
        RepeatFrequency::PerWeek(n) => if n == 0 {
            None
        } else if 604_800int / n as int >= 1 {
            Some(604_800int / n as int)
        } else {
            Some(1)
        },
    }
}

/// The seconds that must pass between two firings.
pub fn repeat_min_gap(freq: &RepeatFrequency) -> (out: Option<i64>)
    ensures
        match out {
            Some(n) => min_gap(*freq) == Some(n as int),
            None => min_gap(*freq) is None,
        },
{
    let (span, times): (i64, u32) = match freq {
        RepeatFrequency::PerDay(times) => (86_400, *times),
        RepeatFrequency::PerWeek(times) => (604_800, *times),
    };
    if times == 0 {
        None
    } else {
        let seconds: i64 = span / times as i64;
        if seconds >= 1 {
            Some(seconds)
        } else {
            Some(1)
        }
    }
}

/// What the engine for rules makes of the text of one rule.
#[derive(Debug)]
pub enum TimerForm {
    /// The rule is no timer.
    Other,
    /// The rule is a timer: its value with the date filled in, or why that cannot be.
    Timer { normalized: Result<String, String> },
    /// The rule cannot be read.
    Unreadable { fault: String },
}

/// A precondition with the value of its timer filled in.
pub open spec fn normalized_rule(r: RuleView, form: TimerForm) -> Result<RuleView, ErrorView> {
    match form {
        TimerForm::Other => Ok(r),
        TimerForm::Timer { normalized } => match normalized {
            Ok(value) => Ok(RuleView { rule: "timer(\""@ + value@ + "\")"@, description: r.description }),
            Err(e) => Err(
                ErrorView::Failure {
                    message: "Failed to normalize timer precondition '"@ + r.description + "': "@
                        + e@,
                },
            ),
        },
        TimerForm::Unreadable { fault } => Err(
            ErrorView::Failure { message: "Failed to extract timing: "@ + fault@ },
        ),
    }
}

/// Preconditions with the values of their timers filled in; the first refusal stands.
pub open spec fn normalized_rules(rules: Seq<RuleView>, forms: Seq<TimerForm>) -> Result<
    Seq<RuleView>,
    ErrorView,
>
    decreases rules.len(),
{
    if rules.len() == 0 {
        Ok(Seq::empty())
    } else {
        match normalized_rules(rules.drop_last(), forms) {
            Err(e) => Err(e),
            Ok(done) => match normalized_rule(rules.last(), forms[rules.len() - 1]) {
                Err(e) => Err(e),
                Ok(r) => Ok(done.push(r)),
            },
        }
    }
}

proof fn lemma_rules_error(rules: Seq<RuleView>, forms: Seq<TimerForm>, n: int)
    requires
        0 <= n <= rules.len(),
        normalized_rules(rules.take(n), forms) is Err,
    ensures
        normalized_rules(rules, forms) == normalized_rules(rules.take(n), forms),
    decreases rules.len() - n,
{
    if n < rules.len() {
        assert(rules.take(n + 1).drop_last() =~= rules.take(n));
        lemma_rules_error(rules, forms, n + 1);
    } else {
        assert(rules.take(n) =~= rules);
    }
}

pub open spec fn rules_out(out: Result<Vec<TriggerRule>, SdkError>) -> Result<
    Seq<RuleView>,
    ErrorView,
> {
    match out {
        Ok(rules) => Ok(rule_views(rules@)),
        Err(e) => Err(e@),
    }
}

/// Fills in the values of timers: `forms` is what the engine for rules makes of each
/// precondition.
pub fn normalize_timer_preconditions(preconditions: &Vec<TriggerRule>, forms: &Vec<TimerForm>) -> (
out: Result<Vec<TriggerRule>, SdkError>)
    requires
        forms@.len() == preconditions@.len(),
    ensures
        rules_out(out) == normalized_rules(rule_views(preconditions@), forms@),
{
    let ghost all = rule_views(preconditions@);
    let mut out: Vec<TriggerRule> = Vec::new();
    let mut i: usize = 0;
    proof {
        assert(all.take(0) =~= Seq::empty());
        assert(rule_views(out@) =~= Seq::empty());
    }
    while i < preconditions.len()
        invariant
            i <= preconditions@.len(),
            forms@.len() == preconditions@.len(),
            all == rule_views(preconditions@),
            normalized_rules(all.take(i as int), forms@) == Ok::<Seq<RuleView>, ErrorView>(
                rule_views(out@),
            ),
        decreases preconditions@.len() - i,
    {
        proof {
            assert(all.take(i + 1).drop_last() =~= all.take(i as int));
            assert(all.take(i + 1).last() == preconditions@[i as int]@);
        }
        let r = &preconditions[i];
        let rule = match &forms[i] {
            TimerForm::Other => r.duplicate_rule(),
            TimerForm::Timer { normalized } => match normalized {
                Ok(value) => TriggerRule {
                    rule: cat3("timer(\"", value.as_str(), "\")"),
                    description: r.description.clone(),
                },
                Err(e) => {
                    proof {
                        lemma_rules_error(all, forms@, i + 1);
                    }
                    let head = cat3(
                        "Failed to normalize timer precondition '",
                        r.description.as_str(),
                        "': ",
                    );
                    let message = cat(head.as_str(), e.as_str());
                    return Err(failure(message.as_str()));
                },
            },
            TimerForm::Unreadable { fault } => {
                proof {
                    lemma_rules_error(all, forms@, i + 1);
                }
                let message = cat("Failed to extract timing: ", fault.as_str());
                return Err(failure(message.as_str()));
            },
        };
        let ghost was = out@;
        out.push(rule);
        proof {
            assert(rule_views(out@) =~= rule_views(was).push(out@.last()@));
        }
        i = i + 1;
    }
    proof {
        assert(all.take(i as int) =~= all);
    }
    Ok(out)
}

/// What the engine for rules makes of the value of a timer: a point in time, or why not.
pub type TimerResult = Result<DomainTime, String>;

pub open spec fn timer_fault(value: Seq<char>, fault: Seq<char>) -> ErrorView {
    ErrorView::Failure {
        message: "Failed to resolve timer precondition '"@ + value + "': "@ + fault,
    }
}

fn timer_failure(value: &String, fault: &String) -> (e: SdkError)
    ensures
        e@ == timer_fault(value@, fault@),
{
    let head = cat3("Failed to resolve timer precondition '", value.as_str(), "': ");
    let message = cat(head.as_str(), fault.as_str());
    failure(message.as_str())
}

/// When a timing lets a new trigger fire.
pub open spec fn registered_fire(
    timing: TriggerTiming,
    timer: TimerResult,
    anchor: DomainTime,
    offset: int,
) -> Result<Option<DomainTime>, ErrorView> {
    match timing {
        TriggerTiming::Cron { expression } => next_fire(
            expression@,
            anchor,
            Some(anchor),
            offset,
        ),
        TriggerTiming::Timer { value } => match timer {
            Ok(at) => Ok(
                Some(
                    if time_less(anchor, at) {
                        at
                    } else {
                        anchor
                    },
                ),
            ),
            Err(e) => Err(timer_fault(value@, e@)),
        },
        _ => Ok(None),
    }
}

/// When a timing lets a trigger fire again.
pub open spec fn repeated_fire(
    timing: TriggerTiming,
    timer: TimerResult,
    fire_time: DomainTime,
    lower_bound: DomainTime,
    offset: int,
) -> Result<Option<DomainTime>, ErrorView> {
    match timing {
        TriggerTiming::Cron { expression } => next_fire(
            expression@,
            fire_time,
            Some(lower_bound),
            offset,
        ),
        TriggerTiming::Timer { value } => match timer {
            Ok(at) => Ok(
                if time_less(lower_bound, at) {
                    Some(at)
                } else {
                    None
                },
            ),
            Err(e) => Err(timer_fault(value@, e@)),
        },
        _ => Ok(None),
    }
}

/// The earliest of the times that there are; the first refusal stands.
pub open spec fn earliest(fires: Seq<Result<Option<DomainTime>, ErrorView>>) -> Result<
    Option<DomainTime>,
    ErrorView,
>
    decreases fires.len(),
{
    if fires.len() == 0 {
        Ok(None)
    } else {
        match earliest(fires.drop_last()) {
            Err(e) => Err(e),
            Ok(best) => match fires.last() {
                Err(e) => Err(e),
                Ok(None) => Ok(best),
                Ok(Some(t)) => Ok(
                    Some(
                        match best {
                            Some(b) => earlier_of(b, t),
                            None => t,
                        },
                    ),
                ),
            },
        }
    }
}

proof fn lemma_earliest_error(fires: Seq<Result<Option<DomainTime>, ErrorView>>, n: int)
    requires
        0 <= n <= fires.len(),
        earliest(fires.take(n)) is Err,
    ensures
        earliest(fires) == earliest(fires.take(n)),
    decreases fires.len() - n,
{
    if n < fires.len() {
        assert(fires.take(n + 1).drop_last() =~= fires.take(n));
        lemma_earliest_error(fires, n + 1);
    } else {
        assert(fires.take(n) =~= fires);
    }
}

/// The earliest of some times is one of them, and none of them comes before it.
pub proof fn law_earliest(fires: Seq<Result<Option<DomainTime>, ErrorView>>)
    requires
        earliest(fires) is Ok,
    ensures
        match earliest(fires)->Ok_0 {
            Some(t) => fires.contains(Ok(Some(t))) && forall|i: int|
                0 <= i < fires.len() && (#[trigger] fires[i])->Ok_0 is Some ==> !time_less(
                    fires[i]->Ok_0->0,
                    t,
                ),
            None => forall|i: int| 0 <= i < fires.len() ==> (#[trigger] fires[i]) == Ok::<
                Option<DomainTime>,
                ErrorView,
            >(None),
        },
        forall|i: int| 0 <= i < fires.len() ==> (#[trigger] fires[i]) is Ok,
    decreases fires.len(),
{
    if fires.len() > 0 {
        let init = fires.drop_last();
        law_earliest(init);
        assert forall|i: int| 0 <= i < fires.len() implies (#[trigger] fires[i]) is Ok by {
            if i < init.len() {
                assert(init[i] == fires[i]);
            }
        }
        match earliest(fires)->Ok_0 {
            Some(t) => {
                if earliest(init)->Ok_0 == Some(t) {
                    let k = choose|k: int|
                        0 <= k < init.len() && init[k] == Ok::<Option<DomainTime>, ErrorView>(
                            Some(t),
                        );
                    assert(fires[k] == init[k]);
                } else {
                    assert(fires[fires.len() - 1] == fires.last());
                }
                assert forall|i: int|
                    0 <= i < fires.len() && (#[trigger] fires[i])->Ok_0 is Some implies !time_less(
                    fires[i]->Ok_0->0,
                    t,
                ) by {
                    if i < init.len() {
                        assert(init[i] == fires[i]);
                    }
                }
            },
            None => {
                assert forall|i: int| 0 <= i < fires.len() implies (#[trigger] fires[i]) == Ok::<
                    Option<DomainTime>,
                    ErrorView,
                >(None) by {
                    if i < init.len() {
                        assert(init[i] == fires[i]);
                    }
                }
            },
        }
    }
}

pub open spec fn registered_fires(
    timings: Seq<TriggerTiming>,
    timers: Seq<TimerResult>,
    anchor: DomainTime,
    offset: int,
) -> Seq<Result<Option<DomainTime>, ErrorView>> {
    Seq::new(timings.len(), |i: int| registered_fire(timings[i], timers[i], anchor, offset))
}

pub open spec fn repeated_fires(
    timings: Seq<TriggerTiming>,
    timers: Seq<TimerResult>,
    fire_time: DomainTime,
    lower_bound: DomainTime,
    offset: int,
) -> Seq<Result<Option<DomainTime>, ErrorView>> {
    Seq::new(
        timings.len(),
        |i: int| repeated_fire(timings[i], timers[i], fire_time, lower_bound, offset),
    )
}

/// Whether one of the timings can make a trigger fire.
pub open spec fn can_fire(timings: Seq<TriggerTiming>) -> bool {
    exists|i: int| 0 <= i < timings.len() && !((#[trigger] timings[i]) is RepeatFrequency)
}

/// When a new trigger fires first; never where it only waits for events.
pub open spec fn registration_fire(
    timings: Seq<TriggerTiming>,
    timers: Seq<TimerResult>,
    anchor: DomainTime,
    offset: int,
) -> Result<Option<DomainTime>, ErrorView> {
    match earliest(registered_fires(timings, timers, anchor, offset)) {
        Err(e) => Err(e),
        Ok(Some(t)) => Ok(Some(t)),
        Ok(None) => if can_fire(timings) {
            Ok(None)
        } else {
            Err(
                ErrorView::Failure {
                    message: "No supported timing found in trigger rules (expected cron(...), timer(...), or event(...))."@,
                },
            )
        },
    }
}

fn keep_earlier(best: Option<DomainTime>, t: DomainTime) -> (out: Option<DomainTime>)
    ensures
        out == Some(
            match best {
                Some(b) => earlier_of(b, t),
                None => t,
            },
        ),
{
    match best {
        Some(b) => if is_earlier(t, b) {
            Some(t)
        } else {
            Some(b)
        },
        None => Some(t),
    }
}

/// When a new trigger fires first, on a clock that is `offset` seconds ahead of UTC: `timers`
/// is what the engine for rules makes of the value of each timing that is a timer.
pub fn resolve_registration_next_fire(
    timings: &Vec<TriggerTiming>,
    timers: &Vec<TimerResult>,
    anchor: DomainTime,
    offset: i32,
) -> (out: Result<Option<DomainTime>, SdkError>)
    requires
        timers@.len() == timings@.len(),
        known_on(anchor, offset as int),
        is_offset(offset as int),
    ensures
        fire_out(out) == registration_fire(timings@, timers@, anchor, offset as int),
        out matches Ok(Some(t)) ==> !time_less(t, anchor),
{
    let ghost fires = registered_fires(timings@, timers@, anchor, offset as int);
    let mut best: Option<DomainTime> = None;
    let mut supported = false;
    let mut i: usize = 0;
    proof {
        assert(fires.take(0) =~= Seq::empty());
    }
    while i < timings.len()
        invariant
            i <= timings@.len(),
            timers@.len() == timings@.len(),
            known_on(anchor, offset as int),
            is_offset(offset as int),
            fires == registered_fires(timings@, timers@, anchor, offset as int),
            earliest(fires.take(i as int)) == Ok::<Option<DomainTime>, ErrorView>(best),
            best matches Some(t) ==> !time_less(t, anchor),
            supported == exists|k: int|
                0 <= k < i && !((#[trigger] timings@[k]) is RepeatFrequency),
        decreases timings@.len() - i,
    {
        proof {
            assert(fires.take(i + 1).drop_last() =~= fires.take(i as int));
            assert(fires.take(i + 1).last() == registered_fire(
                timings@[i as int],
                timers@[i as int],
                anchor,
                offset as int,
            ));
        }
        match &timings[i] {
            TriggerTiming::Cron { expression } => {
                supported = true;
                match compute_next_fire(expression.as_str(), anchor, Some(anchor), offset) {
                    Ok(Some(t)) => {
                        best = keep_earlier(best, t);
                    },
                    Ok(None) => {},
                    Err(e) => {
                        proof {
                            lemma_earliest_error(fires, i + 1);
                        }
                        return Err(e);
                    },
                }
            },
            TriggerTiming::Timer { value } => {
                supported = true;
                match &timers[i] {
                    Ok(at) => {
                        let due = if is_earlier(anchor, *at) {
                            *at
                        } else {
                            anchor
                        };
                        best = keep_earlier(best, due);
                    },
                    Err(e) => {
                        proof {
                            lemma_earliest_error(fires, i + 1);
                        }
                        return Err(timer_failure(value, e));
                    },
                }
            },
            TriggerTiming::Event { .. } => {
                supported = true;
            },
            TriggerTiming::RepeatFrequency { .. } => {},
        }
        proof {
            if supported && timings@[i as int] is RepeatFrequency {
            } else if supported {
                assert(!(timings@[i as int] is RepeatFrequency));
            }
        }
        i = i + 1;
    }
    proof {
        assert(fires.take(i as int) =~= fires);
    }
    match best {
        Some(t) => Ok(Some(t)),
        None => if supported {
            Ok(None)
        } else {
            Err(
                failure(
                    "No supported timing found in trigger rules (expected cron(...), timer(...), or event(...)).",
                ),
            )
        },
    }
}

/// When a trigger that fired fires again, on a clock that is `offset` seconds ahead of UTC:
/// after `lower_bound`, or never.
pub fn resolve_post_run_next_fire(
    timings: &Vec<TriggerTiming>,
    timers: &Vec<TimerResult>,
    fire_time: DomainTime,
    lower_bound: DomainTime,
    offset: i32,
) -> (out: Result<Option<DomainTime>, SdkError>)
    requires
        timers@.len() == timings@.len(),
        known_on(fire_time, offset as int),
        known_on(lower_bound, offset as int),
        is_offset(offset as int),
    ensures
        fire_out(out) == earliest(
            repeated_fires(timings@, timers@, fire_time, lower_bound, offset as int),
        ),
        out matches Ok(Some(t)) ==> time_less(lower_bound, t),
{
    let ghost fires = repeated_fires(timings@, timers@, fire_time, lower_bound, offset as int);
    let mut best: Option<DomainTime> = None;
    let mut i: usize = 0;
    proof {
        assert(fires.take(0) =~= Seq::empty());
    }
    while i < timings.len()
        invariant
            i <= timings@.len(),
            timers@.len() == timings@.len(),
            known_on(fire_time, offset as int),
            known_on(lower_bound, offset as int),
            is_offset(offset as int),
            fires == repeated_fires(timings@, timers@, fire_time, lower_bound, offset as int),
            earliest(fires.take(i as int)) == Ok::<Option<DomainTime>, ErrorView>(best),
            best matches Some(t) ==> time_less(lower_bound, t),
        decreases timings@.len() - i,
    {
        proof {
            assert(fires.take(i + 1).drop_last() =~= fires.take(i as int));
            assert(fires.take(i + 1).last() == repeated_fire(
                timings@[i as int],
                timers@[i as int],
                fire_time,
                lower_bound,
                offset as int,
            ));
        }
        match &timings[i] {
            TriggerTiming::Cron { expression } => {
                match compute_next_fire(expression.as_str(), fire_time, Some(lower_bound), offset) {
                    Ok(Some(t)) => {
                        best = keep_earlier(best, t);
                    },
                    Ok(None) => {},
                    Err(e) => {
                        proof {
                            lemma_earliest_error(fires, i + 1);
                        }
                        return Err(e);
                    },
                }
            },
            TriggerTiming::Timer { value } => match &timers[i] {
                Ok(at) => {
                    if is_earlier(lower_bound, *at) {
                        best = keep_earlier(best, *at);
                    }
                },
                Err(e) => {
                    proof {
                        lemma_earliest_error(fires, i + 1);
                    }
                    return Err(timer_failure(value, e));
                },
            },
            _ => {},
        }
        i = i + 1;
    }
    proof {
        assert(fires.take(i as int) =~= fires);
    }
    Ok(best)
}

/// The times of a schedule after a point in time, as far as the end; nothing where croner
/// finds no next time.
pub open spec fn cron_times(
    expression: Seq<char>,
    after: DomainTime,
    end: DomainTime,
    offset: int,
) -> Option<Set<DomainTime>>
    decreases end.seconds - after.seconds,
{
    match cron_next(expression, after, offset) {
        None => None,
        Some(t) => if time_less(end, t) || t.seconds <= after.seconds {
            Some(Set::empty())
        } else {
            match cron_times(expression, t, end, offset) {
                None => None,
                Some(rest) => Some(rest.insert(t)),
            }
        },
    }
}

/// The times of the events of a type within a span.
pub open spec fn event_times(
    events: Seq<MonitoringEvent>,
    event_type: Seq<char>,
    start: DomainTime,
    end: DomainTime,
) -> Set<DomainTime> {
    Set::new(
        |t: DomainTime|
            exists|k: int|
                0 <= k < events.len() && (#[trigger] events[k]).event_type@ == event_type
                    && happened_within(events[k], start, end) && event_time(events[k]) == t,
    )
}

/// The times at which a timing makes a trigger fire within a span.
pub open spec fn timing_times(
    timing: TriggerTiming,
    timer: TimerResult,
    events: Seq<MonitoringEvent>,
    start: DomainTime,
    end: DomainTime,
    offset: int,
) -> Result<Set<DomainTime>, ErrorView> {
    match timing {
        TriggerTiming::Cron { expression } => if !cron_readable(expression@) {
            Err(ErrorView::Failure { message: "Invalid cron expression: "@ + expression@ })
        } else {
            match cron_times(expression@, start, end, offset) {
                Some(times) => Ok(times),
                None => Err(
                    ErrorView::Failure {
                        message: "Failed to find next occurrence for cron: "@ + expression@,
                    },
                ),
            }
        },
        TriggerTiming::Timer { value } => match timer {
            Ok(at) => if !time_less(at, start) && !time_less(end, at) {
                Ok(set![at])
            } else {
                Ok(Set::empty())
            },
            Err(e) => Err(timer_fault(value@, e@)),
        },
        TriggerTiming::Event { event_type } => Ok(event_times(events, event_type@, start, end)),
        TriggerTiming::RepeatFrequency { frequency } => Ok(Set::empty()),
    }
}

/// The times at which the timings make a trigger fire within a span; the first refusal stands.
pub open spec fn all_times(
    timings: Seq<TriggerTiming>,
    timers: Seq<TimerResult>,
    events: Seq<MonitoringEvent>,
    start: DomainTime,
    end: DomainTime,
    offset: int,
) -> Result<Set<DomainTime>, ErrorView>
    decreases timings.len(),
{
    if timings.len() == 0 {
        Ok(Set::empty())
    } else {
        match all_times(timings.drop_last(), timers, events, start, end, offset) {
            Err(e) => Err(e),
            Ok(times) => match timing_times(
                timings.last(),
                timers[timings.len() - 1],
                events,
                start,
                end,
                offset,
            ) {
                Err(e) => Err(e),
                Ok(more) => Ok(times.union(more)),
            },
        }
    }
}

proof fn lemma_times_error(
    timings: Seq<TriggerTiming>,
    timers: Seq<TimerResult>,
    events: Seq<MonitoringEvent>,
    start: DomainTime,
    end: DomainTime,
    offset: int,
    n: int,
)
    requires
        0 <= n <= timings.len(),
        all_times(timings.take(n), timers, events, start, end, offset) is Err,
    ensures
        all_times(timings, timers, events, start, end, offset) == all_times(
            timings.take(n),
            timers,
            events,
            start,
            end,
            offset,
        ),
    decreases timings.len() - n,
{
    if n < timings.len() {
        assert(timings.take(n + 1).drop_last() =~= timings.take(n));
        lemma_times_error(timings, timers, events, start, end, offset, n + 1);
    } else {
        assert(timings.take(n) =~= timings);
    }
}

/// Times in order, none of them twice.
pub open spec fn in_order(times: Seq<DomainTime>) -> bool {
    forall|i: int, j: int| 0 <= i < j < times.len() ==> time_less(
        #[trigger] times[i],
        #[trigger] times[j],
    )
}

fn insert_time(times: &mut Vec<DomainTime>, t: DomainTime)
    requires
        in_order(old(times)@),
    ensures
        in_order(final(times)@),
        final(times)@.to_set() == old(times)@.to_set().insert(t),
{
    let ghost was = times@;
    let mut i: usize = 0;
    while i < times.len() && is_earlier(times[i], t)
        invariant
            i <= times@.len(),
            times@ == was,
            forall|k: int| 0 <= k < i ==> time_less(#[trigger] times@[k], t),
        ensures
            i < times@.len() ==> !time_less(times@[i as int], t),
        decreases times@.len() - i,
    {
        i = i + 1;
    }
    if i < times.len() && !is_earlier(t, times[i]) {
        proof {
            assert(times@[i as int] == t);
            assert(times@.to_set() =~= was.to_set().insert(t));
        }
        return ;
    }
    times.insert(i, t);
    proof {
        assert(times@ =~= was.insert(i as int, t));
        assert forall|a: int, b: int| 0 <= a < b < times@.len() implies time_less(
            #[trigger] times@[a],
            #[trigger] times@[b],
        ) by {
            if a < i && b < i {
                assert(time_less(was[a], was[b]));
            } else if a < i && b == i {
            } else if a < i {
                assert(time_less(was[a], was[b - 1]));
            } else if a == i {
                if b - 1 > i {
                    assert(time_less(was[i as int], was[b - 1]));
                }
            } else {
                assert(time_less(was[a - 1], was[b - 1]));
            }
        }
        assert(times@.to_set() =~= was.to_set().insert(t)) by {
            assert forall|x: DomainTime|
                times@.to_set().contains(x) implies #[trigger] was.to_set().insert(
                t,
            ).contains(x) by {
                let k = choose|k: int| 0 <= k < times@.len() && times@[k] == x;
                if k < i {
                    assert(was[k] == x);
                } else if k > i {
                    assert(was[k - 1] == x);
                }
            }
            assert forall|x: DomainTime|
                #[trigger] was.to_set().insert(t).contains(x) implies times@.to_set().contains(
                x,
            ) by {
                if x == t {
                    assert(times@[i as int] == x);
                } else {
                    let k = choose|k: int| 0 <= k < was.len() && was[k] == x;
                    if k < i {
                        assert(times@[k] == x);
                    } else {
                        assert(times@[k + 1] == x);
                    }
                }
            }
        }
    }
}

fn insert_cron_times(
    times: &mut Vec<DomainTime>,
    expression: &str,
    start: DomainTime,
    end: DomainTime,
    offset: i32,
) -> (found: bool)
    requires
        in_order(old(times)@),
        known_on(start, offset as int),
        is_offset(offset as int),
    ensures
        in_order(final(times)@),
        match cron_times(expression@, start, end, offset as int) {
            Some(more) => found && final(times)@.to_set() == old(times)@.to_set().union(more),
            None => !found,
        },
{
    let ghost was = times@.to_set();
    let ghost whole = cron_times(expression@, start, end, offset as int);
    let ghost mut done: Set<DomainTime> = Set::empty();
    let mut after = start;
    proof {
        assert(was.union(done) =~= was);
        assert(whole matches Some(all) ==> all =~= done.union(all));
    }
    loop
        invariant
            in_order(times@),
            known_on(after, offset as int),
            is_offset(offset as int),
            times@.to_set() == was.union(done),
            match cron_times(expression@, after, end, offset as int) {
                Some(rest) => whole == Some(done.union(rest)),
                None => whole is None,
            },
            whole == cron_times(expression@, start, end, offset as int),
            was == old(times)@.to_set(),
        decreases end.seconds - after.seconds + 1,
    {
        match find_cron(expression, after, offset) {
            None => {
                return false;
            },
            Some(t) => {
                if is_earlier(end, t) {
                    proof {
                        assert(done.union(Set::<DomainTime>::empty()) =~= done);
                    }
                    return true;
                }
                let ghost before = times@.to_set();
                insert_time(times, t);
                proof {
                    assert(times@.to_set() =~= was.union(done.insert(t)));
                    match cron_times(expression@, t, end, offset as int) {
                        Some(rest) => {
                            assert(done.union(rest.insert(t)) =~= done.insert(t).union(rest));
                        },
                        None => {},
                    }
                    done = done.insert(t);
                }
                after = t;
            },
        }
    }
}

fn insert_event_times(
    times: &mut Vec<DomainTime>,
    events: &Vec<MonitoringEvent>,
    event_type: &str,
    start: DomainTime,
    end: DomainTime,
)
    requires
        in_order(old(times)@),
    ensures
        in_order(final(times)@),
        final(times)@.to_set() == old(times)@.to_set().union(
            event_times(events@, event_type@, start, end),
        ),
{
    let ghost was = times@.to_set();
    let mut i: usize = 0;
    proof {
        assert(event_times(events@.take(0), event_type@, start, end) =~= Set::empty());
        assert(was.union(Set::<DomainTime>::empty()) =~= was);
    }
    while i < events.len()
        invariant
            i <= events@.len(),
            in_order(times@),
            times@.to_set() == was.union(
                event_times(events@.take(i as int), event_type@, start, end),
            ),
        decreases events@.len() - i,
    {
        let ghost now = event_times(events@.take(i as int), event_type@, start, end);
        let ghost next = event_times(events@.take(i + 1), event_type@, start, end);
        let ghost e = events@[i as int];
        proof {
            let counts = e.event_type@ == event_type@ && happened_within(e, start, end);
            assert forall|x: DomainTime| #[trigger] next.contains(x) implies now.contains(x) || (
            counts && x == event_time(e)) by {
                let k = choose|k: int|
                    0 <= k < i + 1 && (#[trigger] events@.take(i + 1)[k]).event_type@ == event_type@
                        && happened_within(events@.take(i + 1)[k], start, end) && event_time(
                        events@.take(i + 1)[k],
                    ) == x;
                if k < i {
                    assert(events@.take(i as int)[k] == events@.take(i + 1)[k]);
                }
            }
            assert forall|x: DomainTime| #[trigger] now.contains(x) implies next.contains(x) by {
                let k = choose|k: int|
                    0 <= k < i && (#[trigger] events@.take(i as int)[k]).event_type@ == event_type@
                        && happened_within(events@.take(i as int)[k], start, end) && event_time(
                        events@.take(i as int)[k],
                    ) == x;
                assert(events@.take(i as int)[k] == events@.take(i + 1)[k]);
            }
            assert(events@.take(i + 1)[i as int] == e);
            if counts {
                assert(next.contains(event_time(e)));
                assert(next =~= now.insert(event_time(e)));
                assert(was.union(now).insert(event_time(e)) =~= was.union(next));
            } else {
                assert(next =~= now);
            }
        }
        if same(events[i].event_type.as_str(), event_type) {
            if let Some(t) = read_rfc3339(events[i].timestamp.as_str()) {
                if !is_earlier(t, start) && !is_earlier(end, t) {
                    insert_time(times, t);
                }
            }
        }
        i = i + 1;
    }
    proof {
        assert(events@.take(i as int) =~= events@);
    }
}

/// The offset that a text names, or the one that holds by default.
pub open spec fn zone_of(text: Seq<char>, default: int) -> int {
    match offset_seconds(text) {
        Some(n) => n,
        None => default,
    }
}

/// The times at which a trigger fires between a start and an end, in order, none of them
/// twice. `timers` is what the engine for rules makes of the value of each timing that is a
/// timer; schedules run on the clock of the zone that is named, or of the default where the
/// name cannot be read.
pub fn build_trigger_occurrences(
    timings: &Vec<TriggerTiming>,
    timers: &Vec<TimerResult>,
    all_events: &Vec<MonitoringEvent>,
    start: DomainTime,
    end: DomainTime,
    timezone_offset: &str,
    default_offset: i32,
) -> (out: Result<Vec<DomainTime>, SdkError>)
    requires
        timers@.len() == timings@.len(),
        FIRST_SECOND + 86_399 <= start.seconds <= LAST_SECOND - 86_399,
        fits_second(start),
        is_offset(default_offset as int),
    ensures
        match all_times(
            timings@,
            timers@,
            all_events@,
            start,
            end,
            zone_of(timezone_offset@, default_offset as int),
        ) {
            Ok(times) => out matches Ok(list) && in_order(list@) && list@.to_set() == times,
            Err(e) => out matches Err(o) && o@ == e,
        },
{
    let offset: i32 = match read_offset(timezone_offset) {
        Some(n) => n,
        None => default_offset,
    };
    let mut times: Vec<DomainTime> = Vec::new();
    let mut i: usize = 0;
    proof {
        assert(timings@.take(0) =~= Seq::empty());
        assert(times@.to_set() =~= Set::empty());
    }
    while i < timings.len()
        invariant
            i <= timings@.len(),
            timers@.len() == timings@.len(),
            known_on(start, offset as int),
            is_offset(offset as int),
            offset as int == zone_of(timezone_offset@, default_offset as int),
            in_order(times@),
            all_times(timings@.take(i as int), timers@, all_events@, start, end, offset as int)
                == Ok::<Set<DomainTime>, ErrorView>(times@.to_set()),
        decreases timings@.len() - i,
    {
        proof {
            assert(timings@.take(i + 1).drop_last() =~= timings@.take(i as int));
            assert(timings@.take(i + 1).last() == timings@[i as int]);
        }
        let ghost was = times@.to_set();
        match &timings[i] {
            TriggerTiming::Cron { expression } => {
                if !reads_cron(expression.as_str()) {
                    proof {
                        lemma_times_error(
                            timings@,
                            timers@,
                            all_events@,
                            start,
                            end,
                            offset as int,
                            i + 1,
                        );
                    }
                    let message = cat("Invalid cron expression: ", expression.as_str());
                    return Err(failure(message.as_str()));
                }
                let found = insert_cron_times(&mut times, expression.as_str(), start, end, offset);
                if !found {
                    proof {
                        lemma_times_error(
                            timings@,
                            timers@,
                            all_events@,
                            start,
                            end,
                            offset as int,
                            i + 1,
                        );
                    }
                    let message = cat(
                        "Failed to find next occurrence for cron: ",
                        expression.as_str(),
                    );
                    return Err(failure(message.as_str()));
                }
            },
            TriggerTiming::Timer { value } => match &timers[i] {
                Ok(at) => {
                    if !is_earlier(*at, start) && !is_earlier(end, *at) {
                        insert_time(&mut times, *at);
                        proof {
                            assert(was.insert(*at) =~= was.union(set![*at]));
                        }
                    } else {
                        proof {
                            assert(was.union(Set::<DomainTime>::empty()) =~= was);
                        }
                    }
                },
                Err(e) => {
                    proof {
                        lemma_times_error(
                            timings@,
                            timers@,
                            all_events@,
                            start,
                            end,
                            offset as int,
                            i + 1,
                        );
                    }
                    return Err(timer_failure(value, e));
                },
            },
            TriggerTiming::Event { event_type } => {
                insert_event_times(&mut times, all_events, event_type.as_str(), start, end);
            },
            TriggerTiming::RepeatFrequency { .. } => {
                proof {
                    assert(was.union(Set::<DomainTime>::empty()) =~= was);
                }
            },
        }
        i = i + 1;
    }
    proof {
        assert(timings@.take(i as int) =~= timings@);
    }
    Ok(times)
}

/// Nothing happens outside the span that was asked for.
pub proof fn law_times_within_span(
    timings: Seq<TriggerTiming>,
    timers: Seq<TimerResult>,
    events: Seq<MonitoringEvent>,
    start: DomainTime,
    end: DomainTime,
    offset: int,
)
    requires
        timings.len() <= timers.len(),
        all_times(timings, timers, events, start, end, offset) is Ok,
    ensures
        forall|t: DomainTime| #[trigger]
            all_times(timings, timers, events, start, end, offset)->Ok_0.contains(t)
                ==> !time_less(t, start) && !time_less(end, t),
    decreases timings.len(),
{
    if timings.len() > 0 {
        law_times_within_span(timings.drop_last(), timers, events, start, end, offset);
        if let TriggerTiming::Cron { expression } = timings.last() {
            lemma_cron_times_within(expression@, start, end, offset);
        }
    }
}

proof fn lemma_cron_times_within(
    expression: Seq<char>,
    after: DomainTime,
    end: DomainTime,
    offset: int,
)
    requires
        cron_times(expression, after, end, offset) is Some,
    ensures
        forall|t: DomainTime| #[trigger]
            cron_times(expression, after, end, offset)->0.contains(t) ==> time_less(after, t)
                && !time_less(end, t),
    decreases end.seconds - after.seconds,
{
    let next = cron_next(expression, after, offset)->0;
    if !(time_less(end, next) || next.seconds <= after.seconds) {
        lemma_cron_times_within(expression, next, end, offset);
    }
}

/// What is said of a timing.
pub open spec fn timing_text(timing: TriggerTiming) -> Seq<char> {
    match timing {
        TriggerTiming::Cron { expression } => "cron("@ + expression@ + ")"@,
        TriggerTiming::Timer { value } => "timer("@ + value@ + ")"@,
        TriggerTiming::Event { event_type } => "event("@ + event_type@ + ")"@,
        TriggerTiming::RepeatFrequency { frequency } => match frequency {
            RepeatFrequency::PerDay(n) => "repeat_per_day("@ + decimal(n as nat) + ")"@,
            RepeatFrequency::PerWeek(n) => "repeat_per_week("@ + decimal(n as nat) + ")"@,
        },
    }
}

pub open spec fn timings_text(timings: Seq<TriggerTiming>) -> Seq<char> {
    if timings.len() == 0 {
        "none"@
    } else {
        joined(timings.map_values(|t: TriggerTiming| timing_text(t)), ", "@)
    }
}

/// What is said of the timings of a trigger.
pub fn describe_timing_sources(timings: &Vec<TriggerTiming>) -> (out: String)
    ensures
        out@ == timings_text(timings@),
{
    if timings.len() == 0 {
        return owned("none");
    }
    let mut parts: Vec<String> = Vec::new();
    let mut i: usize = 0;
    while i < timings.len()
        invariant
            i <= timings@.len(),
            parts@.len() == i,
            forall|k: int| 0 <= k < i ==> (#[trigger] parts@[k])@ == timing_text(timings@[k]),
        decreases timings@.len() - i,
    {
        let part = match &timings[i] {
            TriggerTiming::Cron { expression } => cat3("cron(", expression.as_str(), ")"),
            TriggerTiming::Timer { value } => cat3("timer(", value.as_str(), ")"),
            TriggerTiming::Event { event_type } => cat3("event(", event_type.as_str(), ")"),
            TriggerTiming::RepeatFrequency { frequency } => match frequency {
                RepeatFrequency::PerDay(n) => {
                    let number = decimal_text(*n as u64);
                    cat3("repeat_per_day(", number.as_str(), ")")
                },
                RepeatFrequency::PerWeek(n) => {
                    let number = decimal_text(*n as u64);
                    cat3("repeat_per_week(", number.as_str(), ")")
                },
            },
        };
        parts.push(part);
        i = i + 1;
    }
    proof {
        assert(views(parts@) =~= timings@.map_values(|t: TriggerTiming| timing_text(t)));
    }
    join(&parts, ", ")
}

} // verus!
