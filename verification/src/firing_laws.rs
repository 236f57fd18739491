//! When triggers fire: what the rules of a trigger say of its next time, and of the times in a
//! span.
use crate::clock::{rfc3339_time, DomainTime};
use crate::error::ErrorView;
use crate::firing::{
    all_times, between, bracketed, cron_times, earliest, effective_anchor, event_times, first_cron,
    first_frequency, happened_within, is_cause, is_current, law_earliest, min_gap, next_fire,
    normalized_rules, registered_fire, registered_fires, registration_fire, repeated_fire,
    repeated_fires, rule_cron, rule_frequency, time_less, times_of, timing_text, timing_times,
    timings_text, window_start, MonitoringEvent, RepeatFrequency, TimerForm, TimerResult,
    TriggerTiming,
};
use crate::scheduling::RuleView;
use crate::search::result_laws::law_trimmed_text_is_in_one_piece;
use crate::text::{
    decimal, first_index, is_digit, is_space, law_decimal_round_trip, lemma_decimal_value,
    starts_with, trimmed,
};
use vstd::prelude::*;

verus! {

/// Of two points in time the one with fewer seconds comes first, and of two in the same second the
/// one with fewer nanoseconds. No time comes before itself, and of two times one comes first.
pub proof fn law_times_are_ordered(a: DomainTime, b: DomainTime)
    ensures
        a.seconds < b.seconds ==> time_less(a, b) && !time_less(b, a),
        a.seconds == b.seconds && a.nanos < b.nanos ==> time_less(a, b) && !time_less(b, a),
        !time_less(a, a),
        !time_less(a, b) && !time_less(b, a) ==> a == b,
{
}

/// The next time is looked for after the later one of the anchor and now.
pub proof fn law_next_time_is_after_now(
    expression: Seq<char>,
    anchor: DomainTime,
    now: DomainTime,
    offset: int,
)
    ensures
        anchor.seconds < now.seconds ==> next_fire(expression, anchor, Some(now), offset)
            == next_fire(expression, now, None, offset),
        now.seconds < anchor.seconds ==> next_fire(expression, anchor, Some(now), offset)
            == next_fire(expression, anchor, None, offset),
        effective_anchor(anchor, None) == anchor,
        next_fire(expression, anchor, Some(anchor), offset) == next_fire(
            expression,
            anchor,
            None,
            offset,
        ),
{
}

/// A timer that is registered fires at its time, or at once where that has passed; one that ran
/// fires again only where its time is still to come.
pub proof fn law_timers_fire_at_their_time(
    value: String,
    at: DomainTime,
    anchor: DomainTime,
    fired: DomainTime,
    offset: int,
)
    ensures
        ({
            let timing = TriggerTiming::Timer { value };
            let first = registered_fire(timing, Ok(at), anchor, offset);
            let again = repeated_fire(timing, Ok(at), fired, anchor, offset);
            &&& at.seconds > anchor.seconds ==> first == Ok::<Option<DomainTime>, ErrorView>(
                Some(at),
            ) && again == first
            &&& at.seconds < anchor.seconds ==> first == Ok::<Option<DomainTime>, ErrorView>(
                Some(anchor),
            ) && again == Ok::<Option<DomainTime>, ErrorView>(None)
            &&& at == anchor ==> first == Ok::<Option<DomainTime>, ErrorView>(Some(anchor))
                && again == Ok::<Option<DomainTime>, ErrorView>(None)
        }),
{
}

/// Only timers and cron rules have a next time; an event and a frequency have none.
pub proof fn law_events_have_no_next_time(
    timing: TriggerTiming,
    timer: TimerResult,
    fired: DomainTime,
    anchor: DomainTime,
    offset: int,
)
    requires
        timing is Event || timing is RepeatFrequency,
    ensures
        registered_fire(timing, timer, anchor, offset) == Ok::<Option<DomainTime>, ErrorView>(
            None,
        ),
        repeated_fire(timing, timer, fired, anchor, offset) == Ok::<Option<DomainTime>, ErrorView>(
            None,
        ),
{
}

/// A trigger that is registered fires at the earliest time of its timings: at that of one of them,
/// and at none later than that of another.
pub proof fn law_first_of_the_timings_counts(
    timings: Seq<TriggerTiming>,
    timers: Seq<TimerResult>,
    anchor: DomainTime,
    offset: int,
    i: int,
)
    requires
        registration_fire(timings, timers, anchor, offset) is Ok,
        0 <= i < timings.len(),
        timings.len() <= timers.len(),
    ensures
        ({
            let out = registration_fire(timings, timers, anchor, offset)->Ok_0;
            let own = registered_fire(timings[i], timers[i], anchor, offset);
            &&& own is Ok
            &&& own->Ok_0 is Some ==> out is Some && !time_less(own->Ok_0->0, out->0)
            &&& out is Some ==> exists|k: int|
                0 <= k < timings.len() && registered_fire(
                    #[trigger] timings[k],
                    timers[k],
                    anchor,
                    offset,
                ) == Ok::<Option<DomainTime>, ErrorView>(out)
        }),
{
    let fires = registered_fires(timings, timers, anchor, offset);
    law_earliest(fires);
    assert(fires[i] == registered_fire(timings[i], timers[i], anchor, offset));
    if let Some(t) = earliest(fires)->Ok_0 {
        let k = choose|k: int|
            0 <= k < fires.len() && fires[k] == Ok::<Option<DomainTime>, ErrorView>(Some(t));
        assert(fires[k] == registered_fire(timings[k], timers[k], anchor, offset));
        assert(registered_fire(timings[k], timers[k], anchor, offset) == fires[k]);
    }
}

/// Runs that are as far apart as a frequency asks for are as many as it allows: with that gap so
/// many fit into a day or a week, and with a gap that is a second longer they do not, as
/// long as there is a second for each.
pub proof fn law_gap_of_a_frequency(n: u32)
    requires
        n > 0,
    ensures
        ({
            let day = min_gap(RepeatFrequency::PerDay(n));
            let week = min_gap(RepeatFrequency::PerWeek(n));
            &&& day is Some && day->0 >= 1 && week is Some && week->0 >= 1
            &&& n <= 86_400 ==> n * day->0 <= 86_400 < n * (day->0 + 1)
            &&& n <= 604_800 ==> n * week->0 <= 604_800 < n * (week->0 + 1)
            &&& n > 86_400 ==> day->0 == 1
            &&& n > 604_800 ==> week->0 == 1
        }),
        min_gap(RepeatFrequency::PerDay(0)) is None,
        min_gap(RepeatFrequency::PerWeek(0)) is None,
{
    lemma_quotient(86_400, n as int);
    lemma_quotient(604_800, n as int);
}

proof fn lemma_quotient(total: int, n: int)
    requires
        n > 0,
        total > 0,
    ensures
        n * (total / n) <= total < n * (total / n + 1),
        total / n >= 0,
        n <= total ==> total / n >= 1,
        n > total ==> total / n == 0,
{
    vstd::arithmetic::div_mod::lemma_fundamental_div_mod(total, n);
    let q = total / n;
    let r = total % n;
    assert(0 <= r < n);
    assert(total == n * q + r);
    assert(n * (q + 1) == n * q + n) by (nonlinear_arith);
    assert(q >= 0 && (n <= total ==> q >= 1) && (n > total ==> q == 0)) by (nonlinear_arith)
        requires
            total == n * q + r,
            0 <= r < n,
            n > 0,
            total > 0,
    ;
}

proof fn lemma_first_index(s: Seq<char>, c: char, at: int)
    requires
        0 <= at <= s.len(),
        at < s.len() ==> s[at] == c,
        forall|k: int| 0 <= k < at ==> (#[trigger] s[k]) != c,
    ensures
        first_index(s, c) == at,
    decreases at,
{
    if at > 0 {
        let rest = s.drop_first();
        assert forall|k: int| 0 <= k < at - 1 implies (#[trigger] rest[k]) != c by {
            assert(rest[k] == s[k + 1]);
        }
        assert(s[0] != c);
        lemma_first_index(rest, c, at - 1);
    }
}

/// A rule `cron('e')` has the expression `e`.
pub proof fn law_cron_rule_names_its_expression(e: Seq<char>)
    requires
        forall|k: int| 0 <= k < e.len() ==> (#[trigger] e[k]) != '\'',
    ensures
        rule_cron("cron('"@ + e + "')"@) == Some(e),
{
    lemma_cron_words();
    let open = seq!['c', 'r', 'o', 'n', '(', '\''];
    let close = seq!['\'', ')'];
    let s = open + e + close;
    lemma_nothing_to_trim(s);
    assert(starts_with(s, "cron("@)) by {
        assert(s.take(5) =~= open.take(5));
    }
    lemma_between(open.take(5), e, close.skip(1), '\'');
    assert(s =~= (open.take(5).push('\'') + e).push('\'') + close.skip(1));
}

proof fn lemma_cron_words()
    ensures
        "cron('"@ == seq!['c', 'r', 'o', 'n', '(', '\''],
        "cron("@ == seq!['c', 'r', 'o', 'n', '(', '\''].take(5),
        "')"@ == seq!['\'', ')'],
{
    reveal_strlit("cron('");
    reveal_strlit("cron(");
    reveal_strlit("')");
    assert("cron('"@ =~= seq!['c', 'r', 'o', 'n', '(', '\'']);
    assert("cron("@ =~= seq!['c', 'r', 'o', 'n', '(', '\''].take(5));
    assert("')"@ =~= seq!['\'', ')']);
}

proof fn lemma_nothing_to_trim(s: Seq<char>)
    requires
        s.len() > 0,
        !is_space(s[0]),
        !is_space(s.last()),
    ensures
        trimmed(s) == s,
{
    law_trimmed_text_is_in_one_piece(s);
}

proof fn lemma_between(a: Seq<char>, e: Seq<char>, b: Seq<char>, quote: char)
    requires
        forall|k: int| 0 <= k < a.len() ==> (#[trigger] a[k]) != quote,
        forall|k: int| 0 <= k < e.len() ==> (#[trigger] e[k]) != quote,
    ensures
        between((a.push(quote) + e).push(quote) + b, quote) == Some(e),
{
    let s = (a.push(quote) + e).push(quote) + b;
    assert forall|k: int| 0 <= k < a.len() implies (#[trigger] s[k]) != quote by {
        assert(s[k] == a[k]);
    }
    lemma_first_index(s, quote, a.len() as int);
    let rest = s.skip(a.len() + 1int);
    assert(rest =~= e.push(quote) + b);
    assert forall|k: int| 0 <= k < e.len() implies (#[trigger] rest[k]) != quote by {
        assert(rest[k] == e[k]);
    }
    lemma_first_index(rest, quote, e.len() as int);
    assert(rest.take(e.len() as int) =~= e);
}

/// The expression of a list of rules is that of the first rule that has one.
pub proof fn law_first_cron_rule_counts(rules: Seq<RuleView>, i: int)
    requires
        0 <= i < rules.len(),
        rule_cron(rules[i].rule) is Some,
        forall|k: int| 0 <= k < i ==> rule_cron((#[trigger] rules[k]).rule) is None,
    ensures
        first_cron(rules) == rule_cron(rules[i].rule),
    decreases rules.len(),
{
    if i > 0 {
        let rest = rules.drop_first();
        assert forall|k: int| 0 <= k < i - 1 implies rule_cron((#[trigger] rest[k]).rule)
            is None by {
            assert(rest[k] == rules[k + 1]);
        }
        assert(rule_cron(rules[0].rule) is None);
        assert(rest[i - 1] == rules[i]);
        law_first_cron_rule_counts(rest, i - 1);
    }
}

/// A frequency that is written out is read as that frequency.
pub proof fn law_frequency_is_read_as_written(n: u32)
    requires
        n > 0,
    ensures
        rule_frequency("repeat_per_day("@ + decimal(n as nat) + ")"@) == Some(
            Some(RepeatFrequency::PerDay(n)),
        ),
        rule_frequency("repeat_per_week("@ + decimal(n as nat) + ")"@) == Some(
            Some(RepeatFrequency::PerWeek(n)),
        ),
        rule_frequency(
            timing_text(
                TriggerTiming::RepeatFrequency { frequency: RepeatFrequency::PerDay(n) },
            ),
        ) == Some(Some(RepeatFrequency::PerDay(n))),
        rule_frequency(
            timing_text(
                TriggerTiming::RepeatFrequency { frequency: RepeatFrequency::PerWeek(n) },
            ),
        ) == Some(Some(RepeatFrequency::PerWeek(n))),
{
    reveal_strlit("repeat_per_day(");
    reveal_strlit("repeat_per_week(");
    let d = decimal(n as nat);
    let a = "repeat_per_day("@;
    let b = "repeat_per_week("@;
    assert(a.len() == 15 && a[0] == 'r' && a[11] == 'd');
    assert(b.len() == 16 && b[0] == 'r' && b[11] == 'w');
    lemma_number_in_brackets(a, n);
    lemma_number_in_brackets(b, n);
    let week = b + d + ")"@;
    assert(!starts_with(week, a)) by {
        assert(week.take(15)[11] == b[11]);
    }
}

proof fn lemma_number_in_brackets(prefix: Seq<char>, n: u32)
    requires
        prefix.len() > 0,
        prefix[0] == 'r',
    ensures
        ({
            let s = prefix + decimal(n as nat) + ")"@;
            &&& trimmed(s) == s
            &&& bracketed(s, prefix) == Some(decimal(n as nat))
            &&& times_of(decimal(n as nat)) == Some(n as nat)
        }),
{
    reveal_strlit(")");
    let d = decimal(n as nat);
    let s = prefix + d + ")"@;
    lemma_decimal_value(n as nat);
    law_decimal_round_trip(n as nat, u32::MAX as nat);
    assert(is_digit(d[0]) && is_digit(d[d.len() - 1]));
    lemma_digit_not_space(d[0]);
    lemma_digit_not_space(d.last());
    lemma_nothing_to_trim(d);
    assert(")"@ =~= seq![')']);
    assert(s.last() == ')' && s[0] == 'r');
    lemma_nothing_to_trim(s);
    assert(s.take(prefix.len() as int) =~= prefix);
    assert(s.subrange(prefix.len() as int, s.len() - 1) =~= d);
}

proof fn lemma_digit_not_space(c: char)
    requires
        is_digit(c),
    ensures
        !is_space(c),
{
}

/// The window before a point in time starts so many minutes before it.
pub proof fn law_window_starts_minutes_before(current: DomainTime, minutes: int)
    requires
        current.nanos < 1_000_000_000,
        i64::MIN <= current.seconds - 60 * minutes <= i64::MAX,
    ensures
        window_start(current, minutes).seconds == current.seconds - 60 * minutes,
        window_start(current, minutes).nanos == current.nanos,
        minutes >= 0 ==> !time_less(current, window_start(current, minutes)),
        window_start(current, 0) == current,
{
}

/// An event is in a span where it has a time that is not before the start and not after the end.
pub proof fn law_events_in_a_span(
    e: MonitoringEvent,
    t: DomainTime,
    start: DomainTime,
    end: DomainTime,
)
    requires
        rfc3339_time(e.timestamp@) == Some(t),
    ensures
        happened_within(e, t, t),
        start.seconds < t.seconds < end.seconds ==> happened_within(e, start, end),
        t.seconds < start.seconds || end.seconds < t.seconds ==> !happened_within(e, start, end),
{
}

/// The event that a run is about is one that the trigger waits for and that happened by then, and
/// the last one of these; of events at the same time it is the one that was noted last.
pub proof fn law_current_event_is_the_last_cause(
    events: Seq<MonitoringEvent>,
    timings: Seq<TriggerTiming>,
    fire_time: DomainTime,
    at: int,
    k: int,
    t: DomainTime,
)
    requires
        is_current(events, timings, fire_time, at),
        0 <= k < events.len(),
        rfc3339_time(events[k].timestamp@) == Some(t),
        t.seconds < fire_time.seconds,
        forall|i: int| 0 <= i < timings.len() ==> !((#[trigger] timings[i]) is Event),
    ensures
        ({
            let last = rfc3339_time(events[at].timestamp@);
            &&& 0 <= at < events.len() && last is Some
            &&& last->0.seconds <= fire_time.seconds
            &&& t.seconds <= last->0.seconds
            &&& t == last->0 ==> k <= at
        }),
{
    assert(is_cause(timings, events[k], fire_time));
}

/// A trigger that waits for a kind of events has its run about an event of such a kind.
pub proof fn law_current_event_is_waited_for(
    events: Seq<MonitoringEvent>,
    timings: Seq<TriggerTiming>,
    fire_time: DomainTime,
    at: int,
)
    requires
        is_current(events, timings, fire_time, at),
        exists|i: int| 0 <= i < timings.len() && (#[trigger] timings[i]) is Event,
    ensures
        exists|i: int|
            0 <= i < timings.len() && (#[trigger] timings[i]) is Event && timings[i]->event_type@
                == events[at].event_type@,
{
    let w = choose|i: int|
        0 <= i < timings.len() && crate::firing::is_event_of(
            #[trigger] timings[i],
            events[at].event_type@,
        );
    assert(timings[w] is Event);
}

/// The times of a trigger in a span hold those of each of its timings: a timer that is in the span,
/// and each event of its kind that happened in it.
pub proof fn law_each_timing_has_its_times(
    timings: Seq<TriggerTiming>,
    timers: Seq<TimerResult>,
    events: Seq<MonitoringEvent>,
    start: DomainTime,
    end: DomainTime,
    offset: int,
    i: int,
    k: int,
)
    requires
        all_times(timings, timers, events, start, end, offset) is Ok,
        timings.len() <= timers.len(),
        0 <= i < timings.len(),
    ensures
        ({
            let times = all_times(timings, timers, events, start, end, offset)->Ok_0;
            &&& timings[i] is Timer ==> timers[i] is Ok
            &&& timings[i] is Timer && !time_less(timers[i]->Ok_0, start) && !time_less(
                end,
                timers[i]->Ok_0,
            ) ==> times.contains(timers[i]->Ok_0)
            &&& timings[i] is Event && 0 <= k < events.len() && events[k].event_type@
                == timings[i]->event_type@ && happened_within(events[k], start, end)
                ==> times.contains(rfc3339_time(events[k].timestamp@)->0)
        }),
    decreases timings.len(),
{
    let front = timings.drop_last();
    let times = all_times(timings, timers, events, start, end, offset)->Ok_0;
    if i < front.len() {
        law_each_timing_has_its_times(front, timers, events, start, end, offset, i, k);
        assert(front[i] == timings[i]);
    } else {
        let own = timing_times(
            timings.last(),
            timers[timings.len() - 1],
            events,
            start,
            end,
            offset,
        );
        assert(own is Ok);
        if timings[i] is Event && 0 <= k < events.len() && events[k].event_type@
            == timings[i]->event_type@ && happened_within(events[k], start, end) {
            assert(event_times(events, timings[i]->event_type@, start, end).contains(
                rfc3339_time(events[k].timestamp@)->0,
            ));
        }
    }
}

/// A time in a span is that of one of the timings.
pub proof fn law_times_come_from_timings(
    timings: Seq<TriggerTiming>,
    timers: Seq<TimerResult>,
    events: Seq<MonitoringEvent>,
    start: DomainTime,
    end: DomainTime,
    offset: int,
    t: DomainTime,
)
    requires
        all_times(timings, timers, events, start, end, offset) is Ok,
        timings.len() <= timers.len(),
        all_times(timings, timers, events, start, end, offset)->Ok_0.contains(t),
    ensures
        exists|i: int|
            0 <= i < timings.len() && match #[trigger] timings[i] {
                TriggerTiming::Timer { value } => timers[i] == Ok::<DomainTime, String>(t),
                TriggerTiming::Event { event_type } => exists|k: int|
                    0 <= k < events.len() && (#[trigger] events[k]).event_type@ == event_type@
                        && rfc3339_time(events[k].timestamp@) == Some(t),
                TriggerTiming::Cron { expression } => cron_times(
                    expression@,
                    start,
                    end,
                    offset,
                ) matches Some(times) && times.contains(t),
                TriggerTiming::RepeatFrequency { frequency } => false,
            },
    decreases timings.len(),
{
    let front = timings.drop_last();
    let before = all_times(front, timers, events, start, end, offset)->Ok_0;
    if before.contains(t) {
        law_times_come_from_timings(front, timers, events, start, end, offset, t);
        let i = choose|i: int|
            0 <= i < front.len() && match #[trigger] front[i] {
                TriggerTiming::Timer { value } => timers[i] == Ok::<DomainTime, String>(t),
                TriggerTiming::Event { event_type } => exists|k: int|
                    0 <= k < events.len() && (#[trigger] events[k]).event_type@ == event_type@
                        && rfc3339_time(events[k].timestamp@) == Some(t),
                TriggerTiming::Cron { expression } => cron_times(
                    expression@,
                    start,
                    end,
                    offset,
                ) matches Some(times) && times.contains(t),
                TriggerTiming::RepeatFrequency { frequency } => false,
            };
        assert(timings[i] == front[i]);
    } else {
        assert(timings[timings.len() - 1] == timings.last());
    }
}

/// Normalizing rules leaves each that has no timer as it is, keeps the descriptions and the order,
/// and writes the others as timers with their normal value.
pub proof fn law_rules_stay_in_place(rules: Seq<RuleView>, forms: Seq<TimerForm>, i: int)
    requires
        normalized_rules(rules, forms) is Ok,
        rules.len() <= forms.len(),
        0 <= i < rules.len(),
    ensures
        ({
            let out = normalized_rules(rules, forms)->Ok_0;
            &&& out.len() == rules.len()
            &&& out[i].description == rules[i].description
            &&& forms[i] is Other ==> out[i] == rules[i]
            &&& forms[i] matches TimerForm::Timer { normalized } ==> normalized is Ok
                && out[i].rule == "timer(\""@ + normalized->Ok_0@ + "\")"@
        }),
    decreases rules.len(),
{
    lemma_rules_len(rules, forms);
    let front = rules.drop_last();
    if i < front.len() {
        law_rules_stay_in_place(front, forms, i);
        assert(front[i] == rules[i]);
    } else {
        lemma_rules_len(front, forms);
    }
}

proof fn lemma_rules_len(rules: Seq<RuleView>, forms: Seq<TimerForm>)
    ensures
        normalized_rules(rules, forms) is Ok ==> normalized_rules(rules, forms)->Ok_0.len()
            == rules.len(),
    decreases rules.len(),
{
    if rules.len() > 0 {
        lemma_rules_len(rules.drop_last(), forms);
    }
}

/// After a run a trigger fires at the earliest time that its timings still have, or never again.
pub proof fn law_next_run_is_the_earliest(
    timings: Seq<TriggerTiming>,
    timers: Seq<TimerResult>,
    fired: DomainTime,
    after: DomainTime,
    offset: int,
    i: int,
)
    requires
        earliest(repeated_fires(timings, timers, fired, after, offset)) is Ok,
        0 <= i < timings.len(),
        timings.len() <= timers.len(),
    ensures
        ({
            let out = earliest(repeated_fires(timings, timers, fired, after, offset))->Ok_0;
            let own = repeated_fire(timings[i], timers[i], fired, after, offset);
            &&& own is Ok
            &&& own->Ok_0 is Some ==> out is Some && !time_less(own->Ok_0->0, out->0)
            &&& out is Some ==> exists|k: int|
                0 <= k < timings.len() && repeated_fire(
                    #[trigger] timings[k],
                    timers[k],
                    fired,
                    after,
                    offset,
                ) == Ok::<Option<DomainTime>, ErrorView>(out)
        }),
{
    let fires = repeated_fires(timings, timers, fired, after, offset);
    law_earliest(fires);
    assert(fires[i] == repeated_fire(timings[i], timers[i], fired, after, offset));
    if let Some(t) = earliest(fires)->Ok_0 {
        let k = choose|k: int|
            0 <= k < fires.len() && fires[k] == Ok::<Option<DomainTime>, ErrorView>(Some(t));
        assert(fires[k] == repeated_fire(timings[k], timers[k], fired, after, offset));
        assert(repeated_fire(timings[k], timers[k], fired, after, offset) == fires[k]);
    }
}

/// The frequency of a list of rules is that of the first rule that names one.
pub proof fn law_first_frequency_counts(rules: Seq<RuleView>, i: int)
    requires
        0 <= i < rules.len(),
        rule_frequency(rules[i].rule) is Some,
        forall|k: int| 0 <= k < i ==> rule_frequency((#[trigger] rules[k]).rule) is None,
    ensures
        first_frequency(rules) == rule_frequency(rules[i].rule)->0,
    decreases rules.len(),
{
    if i > 0 {
        let rest = rules.drop_first();
        assert forall|k: int| 0 <= k < i - 1 implies rule_frequency((#[trigger] rest[k]).rule)
            is None by {
            assert(rest[k] == rules[k + 1]);
        }
        assert(rule_frequency(rules[0].rule) is None);
        assert(rest[i - 1] == rules[i]);
        law_first_frequency_counts(rest, i - 1);
    }
}

/// A list of timings is described by each of them, with a comma between each two.
pub proof fn law_timings_are_described(timings: Seq<TriggerTiming>, t: TriggerTiming)
    ensures
        timings_text(Seq::empty()) == "none"@,
        timings_text(seq![t]) == timing_text(t),
        timings.len() > 0 ==> timings_text(timings.push(t)) == timings_text(timings) + ", "@
            + timing_text(t),
{
    let texts = timings.map_values(|x: TriggerTiming| timing_text(x));
    let more = timings.push(t).map_values(|x: TriggerTiming| timing_text(x));
    assert(more =~= texts.push(timing_text(t)));
    assert(more.drop_last() =~= texts);
    let one = seq![t].map_values(|x: TriggerTiming| timing_text(x));
    assert(one =~= seq![timing_text(t)]);
}

} // verus!
