use remi_client_sdk::clock::DomainTime;
use remi_client_sdk::firing::{
    build_trigger_occurrences, compute_next_fire, describe_timing_sources,
    extract_cron_from_preconditions, extract_repeat_frequency_from_conditions,
    filter_events_at_time, normalize_timer_preconditions, repeat_min_gap,
    resolve_post_run_next_fire, resolve_registration_next_fire, select_current_event,
    MonitoringEvent, RepeatFrequency, TimerForm, TimerResult, TriggerTiming,
};
use remi_client_sdk::scheduling::TriggerRule;

#[test]
fn test_extract_cron_from_preconditions() {
    let preconditions = vec![TriggerRule {
        rule: "cron('0 18 * * *')".to_string(),
        description: "Every day at 6 PM".to_string(),
    }];
    assert_eq!(
        extract_cron_from_preconditions(&preconditions),
        Some("0 18 * * *".to_string())
    );

    let no_cron = vec![TriggerRule {
        rule: "in_time_range('09:00', '17:00')".to_string(),
        description: "Business hours".to_string(),
    }];
    assert_eq!(extract_cron_from_preconditions(&no_cron), None);
}

#[test]
fn test_extract_cron_with_double_quotes() {
    let preconditions = vec![TriggerRule {
        rule: r#"cron("0 9 * * *")"#.to_string(),
        description: "Morning".to_string(),
    }];
    assert_eq!(
        extract_cron_from_preconditions(&preconditions),
        Some("0 9 * * *".to_string())
    );
}

fn rule(text: &str) -> TriggerRule {
    TriggerRule { rule: text.to_string(), description: "why".to_string() }
}

fn at(seconds: i64) -> DomainTime {
    DomainTime { seconds, nanos: 0 }
}

fn event(event_type: &str, timestamp: &str) -> MonitoringEvent {
    MonitoringEvent {
        event_type: event_type.to_string(),
        timestamp: timestamp.to_string(),
        metadata_json: "{}".to_string(),
    }
}

fn cron(expression: &str) -> TriggerTiming {
    TriggerTiming::Cron { expression: expression.to_string() }
}

fn timer(value: &str) -> TriggerTiming {
    TriggerTiming::Timer { value: value.to_string() }
}

fn on(event_type: &str) -> TriggerTiming {
    TriggerTiming::Event { event_type: event_type.to_string() }
}

fn never() -> TimerResult {
    Err("not a timer".to_string())
}

// 2026-01-01T00:00:00Z
const NEW_YEAR: i64 = 1_767_225_600;

#[test]
fn test_croner_accepts_posix_sunday_zero() {
    let next = compute_next_fire("0 10 * * 0,6", at(NEW_YEAR), None, 0).unwrap();
    // The first of January 2026 is a Thursday.
    assert_eq!(next, Some(at(NEW_YEAR + 2 * 86_400 + 10 * 3_600)));
}

#[test]
fn a_rule_that_only_starts_like_a_schedule_is_passed_over() {
    let rules = vec![rule("cron(oops)"), rule(" cron('*/5 * * * *') "), rule("cron('1 1 1 1 1')")];
    assert_eq!(extract_cron_from_preconditions(&rules), Some("*/5 * * * *".to_string()));
    let mixed = vec![rule("cron(\"a'b\")")];
    assert_eq!(extract_cron_from_preconditions(&mixed), Some("a'b".to_string()));
}

#[test]
fn the_next_fire_is_after_the_anchor_and_after_now() {
    let eighteen = NEW_YEAR + 18 * 3_600;
    let next = compute_next_fire("0 18 * * *", at(NEW_YEAR), None, 0).unwrap();
    assert_eq!(next, Some(at(eighteen)));
    let next = compute_next_fire("0 18 * * *", at(NEW_YEAR), Some(at(eighteen)), 0).unwrap();
    assert_eq!(next, Some(at(eighteen + 86_400)));
    // An hour before now does not count: the anchor is later.
    let next = compute_next_fire("0 18 * * *", at(eighteen), Some(at(NEW_YEAR)), 0).unwrap();
    assert_eq!(next, Some(at(eighteen + 86_400)));
    // Eight hours ahead of UTC, six in the evening comes at ten in the morning.
    let next = compute_next_fire("0 18 * * *", at(NEW_YEAR), None, 8 * 3_600).unwrap();
    assert_eq!(next, Some(at(NEW_YEAR + 10 * 3_600)));
}

#[test]
fn a_schedule_that_cannot_be_read_is_refused() {
    let err = compute_next_fire("every day", at(NEW_YEAR), None, 0).unwrap_err();
    assert_eq!(err.to_text(), "Invalid cron expression");
    // The thirtieth of February never comes.
    let err = compute_next_fire("0 0 30 2 *", at(NEW_YEAR), None, 0).unwrap_err();
    assert_eq!(err.to_text(), "Invalid cron expression");
}

#[test]
fn events_of_a_window_are_kept_in_order() {
    let events = vec![
        event("a", "2025-12-31T23:49:59Z"),
        event("b", "2025-12-31T23:50:00Z"),
        event("c", "when?"),
        event("d", "2026-01-01T01:00:00+01:00"),
        event("e", "2026-01-01T00:00:01Z"),
    ];
    let kept = filter_events_at_time(&events, at(NEW_YEAR), 10);
    let kinds: Vec<String> = kept.into_iter().map(|e| e.event_type).collect();
    assert_eq!(kinds, vec!["b".to_string(), "d".to_string()]);
}

#[test]
fn a_window_may_end_in_a_leap_second() {
    let end = chrono::DateTime::from_timestamp(NEW_YEAR - 1, 1_500_000_000).unwrap();
    for minutes in [10i64, 1, 0, -1, -10] {
        let start = end - chrono::TimeDelta::minutes(minutes);
        let early = start - chrono::TimeDelta::milliseconds(1);
        let events = vec![
            event("early", &early.to_rfc3339()),
            event("start", &start.to_rfc3339()),
            event("late", "2026-01-01T00:00:00Z"),
        ];
        let current = DomainTime { seconds: NEW_YEAR - 1, nanos: 1_500_000_000 };
        let kept = filter_events_at_time(&events, current, minutes);
        let kinds: Vec<String> = kept.into_iter().map(|e| e.event_type).collect();
        let expected: Vec<String> =
            if start <= end { vec!["start".to_string()] } else { Vec::new() };
        assert_eq!(kinds, expected, "{minutes}");
    }
}

#[test]
fn the_latest_event_of_a_waited_type_is_current() {
    let events = vec![
        event("wifi", "2025-12-31T10:00:00Z"),
        event("power", "2025-12-31T12:00:00Z"),
        event("wifi", "2025-12-31T11:00:00Z"),
        event("wifi", "2025-12-31T11:00:00+00:00"),
        event("wifi", "2026-01-02T00:00:00Z"),
    ];
    let current = select_current_event(&events, &vec![on("wifi")], at(NEW_YEAR)).unwrap();
    assert_eq!(current.timestamp, "2025-12-31T11:00:00+00:00");
    let current = select_current_event(&events, &vec![cron("* * * * *")], at(NEW_YEAR)).unwrap();
    assert_eq!(current.event_type, "power");
    assert!(select_current_event(&events, &vec![on("gps")], at(NEW_YEAR)).is_none());
}

#[test]
fn the_first_readable_frequency_holds() {
    let rules = vec![rule("true"), rule("repeat_per_day(0)"), rule(" repeat_per_week( 3 ) ")];
    assert_eq!(extract_repeat_frequency_from_conditions(&rules), Some(RepeatFrequency::PerWeek(3)));
    let rules = vec![rule("repeat_per_day(x)"), rule("repeat_per_week(3)")];
    assert_eq!(extract_repeat_frequency_from_conditions(&rules), None);
    let rules = vec![rule("repeat_per_day(2)")];
    assert_eq!(extract_repeat_frequency_from_conditions(&rules), Some(RepeatFrequency::PerDay(2)));
}

#[test]
fn a_frequency_asks_for_a_gap() {
    assert_eq!(repeat_min_gap(&RepeatFrequency::PerDay(7)), Some(12_342));
    assert_eq!(repeat_min_gap(&RepeatFrequency::PerWeek(2)), Some(302_400));
    assert_eq!(repeat_min_gap(&RepeatFrequency::PerDay(100_000)), Some(1));
    assert_eq!(repeat_min_gap(&RepeatFrequency::PerDay(0)), None);
}

#[test]
fn timers_are_filled_in() {
    let rules = vec![rule("true"), rule("timer(\"18:00\")")];
    let forms = vec![
        TimerForm::Other,
        TimerForm::Timer { normalized: Ok("2026-01-01T18:00:00Z".to_string()) },
    ];
    let out = normalize_timer_preconditions(&rules, &forms).unwrap();
    assert_eq!(out[0].rule, "true");
    assert_eq!(out[1].rule, "timer(\"2026-01-01T18:00:00Z\")");
    assert_eq!(out[1].description, "why");

    let forms = vec![
        TimerForm::Timer { normalized: Err("no date".to_string()) },
        TimerForm::Unreadable { fault: "late".to_string() },
    ];
    let err = normalize_timer_preconditions(&rules, &forms).unwrap_err();
    assert_eq!(err.to_text(), "Failed to normalize timer precondition 'why': no date");
    let forms = vec![TimerForm::Other, TimerForm::Unreadable { fault: "bad".to_string() }];
    let err = normalize_timer_preconditions(&rules, &forms).unwrap_err();
    assert_eq!(err.to_text(), "Failed to extract timing: bad");
}

#[test]
fn a_new_trigger_fires_at_the_earliest_time() {
    let anchor = at(NEW_YEAR);
    let timings = vec![cron("0 18 * * *"), timer("soon"), on("wifi")];
    let timers = vec![never(), Ok(at(NEW_YEAR + 60)), never()];
    let next = resolve_registration_next_fire(&timings, &timers, anchor, 0).unwrap();
    assert_eq!(next, Some(at(NEW_YEAR + 60)));
    let timers = vec![never(), Ok(at(NEW_YEAR - 60)), never()];
    let next = resolve_registration_next_fire(&timings, &timers, anchor, 0).unwrap();
    assert_eq!(next, Some(anchor));
    let next = resolve_registration_next_fire(&vec![on("wifi")], &vec![never()], anchor, 0);
    assert_eq!(next.unwrap(), None);
    let only = vec![TriggerTiming::RepeatFrequency { frequency: RepeatFrequency::PerDay(1) }];
    let err = resolve_registration_next_fire(&only, &vec![never()], anchor, 0).unwrap_err();
    assert_eq!(
        err.to_text(),
        "No supported timing found in trigger rules (expected cron(...), timer(...), or event(...))."
    );
    let err = resolve_registration_next_fire(&vec![timer("x")], &vec![never()], anchor, 0);
    assert_eq!(
        err.unwrap_err().to_text(),
        "Failed to resolve timer precondition 'x': not a timer"
    );
}

#[test]
fn a_timer_that_has_passed_does_not_fire_again() {
    let fired = at(NEW_YEAR);
    let lower = at(NEW_YEAR + 100);
    let next = resolve_post_run_next_fire(&vec![timer("x")], &vec![Ok(lower)], fired, lower, 0);
    assert_eq!(next.unwrap(), None);
    let later = at(NEW_YEAR + 101);
    let next = resolve_post_run_next_fire(&vec![timer("x")], &vec![Ok(later)], fired, lower, 0);
    assert_eq!(next.unwrap(), Some(later));
    let timings = vec![cron("* * * * *"), timer("x")];
    let next =
        resolve_post_run_next_fire(&timings, &vec![never(), Ok(at(NEW_YEAR + 500))], fired, lower, 0);
    assert_eq!(next.unwrap(), Some(at(NEW_YEAR + 120)));
}

#[test]
fn occurrences_come_in_order_and_once() {
    let start = at(NEW_YEAR);
    let end = at(NEW_YEAR + 2 * 86_400);
    let timings = vec![cron("0 12 * * *"), timer("x"), on("wifi"), cron("0 12 1 1 *")];
    let timers = vec![never(), Ok(at(NEW_YEAR + 60)), never(), never()];
    let events = vec![
        event("wifi", "2026-01-01T00:01:00Z"),
        event("wifi", "2026-01-01T06:00:00Z"),
        event("wifi", "2027-01-01T06:00:00Z"),
        event("gps", "2026-01-01T07:00:00Z"),
    ];
    let out = build_trigger_occurrences(&timings, &timers, &events, start, end, "+00:00", 3_600)
        .unwrap();
    assert_eq!(
        out,
        vec![
            at(NEW_YEAR + 60),
            at(NEW_YEAR + 6 * 3_600),
            at(NEW_YEAR + 12 * 3_600),
            at(NEW_YEAR + 36 * 3_600),
        ]
    );
    // A zone that cannot be read leaves the default: an hour ahead of UTC.
    let noon = vec![cron("0 12 * * *")];
    let out = build_trigger_occurrences(&noon, &vec![never()], &vec![], start, end, "Mars", 3_600)
        .unwrap();
    assert_eq!(out[0], at(NEW_YEAR + 11 * 3_600));
    let out = build_trigger_occurrences(&noon, &vec![never()], &vec![], start, end, "+02:00", 0)
        .unwrap();
    assert_eq!(out[0], at(NEW_YEAR + 10 * 3_600));
    let err = build_trigger_occurrences(
        &vec![cron("soon")],
        &vec![never()],
        &vec![],
        start,
        end,
        "+00:00",
        0,
    )
    .unwrap_err();
    assert_eq!(err.to_text(), "Invalid cron expression: soon");
    let err = build_trigger_occurrences(
        &vec![cron("0 0 30 2 *")],
        &vec![never()],
        &vec![],
        start,
        end,
        "+00:00",
        0,
    )
    .unwrap_err();
    assert_eq!(err.to_text(), "Failed to find next occurrence for cron: 0 0 30 2 *");
}

#[test]
fn timings_are_described() {
    assert_eq!(describe_timing_sources(&vec![]), "none");
    let timings = vec![
        cron("* * * * *"),
        timer("18:00"),
        on("wifi"),
        TriggerTiming::RepeatFrequency { frequency: RepeatFrequency::PerWeek(4) },
    ];
    assert_eq!(
        describe_timing_sources(&timings),
        "cron(* * * * *), timer(18:00), event(wifi), repeat_per_week(4)"
    );
}
