//! What is read of a telemetry report: the fields under their names, and times as they are written.
use crate::clock::{rfc3339_offset_text, rfc3339_time, DomainTime};
use crate::json::{
    bool_field, field, int_text, json_read, json_text, law_int_round_trip, lemma_lookup_at,
    text_field, uint_field, JsonView,
};
use crate::telemetry::{
    ack_json, event_of, float_exponent, float_rounded, float_size, nearest, report_answer,
    report_for, report_of, signed_value, time_of, ReportOutcome,
};
use crate::text::{decimal, law_decimal_round_trip};
use vstd::arithmetic::power2::pow2;
use vstd::prelude::*;

verus! {

/// A report that is read has what stands under the name of each of its fields.
pub proof fn law_report_fields_have_their_names(j: JsonView)
    requires
        j is Object,
        report_of(j) is Ok,
    ensures
        ({
            let r = report_of(j)->Ok_0;
            &&& text_field(j, "deviceId"@) == Some(r.device_id)
            &&& text_field(j, "generatedAt"@) == Some(r.generated_at)
            &&& uint_field(j, "eventCount"@) == Some(r.event_count)
            &&& bool_field(j, "manual"@) == Some(r.manual)
            &&& text_field(j, "trigger"@) == Some(r.trigger)
            &&& field(j, "events"@) is Some && field(j, "events"@)->0 is List
        }),
{
}

/// An event that is read has the type, the time and the metadata that stand under their names;
/// without metadata it has an empty object.
pub proof fn law_event_fields_have_their_names(j: JsonView)
    requires
        j is Object,
        event_of(j) is Ok,
    ensures
        ({
            let e = event_of(j)->Ok_0;
            &&& text_field(j, "type"@) == Some(e.event_type)
            &&& field(j, "timestamp"@) is Some && time_of(field(j, "timestamp"@)->0) is Ok
            &&& e.timestamp == rfc3339_offset_text(time_of(field(j, "timestamp"@)->0)->Ok_0)
            &&& field(j, "metadata"@) matches Some(m) ==> e.metadata_json == json_text(m)
            &&& field(j, "metadata"@) is None ==> e.metadata_json == json_text(
                JsonView::Object(Seq::empty()),
            )
        }),
{
}

/// A time in seconds is that second, as a number and as a text; a text that is no number is read as
/// the point in time that it writes out.
pub proof fn law_times_are_read(n: int, s: Seq<char>)
    requires
        0 <= n <= 8_000_000_000,
        signed_value(s) is None,
    ensures
        time_of(JsonView::Number(int_text(n))) matches Ok(t) && t.seconds == n && t.nanos == 0,
        time_of(JsonView::Text(decimal(n as nat))) matches Ok(t) && t.seconds == n && t.nanos == 0,
        rfc3339_time(s) matches Some(t) ==> time_of(JsonView::Text(s)) == Ok::<
            DomainTime,
            Seq<char>,
        >(t),
        rfc3339_time(s) is None ==> time_of(JsonView::Text(s)) is Err,
{
    law_int_round_trip(n);
    law_decimal_round_trip(n as nat, i64::MAX as nat);
    crate::text::lemma_decimal_value(n as nat);
    assert(crate::text::is_digit(decimal(n as nat)[0]));
}

/// A fraction is rounded to the nearest whole number: it is at most half away from it, and a half
/// goes up.
pub proof fn law_rounding_goes_to_the_nearest(m: nat, k: int)
    requires
        k < 0,
    ensures
        ({
            let d = pow2((-k) as nat);
            let n = nearest(m, k);
            2 * d * n <= 2 * m + d < 2 * d * n + 2 * d
        }),
        nearest(m, 0) == m,
{
    let d = pow2((-k) as nat);
    vstd::arithmetic::power2::lemma_pow2_pos((-k) as nat);
    vstd::arithmetic::power2::lemma2_to64();
    let a = (2 * m + d) as int;
    let b = (2 * d) as int;
    vstd::arithmetic::div_mod::lemma_fundamental_div_mod(a, b);
    assert(a == b * (a / b) + a % b);
    assert(0 <= a % b < b);
    assert(nearest(m, k) == a / b);
    assert(m * pow2(0) == m) by (nonlinear_arith)
        requires
            pow2(0) == 1,
    ;
}

/// A number and the one with the other sign are rounded alike.
pub proof fn law_signs_are_kept(bits: u64)
    requires
        bits < 0x8000_0000_0000_0000,
        float_exponent(bits) < 1085,
    ensures
        float_rounded((bits + 0x8000_0000_0000_0000) as u64) == -float_rounded(bits),
        float_rounded(bits) >= 0,
{
    let other = (bits + 0x8000_0000_0000_0000) as u64;
    assert(other % 0x10_0000_0000_0000 == bits % 0x10_0000_0000_0000);
    assert(other / 0x10_0000_0000_0000 == bits / 0x10_0000_0000_0000 + 2048);
    assert(float_exponent(other) == float_exponent(bits));
    let size = nearest(float_size(bits).0, float_size(bits).1) as int;
    let (m, k) = float_size(bits);
    assert(m < 0x20_0000_0000_0000);
    assert(size <= 0x7fff_ffff_ffff_ffff) by {
        if k >= 0 {
            assert(k <= 9);
            vstd::arithmetic::power2::lemma_pow2_strictly_increases(k as nat, 10);
            vstd::arithmetic::power2::lemma2_to64();
            assert(m * pow2(k as nat) <= 0x20_0000_0000_0000 * 1023) by (nonlinear_arith)
                requires
                    m <= 0x20_0000_0000_0000,
                    pow2(k as nat) <= 1023,
            ;
        } else {
            law_rounding_goes_to_the_nearest(m, k);
            let d = pow2((-k) as nat);
            vstd::arithmetic::power2::lemma_pow2_pos((-k) as nat);
            let n = nearest(m, k);
            assert(n <= 2 * m + 1) by (nonlinear_arith)
                requires
                    2 * d * n <= 2 * m + d,
                    d >= 1,
            ;
        }
    }
}

/// A report that was taken is answered with the status and the time that came back; every other
/// outcome is answered with an error.
pub proof fn law_answers_to_a_report(outcome: ReportOutcome)
    ensures
        report_answer(outcome).0 is Ok <==> outcome is Acknowledged,
        outcome matches ReportOutcome::Acknowledged { ack } ==> {
            let j = ack_json(ack.status@, ack.received_at@);
            &&& report_answer(outcome).0 == Ok::<Seq<char>, Seq<char>>(json_text(j))
            &&& text_field(j, "status"@) == Some(ack.status@)
            &&& text_field(j, "receivedAt"@) == Some(ack.received_at@)
        },
        outcome matches ReportOutcome::Unreachable { fault } ==> report_answer(outcome).0 == Err::<
            Seq<char>,
            Seq<char>,
        >(fault@),
{
    if let ReportOutcome::Acknowledged { ack } = outcome {
        reveal_strlit("receivedAt");
        reveal_strlit("status");
        assert("receivedAt"@.len() == 10 && "status"@.len() == 6);
        let entries = ack_json(ack.status@, ack.received_at@)->Object_0;
        lemma_lookup_at(entries, "receivedAt"@, 0);
        lemma_lookup_at(entries, "status"@, 1);
    }
}

/// A report is refused where the client is not configured, and read from its text where it is.
pub proof fn law_reports_need_a_client(payload: Seq<char>, j: JsonView)
    ensures
        report_for(false, payload) is Err,
        json_read(payload) == Ok::<JsonView, Seq<char>>(j) && report_of(j) is Ok ==> report_for(
            true,
            payload,
        ) == report_of(j),
        json_read(payload) is Err ==> report_for(true, payload) is Err,
        json_read(payload) == Ok::<JsonView, Seq<char>>(j) && report_of(j) is Err ==> report_for(
            true,
            payload,
        ) is Err,
{
}

} // verus!
