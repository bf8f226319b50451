//! The timers as the dashboard shows them: the records `systemctl` reports,
//! how their times and states are rendered, how the list is assembled, and
//! the commands and command outputs around them.
use vstd::prelude::*;
use vstd::utf8::{decode_utf8, valid_utf8};
use chrono::TimeZone;
use crate::metadata::{string_views, timer_metadata};
use crate::table::UnitTable;
use crate::text::{
    append_chars, chars_eq, chars_lt, chars_of, decimal, digit_char, push_decimal, seq_lt,
    string_from_chars,
    trim, trim_end, trim_start, trimmed,
};

verus! {

broadcast use vstd::string::group_string_axioms;

/// One timer as `systemctl --user list-timers --output json` reports it:
/// times in microseconds since the epoch.
#[derive(Debug, Clone)]
pub struct RawTimerInfo {
    pub next: Option<u64>,
    pub last: Option<u64>,
    pub unit: String,
    pub activates: Option<String>,
}

/// One row of the timer list.
#[derive(Debug, Clone)]
pub struct TimerInfo {
    pub unit: String,
    pub activates: String,
    pub next_abs: String,
    pub last_abs: String,
    pub next_rel: String,
    pub last_rel: String,
    pub status: String,
    pub schedule: String,
}

// ---------------------------------------------------------------------------
// Decoding command output
// ---------------------------------------------------------------------------

/// The text that `String::from_utf8_lossy` makes of `bytes`.
pub uninterp spec fn utf8_lossy(bytes: Seq<u8>) -> Seq<char>;

/// `String::from_utf8_lossy`: the text of `bytes`, with each invalid UTF-8
/// sequence replaced by U+FFFD; valid UTF-8 is decoded as it is.
#[verifier::external_body]
pub(crate) fn decode_lossy(bytes: &[u8]) -> (s: String)
    ensures
        s@ == utf8_lossy(bytes@),
        valid_utf8(bytes@) ==> s@ == decode_utf8(bytes@),
{
    String::from_utf8_lossy(bytes).into_owned()
}

/// The error reported for a failed command whose standard error reads
/// `err`: that text, or a fixed message when it is blank.
pub open spec fn failure_message(err: Seq<char>) -> Seq<char> {
    if trim(err).len() == 0 {
        "command failed without an error message"@
    } else {
        err
    }
}

/// The outcome of a command that produces nothing but a status: its
/// standard error text when it failed, or a fixed message when that text is
/// blank, so that a failure never carries an empty error.
pub fn command_outcome(success: bool, stderr: &[u8]) -> (r: Result<(), String>)
    ensures
        match r {
            Ok(()) => success,
            Err(e) => !success && e@ == failure_message(utf8_lossy(stderr@)) && (valid_utf8(
                stderr@,
            ) ==> e@ == failure_message(decode_utf8(stderr@))),
        },
        r matches Err(e) ==> e@.len() > 0,
{
    if success {
        Ok(())
    } else {
        let text = decode_lossy(stderr);
        let chars = chars_of(text.as_str());
        let t = trimmed(chars.as_slice());
        if t.len() == 0 {
            let msg = "command failed without an error message";
            proof {
                reveal_strlit("command failed without an error message");
            }
            Err(string_from_chars(chars_of(msg).as_slice()))
        } else {
            proof {
                if text@.len() == 0 {
                    assert(trim_start(text@) == text@);
                    assert(trim_end(text@) == text@);
                }
            }
            Err(text)
        }
    }
}

/// The text of a command's output, as the status and log views show it.
pub fn command_output_text(stdout: &[u8]) -> (s: String)
    ensures
        s@ == utf8_lossy(stdout@),
        valid_utf8(stdout@) ==> s@ == decode_utf8(stdout@),
{
    decode_lossy(stdout)
}

/// What the service-file view shows for the output of `systemctl cat`:
/// the output when the command succeeded with some non-blank text, and
/// otherwise an error naming the trimmed standard error, or `empty output`.
pub open spec fn service_file_outcome(out: Seq<char>, err: Seq<char>, success: bool) -> Result<
    Seq<char>,
    Seq<char>,
> {
    if success && trim(out).len() > 0 {
        Ok(out)
    } else {
        let detail = if success {
            "empty output"@
        } else {
            let e = trim(err);
            if e.len() == 0 {
                "empty output"@
            } else {
                e
            }
        };
        Err("Service file unavailable: "@ + detail)
    }
}

/// The view of a `Result<String, String>`.
pub open spec fn result_view(r: Result<String, String>) -> Result<Seq<char>, Seq<char>> {
    match r {
        Ok(s) => Ok(s@),
        Err(e) => Err(e@),
    }
}

/// The service-file view for the decoded output of `systemctl cat`.
pub fn service_file_result(stdout_text: &str, stderr_text: &str, success: bool) -> (r: Result<
    String,
    String,
>)
    ensures
        result_view(r) == service_file_outcome(stdout_text@, stderr_text@, success),
{
    let out = chars_of(stdout_text);
    let t = trimmed(out.as_slice());
    if success && t.len() > 0 {
        return Ok(string_from_chars(out.as_slice()));
    }
    let detail = if success {
        chars_of("empty output")
    } else {
        let err = chars_of(stderr_text);
        let e = trimmed(err.as_slice());
        if e.len() == 0 {
            chars_of("empty output")
        } else {
            e
        }
    };
    let mut msg = chars_of("Service file unavailable: ");
    append_chars(&mut msg, detail.as_slice());
    Err(string_from_chars(msg.as_slice()))
}

/// The service-file view for the raw output of `systemctl cat`.
pub fn normalize_service_file_output(stdout: &[u8], stderr: &[u8], success: bool) -> (r: Result<
    String,
    String,
>)
    ensures
        result_view(r) == service_file_outcome(utf8_lossy(stdout@), utf8_lossy(stderr@), success),
        valid_utf8(stdout@) && valid_utf8(stderr@) ==> result_view(r) == service_file_outcome(
            decode_utf8(stdout@),
            decode_utf8(stderr@),
            success,
        ),
{
    let out = decode_lossy(stdout);
    let err = decode_lossy(stderr);
    service_file_result(out.as_str(), err.as_str(), success)
}

/// The service file is shown exactly when `systemctl cat` succeeded with
/// non-blank output, and as it was output; otherwise the error always says
/// that the service file is unavailable.
pub proof fn lemma_service_file_outcome(out: Seq<char>, err: Seq<char>, success: bool)
    ensures
        service_file_outcome(out, err, success) is Ok <==> success && trim(out).len() > 0,
        service_file_outcome(out, err, success) is Ok ==> service_file_outcome(out, err, success)->Ok_0 == out,
        service_file_outcome(out, err, success) is Err ==> "Service file unavailable: "@.is_prefix_of(
            service_file_outcome(out, err, success)->Err_0,
        ),
{
    let r = service_file_outcome(out, err, success);
    if r is Err {
        let p = "Service file unavailable: "@;
        let e = r->Err_0;
        assert(e.subrange(0, p.len() as int) =~= p);
    }
}

// ---------------------------------------------------------------------------
// Times
// ---------------------------------------------------------------------------

/// How long ago (`is_next` false) or how far ahead (`is_next` true) the time
/// `us` is from `now`, both in microseconds: `n/a` for no time or time 0,
/// `just now` for no difference, else the largest unit that is reached
/// (days, hours, minutes, seconds), with the next smaller unit added for a
/// time ahead when it is not zero.
pub open spec fn relative_time_text(us: Option<u64>, now: u64, is_next: bool) -> Seq<char> {
    match us {
        None => "n/a"@,
        Some(t) => if t == 0 {
            "n/a"@
        } else {
            let diff: int = if is_next {
                if t > now { t - now } else { 0 }
            } else {
                if now > t { now - t } else { 0 }
            };
            if diff == 0 {
                "just now"@
            } else {
                let secs = diff / 1_000_000;
                let mins = secs / 60;
                let hours = mins / 60;
                let days = hours / 24;
                let prefix = if is_next { "in "@ } else { Seq::<char>::empty() };
                let suffix = if is_next { Seq::<char>::empty() } else { " ago"@ };
                let amount = if days > 0 {
                    decimal(days as nat) + "d"@ + if is_next && hours % 24 > 0 {
                        " "@ + decimal((hours % 24) as nat) + "h"@
                    } else {
                        Seq::<char>::empty()
                    }
                } else if hours > 0 {
                    decimal(hours as nat) + "h"@ + if is_next && mins % 60 > 0 {
                        " "@ + decimal((mins % 60) as nat) + "m"@
                    } else {
                        Seq::<char>::empty()
                    }
                } else if mins > 0 {
                    decimal(mins as nat) + "m"@
                } else {
                    decimal(secs as nat) + "s"@
                };
                prefix + amount + suffix
            }
        },
    }
}

fn push_lit(out: &mut Vec<char>, s: &str)
    ensures
        final(out)@ == old(out)@ + s@,
{
    let cs = chars_of(s);
    append_chars(out, cs.as_slice());
}

/// Renders the distance between the time `us` and `now` (microseconds):
/// `in 2d 3h`, `5m ago`, `just now`, `n/a`.
pub fn format_time_rel(us: Option<u64>, now: u64, is_next: bool) -> (r: String)
    ensures
        r@ == relative_time_text(us, now, is_next),
{
    let t = match us {
        None => {
            return string_from_chars(chars_of("n/a").as_slice());
        },
        Some(t) => t,
    };
    if t == 0 {
        return string_from_chars(chars_of("n/a").as_slice());
    }
    let diff = if is_next {
        if t > now { t - now } else { 0 }
    } else {
        if now > t { now - t } else { 0 }
    };
    if diff == 0 {
        return string_from_chars(chars_of("just now").as_slice());
    }
    let secs = diff / 1_000_000;
    let mins = secs / 60;
    let hours = mins / 60;
    let days = hours / 24;
    let mut amount: Vec<char> = Vec::new();
    if days > 0 {
        push_decimal(&mut amount, days);
        push_lit(&mut amount, "d");
        if is_next && hours % 24 > 0 {
            push_lit(&mut amount, " ");
            push_decimal(&mut amount, hours % 24);
            push_lit(&mut amount, "h");
        }
    } else if hours > 0 {
        push_decimal(&mut amount, hours);
        push_lit(&mut amount, "h");
        if is_next && mins % 60 > 0 {
            push_lit(&mut amount, " ");
            push_decimal(&mut amount, mins % 60);
            push_lit(&mut amount, "m");
        }
    } else if mins > 0 {
        push_decimal(&mut amount, mins);
        push_lit(&mut amount, "m");
    } else {
        push_decimal(&mut amount, secs);
        push_lit(&mut amount, "s");
    }
    let mut out: Vec<char> = Vec::new();
    if is_next {
        push_lit(&mut out, "in ");
    }
    append_chars(&mut out, amount.as_slice());
    if !is_next {
        push_lit(&mut out, " ago");
    }
    proof {
        let e = Seq::<char>::empty();
        assert(e + amount@ =~= amount@);
        assert(amount@ + e =~= amount@);
        assert(out@ =~= relative_time_text(us, now, is_next));
    }
    string_from_chars(out.as_slice())
}

/// The proleptic-Gregorian date `(year, month, day)` of day `z`, counting
/// 1970-01-01 as day 0 (days are grouped into 400-year eras of 146097 days,
/// each year taken to start on March 1).
pub open spec fn civil_from_days(z: int) -> (int, int, int) {
    let zz = z + 719468;
    let era = zz / 146097;
    let doe = zz - era * 146097;
    let yoe = (doe - doe / 1460 + doe / 36524 - doe / 146096) / 365;
    let doy = doe - (365 * yoe + yoe / 4 - yoe / 100);
    let mp = (5 * doy + 2) / 153;
    let d = doy - (153 * mp + 2) / 5 + 1;
    let m = if mp < 10 { mp + 3 } else { mp - 9 };
    let y = yoe + era * 400;
    (if m <= 2 { y + 1 } else { y }, m, d)
}

/// Two decimal digits of `n` (0 to 99).
pub open spec fn digits2(n: int) -> Seq<char> {
    seq![digit_char((n / 10) as nat), digit_char((n % 10) as nat)]
}

/// Four decimal digits of `n` (0 to 9999).
pub open spec fn digits4(n: int) -> Seq<char> {
    seq![
        digit_char((n / 1000) as nat),
        digit_char((n / 100 % 10) as nat),
        digit_char((n / 10 % 10) as nat),
        digit_char((n % 10) as nat),
    ]
}

/// A year as `%Y` writes it: four digits for years 0 to 9999, else with a
/// sign (at least four digits after a `-`).
pub open spec fn year_text(y: int) -> Seq<char> {
    if 0 <= y <= 9999 {
        digits4(y)
    } else if y > 9999 {
        "+"@ + decimal(y as nat)
    } else if y >= -9999 {
        "-"@ + digits4(-y)
    } else {
        "-"@ + decimal((-y) as nat)
    }
}

/// The wall-clock text `YYYY-MM-DD HH:MM:SS` of the second `s` counted
/// from 1970-01-01 00:00:00.
pub open spec fn ymd_hms_text(s: int) -> Seq<char> {
    let date = civil_from_days(s / 86400);
    let sod = s % 86400;
    year_text(date.0) + "-"@ + digits2(date.1) + "-"@ + digits2(date.2) + " "@ + digits2(sod / 3600)
        + ":"@ + digits2(sod % 3600 / 60) + ":"@ + digits2(sod % 60)
}

/// A wall-clock text of a year from 0 to 9999 has the shape
/// `YYYY-MM-DD HH:MM:SS`: 19 characters, `-` at 4 and 7, a space at 10 and
/// `:` at 13 and 16.
pub proof fn lemma_wall_clock_text_shape(s: int)
    requires
        0 <= civil_from_days(s / 86400).0 <= 9999,
    ensures
        ymd_hms_text(s).len() == 19,
        ymd_hms_text(s)[4] == '-',
        ymd_hms_text(s)[7] == '-',
        ymd_hms_text(s)[10] == ' ',
        ymd_hms_text(s)[13] == ':',
        ymd_hms_text(s)[16] == ':',
{
    reveal_strlit("-");
    reveal_strlit(" ");
    reveal_strlit(":");
}

/// Whether `chrono` represents the instant `secs` seconds after the epoch:
/// its year is between -262143 and 262142.
pub open spec fn chrono_timestamp_in_range(secs: int) -> bool {
    let y = civil_from_days(secs / 86400).0;
    -262143 <= y <= 262142
}

/// The wall-clock text of the instant `secs` in a zone `offset` seconds
/// ahead of UTC.
pub open spec fn local_text_at(secs: int, offset: int) -> Seq<char> {
    ymd_hms_text(secs + offset)
}

/// Whether `text` is the wall-clock text of the instant `secs` in some time
/// zone less than a day away from UTC.
pub open spec fn is_local_rendering(secs: int, text: Seq<char>) -> bool {
    exists|offset: int| -86400 < offset < 86400 && #[trigger] local_text_at(secs, offset) == text
}

/// `chrono`: `Utc.timestamp_opt(secs, nanos)`, then `with_timezone(&Local)`
/// and `format("%Y-%m-%d %H:%M:%S")`. `timestamp_opt` gives a single
/// instant exactly when the instant's year is in `chrono`'s range; the local
/// wall clock is the UTC one moved by the zone's offset, which a
/// `FixedOffset` keeps under a day. Which offset the machine's zone gives is
/// not stated. The zone lookup's `expect` cannot fire for an instant in that
/// range (its year is far inside `i32`, and the leap-second sums do not
/// overflow `i64`), and the pattern is fixed and valid, so formatting does
/// not fail. Left unsaid: `chrono` panics (the `unwrap` in `Local`'s
/// `offset_from_utc_datetime`) when the machine's zone data gives an offset
/// of a day or more, which only a malformed zone file or `TZ` value does: a
/// state of the machine that no argument can exclude.
#[verifier::external_body]
fn local_time_text(secs: i64, nanos: u32) -> (r: Option<String>)
    requires
        nanos < 1_000_000_000,
    ensures
        r is Some <==> chrono_timestamp_in_range(secs as int),
        r matches Some(text) ==> is_local_rendering(secs as int, text@),
{
    match chrono::Utc.timestamp_opt(secs, nanos) {
        chrono::LocalResult::Single(d) => Some(
            d.with_timezone(&chrono::Local).format("%Y-%m-%d %H:%M:%S").to_string(),
        ),
        _ => None,
    }
}

/// The whole seconds of a time in microseconds.
pub open spec fn whole_seconds(t: u64) -> int {
    t as int / 1_000_000
}

/// What holds of the absolute rendering `text` of the time `us`: `n/a` for
/// no time or time 0, `invalid` for a time out of `chrono`'s range, else the
/// local wall-clock text `YYYY-MM-DD HH:MM:SS` of its second (in a zone less
/// than a day away from UTC).
pub open spec fn absolute_time_fits(us: Option<u64>, text: Seq<char>) -> bool {
    match us {
        None => text == "n/a"@,
        Some(t) => if t == 0 {
            text == "n/a"@
        } else if !chrono_timestamp_in_range(whole_seconds(t)) {
            text == "invalid"@
        } else {
            is_local_rendering(whole_seconds(t), text)
        },
    }
}

/// Renders the time `us` (microseconds) as local `YYYY-MM-DD HH:MM:SS`.
pub fn format_time_abs(us: Option<u64>) -> (r: String)
    ensures
        absolute_time_fits(us, r@),
{
    match us {
        None => string_from_chars(chars_of("n/a").as_slice()),
        Some(t) => {
            if t == 0 {
                return string_from_chars(chars_of("n/a").as_slice());
            }
            let secs = (t / 1_000_000) as i64;
            let nanos = ((t % 1_000_000) * 1000) as u32;
            match local_time_text(secs, nanos) {
                Some(s) => s,
                None => string_from_chars(chars_of("invalid").as_slice()),
            }
        },
    }
}

// ---------------------------------------------------------------------------
// Assembling the timer list
// ---------------------------------------------------------------------------

/// The state shown for a timer: `Active` when its next run is ahead,
/// `Waiting` when it is due, `Inactive` when it has none.
pub open spec fn status_text(next: Option<u64>, now: u64) -> Seq<char> {
    match next {
        Some(n) => if n > now {
            "Active"@
        } else {
            "Waiting"@
        },
        None => "Inactive"@,
    }
}

/// Whether a timer is dropped from the list: its unit is no longer found.
pub open spec fn is_not_found(unit: Seq<char>, load_states: Map<Seq<char>, Seq<char>>) -> bool {
    load_states.contains_key(unit) && load_states[unit] == "not-found"@
}

/// Whether a timer is left out of the list: its unit has no name, or is no
/// longer found.
pub open spec fn is_dropped(unit: Seq<char>, load_states: Map<Seq<char>, Seq<char>>) -> bool {
    unit.len() == 0 || is_not_found(unit, load_states)
}

/// The timers that are kept, in their order.
pub open spec fn kept_timers(raws: Seq<RawTimerInfo>, load_states: Map<Seq<char>, Seq<char>>) -> Seq<
    RawTimerInfo,
>
    decreases raws.len(),
{
    if raws.len() == 0 {
        Seq::empty()
    } else {
        let k = kept_timers(raws.drop_last(), load_states);
        if is_dropped(raws.last().unit@, load_states) {
            k
        } else {
            k.push(raws.last())
        }
    }
}

/// Where a stable insertion puts `x` into the sorted `r`: after every entry
/// whose unit does not come after the unit of `x`.
pub open spec fn insert_position(r: Seq<RawTimerInfo>, x: RawTimerInfo) -> nat
    decreases r.len(),
{
    if r.len() == 0 {
        0
    } else if seq_lt(x.unit@, r.last().unit@) {
        insert_position(r.drop_last(), x)
    } else {
        r.len()
    }
}

/// `s` stably sorted by unit name (the order `sort_by` with `str::cmp` gives).
pub open spec fn sorted_by_unit(s: Seq<RawTimerInfo>) -> Seq<RawTimerInfo>
    decreases s.len(),
{
    if s.len() == 0 {
        Seq::empty()
    } else {
        let r = sorted_by_unit(s.drop_last());
        r.insert(insert_position(r, s.last()) as int, s.last())
    }
}

/// Whether `t` is the row shown for `raw`, given the schedule texts and the
/// current time `now` (microseconds).
pub open spec fn timer_row(
    raw: RawTimerInfo,
    t: TimerInfo,
    schedules: Map<Seq<char>, Seq<char>>,
    now: u64,
) -> bool {
    &&& t.unit@ == raw.unit@
    &&& t.activates@ == match raw.activates {
        Some(a) => a@,
        None => "n/a"@,
    }
    &&& absolute_time_fits(raw.next, t.next_abs@)
    &&& absolute_time_fits(raw.last, t.last_abs@)
    &&& t.next_rel@ == relative_time_text(raw.next, now, true)
    &&& t.last_rel@ == relative_time_text(raw.last, now, false)
    &&& t.status@ == status_text(raw.next, now)
    &&& t.schedule@ == if schedules.contains_key(raw.unit@) {
        schedules[raw.unit@]
    } else {
        "n/a"@
    }
}

/// Whether `rows` is the timer list for `raws`: the timers with a unit name
/// that is still found, sorted by unit name, each rendered at time `now`.
pub open spec fn timer_list(
    raws: Seq<RawTimerInfo>,
    schedules: Map<Seq<char>, Seq<char>>,
    load_states: Map<Seq<char>, Seq<char>>,
    now: u64,
    rows: Seq<TimerInfo>,
) -> bool {
    let s = sorted_by_unit(kept_timers(raws, load_states));
    &&& rows.len() == s.len()
    &&& forall|i: int| 0 <= i < s.len() ==> timer_row(s[i], #[trigger] rows[i], schedules, now)
}

fn is_not_found_exec(unit: &String, load_states: &UnitTable) -> (b: bool)
    ensures
        b == is_not_found(unit@, load_states@),
{
    match load_states.get(unit.as_str()) {
        Some(s) => {
            let v = chars_of(s.as_str());
            let nf = chars_of("not-found");
            chars_eq(v.as_slice(), nf.as_slice())
        },
        None => false,
    }
}

fn is_dropped_exec(unit: &String, load_states: &UnitTable) -> (b: bool)
    ensures
        b == is_dropped(unit@, load_states@),
{
    let name = chars_of(unit.as_str());
    name.len() == 0 || is_not_found_exec(unit, load_states)
}

fn status_string(next: Option<u64>, now: u64) -> (r: String)
    ensures
        r@ == status_text(next, now),
{
    let s = match next {
        Some(n) => if n > now {
            "Active"
        } else {
            "Waiting"
        },
        None => "Inactive",
    };
    string_from_chars(chars_of(s).as_slice())
}

/// The row shown for `raw` at time `now`.
fn timer_row_of(raw: RawTimerInfo, schedules: &UnitTable, now: u64) -> (t: TimerInfo)
    ensures
        timer_row(raw, t, schedules@, now),
{
    let next_abs = format_time_abs(raw.next);
    let last_abs = format_time_abs(raw.last);
    let next_rel = format_time_rel(raw.next, now, true);
    let last_rel = format_time_rel(raw.last, now, false);
    let schedule = match schedules.get(raw.unit.as_str()) {
        Some(s) => s.clone(),
        None => string_from_chars(chars_of("n/a").as_slice()),
    };
    let status = status_string(raw.next, now);
    let activates = match raw.activates {
        Some(a) => a,
        None => string_from_chars(chars_of("n/a").as_slice()),
    };
    TimerInfo {
        unit: raw.unit,
        activates,
        next_abs,
        last_abs,
        next_rel,
        last_rel,
        status,
        schedule,
    }
}

/// Inserts `x` into the sorted `v` at its stable position.
fn insert_sorted(v: &mut Vec<RawTimerInfo>, x: RawTimerInfo)
    ensures
        final(v)@ == old(v)@.insert(insert_position(old(v)@, x) as int, x),
{
    let mut p = v.len();
    assert(v@.take(p as int) =~= v@);
    while p > 0 && chars_lt(chars_of(x.unit.as_str()).as_slice(), chars_of(v[p - 1].unit.as_str()).as_slice())
        invariant
            p <= v@.len(),
            v@ == old(v)@,
            insert_position(v@.take(p as int), x) == insert_position(v@, x),
        decreases p,
    {
        assert(v@.take(p as int).drop_last() =~= v@.take(p - 1));
        p = p - 1;
    }
    proof {
        if p > 0 {
            assert(v@.take(p as int).last() == v@[p - 1]);
        }
    }
    v.insert(p, x);
}

/// The timer list for `raws` at time `now` (microseconds): the timers with
/// a unit name whose load state is not `not-found`, sorted by unit name (stable), each
/// with its schedule text (`n/a` when none is known), rendered times and
/// state.
pub fn assemble_timers(
    raws: Vec<RawTimerInfo>,
    schedules: &UnitTable,
    load_states: &UnitTable,
    now: u64,
) -> (rows: Vec<TimerInfo>)
    ensures
        timer_list(raws@, schedules@, load_states@, now, rows@),
{
    let ghost all = raws@;
    let mut kept: Vec<RawTimerInfo> = Vec::new();
    let mut rest = raws;
    // Take the timers from the back, then restore their order.
    let mut back: Vec<RawTimerInfo> = Vec::new();
    while rest.len() > 0
        invariant
            rest@ + back@.reverse() == all,
        decreases rest@.len(),
    {
        let ghost before_rest = rest@;
        let ghost before_back = back@;
        let x = rest.pop().unwrap();
        back.push(x);
        assert(back@.reverse() =~= seq![x] + before_back.reverse());
        assert(rest@ + back@.reverse() =~= before_rest + before_back.reverse());
    }
    assert(back@.reverse() =~= all);
    let n = back.len();
    let mut i: usize = 0;
    assert(all.take(0) =~= Seq::<RawTimerInfo>::empty());
    while i < n
        invariant
            n == all.len(),
            i <= n,
            back@.len() == n - i,
            forall|j: int| 0 <= j < n - i ==> #[trigger] back@[j] == all[n - 1 - j],
            kept@ == sorted_by_unit(kept_timers(all.take(i as int), load_states@)),
        decreases n - i,
    {
        let x = back.pop().unwrap();
        assert(x == all[i as int]);
        assert(all.take(i + 1).drop_last() =~= all.take(i as int));
        assert(all.take(i + 1).last() == x);
        if !is_dropped_exec(&x.unit, load_states) {
            let ghost k = kept_timers(all.take(i as int), load_states@);
            assert(k.push(x).drop_last() =~= k);
            insert_sorted(&mut kept, x);
        }
        i = i + 1;
    }
    assert(all.take(n as int) =~= all);
    let ghost s = kept@;
    let mut rows: Vec<TimerInfo> = Vec::new();
    let mut queue = kept;
    let mut rev: Vec<RawTimerInfo> = Vec::new();
    while queue.len() > 0
        invariant
            queue@ + rev@.reverse() == s,
        decreases queue@.len(),
    {
        let ghost bq = queue@;
        let ghost br = rev@;
        let x = queue.pop().unwrap();
        rev.push(x);
        assert(rev@.reverse() =~= seq![x] + br.reverse());
        assert(queue@ + rev@.reverse() =~= bq + br.reverse());
    }
    assert(rev@.reverse() =~= s);
    let m = rev.len();
    let mut j: usize = 0;
    while j < m
        invariant
            m == s.len(),
            j <= m,
            rev@.len() == m - j,
            forall|q: int| 0 <= q < m - j ==> #[trigger] rev@[q] == s[m - 1 - q],
            rows@.len() == j,
            forall|q: int| 0 <= q < j ==> timer_row(s[q], #[trigger] rows@[q], schedules@, now),
        decreases m - j,
    {
        let x = rev.pop().unwrap();
        assert(x == s[j as int]);
        let t = timer_row_of(x, schedules, now);
        rows.push(t);
        j = j + 1;
    }
    rows
}

/// `UNIX_EPOCH.elapsed()`: the time since the epoch by the system clock;
/// `None` when the clock reads before the epoch. The reading depends on the
/// clock, so nothing is stated of it.
#[verifier::external_body]
fn time_since_epoch() -> Option<std::time::Duration> {
    std::time::UNIX_EPOCH.elapsed().ok()
}

/// `Duration::as_micros`: the whole microseconds in `d`. `d` comes from the
/// clock, so nothing is stated of the count.
#[verifier::external_body]
fn duration_micros(d: &std::time::Duration) -> u128 {
    d.as_micros()
}

/// The current time in microseconds since the epoch: `None` when the clock
/// reads before the epoch or the count does not fit in a `u64`.
fn now_micros() -> Option<u64> {
    match time_since_epoch() {
        Some(d) => {
            let us = duration_micros(&d);
            if us <= 0xffff_ffff_ffff_ffffu128 {
                Some(us as u64)
            } else {
                None
            }
        },
        None => None,
    }
}

/// The timer list for `raws` at the current time: the list that
/// `assemble_timers` makes for some time `now`; an error when the clock
/// cannot give the time as microseconds since the epoch in a `u64` (it reads
/// before 1970, or after about the year 586500).
pub fn build_timer_list(raws: Vec<RawTimerInfo>, schedules: &UnitTable, load_states: &UnitTable) -> (r: Result<Vec<TimerInfo>, String>)
    ensures
        match r {
            Ok(rows) => exists|now: u64| timer_list(raws@, schedules@, load_states@, now, rows@),
            Err(e) => e@ == "cannot read the current time: the system clock is before 1970 or out of range"@,
        },
{
    match now_micros() {
        Some(now) => {
            let ghost all = raws@;
            let rows = assemble_timers(raws, schedules, load_states, now);
            assert(timer_list(all, schedules@, load_states@, now, rows@));
            let r: Result<Vec<TimerInfo>, String> = Ok(rows);
            assert(r matches Ok(x) && x@ == rows@);
            r
        },
        None => Err("cannot read the current time: the system clock is before 1970 or out of range".to_owned()),
    }
}

// ---------------------------------------------------------------------------
// Laws of the timer list
// ---------------------------------------------------------------------------

/// Whether the rows are in order of unit name.
pub open spec fn rows_sorted(rows: Seq<TimerInfo>) -> bool {
    forall|i: int, j: int|
        0 <= i < j < rows.len() ==> !seq_lt(#[trigger] rows[j].unit@, #[trigger] rows[i].unit@)
}

/// Whether the raw timers are in order of unit name.
pub open spec fn raws_sorted(s: Seq<RawTimerInfo>) -> bool {
    forall|i: int, j: int|
        0 <= i < j < s.len() ==> !seq_lt(#[trigger] s[j].unit@, #[trigger] s[i].unit@)
}

proof fn lemma_not_lt_transitive(a: Seq<char>, b: Seq<char>, c: Seq<char>)
    requires
        !seq_lt(a, b),
        !seq_lt(b, c),
    ensures
        !seq_lt(a, c),
{
    crate::text::lemma_seq_lt_total(a, b);
    crate::text::lemma_seq_lt_total(b, c);
    if seq_lt(a, c) {
        if a == b {
            assert(seq_lt(b, c));
        } else if b == c {
        } else {
            crate::text::lemma_seq_lt_transitive(c, b, a);
            crate::text::lemma_seq_lt_transitive(a, c, a);
            crate::text::lemma_seq_lt_irreflexive(a);
        }
    }
}

proof fn lemma_lt_asymmetric(a: Seq<char>, b: Seq<char>)
    requires
        seq_lt(a, b),
    ensures
        !seq_lt(b, a),
{
    if seq_lt(b, a) {
        crate::text::lemma_seq_lt_transitive(a, b, a);
        crate::text::lemma_seq_lt_irreflexive(a);
    }
}

proof fn lemma_insert_position_spec(r: Seq<RawTimerInfo>, x: RawTimerInfo)
    ensures
        insert_position(r, x) <= r.len(),
        forall|j: int|
            insert_position(r, x) <= j < r.len() ==> seq_lt(x.unit@, #[trigger] r[j].unit@),
        insert_position(r, x) > 0 ==> !seq_lt(x.unit@, r[insert_position(r, x) - 1].unit@),
    decreases r.len(),
{
    if r.len() > 0 {
        lemma_insert_position_spec(r.drop_last(), x);
        if seq_lt(x.unit@, r.last().unit@) {
            let p = insert_position(r.drop_last(), x);
            assert forall|j: int| p <= j < r.len() implies seq_lt(
                x.unit@,
                #[trigger] r[j].unit@,
            ) by {
                if j < r.len() - 1 {
                    assert(r[j] == r.drop_last()[j]);
                }
            }
            if p > 0 {
                assert(r[p - 1] == r.drop_last()[p - 1]);
            }
        }
    }
}

/// A stable sort by unit name puts the timers in order of unit name and
/// keeps exactly the timers it was given.
pub proof fn lemma_sorted_by_unit(s: Seq<RawTimerInfo>)
    ensures
        raws_sorted(sorted_by_unit(s)),
        sorted_by_unit(s).to_multiset() == s.to_multiset(),
    decreases s.len(),
{
    broadcast use vstd::seq_lib::to_multiset_insert, vstd::seq_lib::to_multiset_build;

    if s.len() == 0 {
        assert(sorted_by_unit(s) =~= s);
    } else {
        let r = sorted_by_unit(s.drop_last());
        let x = s.last();
        lemma_sorted_by_unit(s.drop_last());
        lemma_insert_position_spec(r, x);
        let p = insert_position(r, x) as int;
        let out = r.insert(p, x);
        assert(s.drop_last().push(x) =~= s);
        assert forall|i: int, j: int| 0 <= i < j < out.len() implies !seq_lt(
            #[trigger] out[j].unit@,
            #[trigger] out[i].unit@,
        ) by {
            if j < p {
                assert(out[i] == r[i] && out[j] == r[j]);
            } else if j == p {
                assert(out[i] == r[i]);
                assert(!seq_lt(x.unit@, r[p - 1].unit@));
                if i < p - 1 {
                    assert(!seq_lt(r[p - 1].unit@, r[i].unit@));
                    lemma_not_lt_transitive(x.unit@, r[p - 1].unit@, r[i].unit@);
                }
            } else if i == p {
                assert(out[j] == r[j - 1]);
                assert(seq_lt(x.unit@, r[j - 1].unit@));
                lemma_lt_asymmetric(x.unit@, r[j - 1].unit@);
            } else if i < p {
                assert(out[i] == r[i] && out[j] == r[j - 1]);
            } else {
                assert(out[i] == r[i - 1] && out[j] == r[j - 1]);
            }
        }
    }
}

/// The timers kept are exactly those with a unit name that is still found.
pub proof fn lemma_kept_timers(raws: Seq<RawTimerInfo>, load_states: Map<Seq<char>, Seq<char>>)
    ensures
        forall|i: int|
            0 <= i < kept_timers(raws, load_states).len() ==> !is_dropped(
                #[trigger] kept_timers(raws, load_states)[i].unit@,
                load_states,
            ),
        forall|i: int|
            0 <= i < raws.len() && !is_dropped(#[trigger] raws[i].unit@, load_states)
                ==> kept_timers(raws, load_states).contains(raws[i]),
    decreases raws.len(),
{
    if raws.len() > 0 {
        lemma_kept_timers(raws.drop_last(), load_states);
        let k = kept_timers(raws.drop_last(), load_states);
        assert forall|i: int|
            0 <= i < raws.len() && !is_dropped(
                #[trigger] raws[i].unit@,
                load_states,
            ) implies kept_timers(raws, load_states).contains(raws[i]) by {
            if i < raws.len() - 1 {
                assert(raws[i] == raws.drop_last()[i]);
                let w = choose|w: int| 0 <= w < k.len() && k[w] == raws[i];
                if !is_dropped(raws.last().unit@, load_states) {
                    assert(k.push(raws.last())[w] == raws[i]);
                }
            } else {
                assert(k.push(raws.last())[k.len() as int] == raws[i]);
            }
        }
    }
}

/// The timer list is in order of unit name, shows no unit without a name or
/// no longer found, and shows every timer with a name that is still found.
pub proof fn lemma_timer_list_shape(
    raws: Seq<RawTimerInfo>,
    schedules: Map<Seq<char>, Seq<char>>,
    load_states: Map<Seq<char>, Seq<char>>,
    now: u64,
    rows: Seq<TimerInfo>,
)
    requires
        timer_list(raws, schedules, load_states, now, rows),
    ensures
        rows_sorted(rows),
        forall|i: int| 0 <= i < rows.len() ==> !is_dropped(#[trigger] rows[i].unit@, load_states),
        forall|i: int| 0 <= i < rows.len() ==> (#[trigger] rows[i].unit@).len() > 0,
        forall|i: int|
            0 <= i < raws.len() && !is_dropped(#[trigger] raws[i].unit@, load_states)
                ==> exists|j: int| 0 <= j < rows.len() && #[trigger] rows[j].unit@ == raws[i].unit@,
{
    broadcast use vstd::seq_lib::to_multiset_contains;

    let k = kept_timers(raws, load_states);
    let s = sorted_by_unit(k);
    lemma_sorted_by_unit(k);
    lemma_kept_timers(raws, load_states);
    assert forall|i: int, j: int| 0 <= i < j < rows.len() implies !seq_lt(
        #[trigger] rows[j].unit@,
        #[trigger] rows[i].unit@,
    ) by {
        assert(timer_row(s[i], rows[i], schedules, now));
        assert(timer_row(s[j], rows[j], schedules, now));
    }
    assert forall|i: int| 0 <= i < rows.len() implies !is_dropped(
        #[trigger] rows[i].unit@,
        load_states,
    ) by {
        assert(timer_row(s[i], rows[i], schedules, now));
        assert(s.contains(s[i]));
        assert(s.to_multiset().count(s[i]) > 0);
        assert(k.contains(s[i]));
        let w = choose|w: int| 0 <= w < k.len() && k[w] == s[i];
        assert(!is_dropped(k[w].unit@, load_states));
    }
    assert forall|i: int|
        0 <= i < raws.len() && !is_dropped(
            #[trigger] raws[i].unit@,
            load_states,
        ) implies exists|j: int| 0 <= j < rows.len() && #[trigger] rows[j].unit@ == raws[i].unit@ by {
        assert(k.contains(raws[i]));
        assert(k.to_multiset().count(raws[i]) > 0);
        assert(s.contains(raws[i]));
        let j = choose|j: int| 0 <= j < s.len() && s[j] == raws[i];
        assert(timer_row(s[j], rows[j], schedules, now));
        assert(rows[j].unit@ == raws[i].unit@);
    }
}

// ---------------------------------------------------------------------------
// Commands
// ---------------------------------------------------------------------------

/// A command the dashboard runs about user timers.
#[derive(Debug)]
pub enum UnitCommand {
    /// All user timers, as JSON.
    ListTimers,
    /// The schedule and load-state properties of the given timer units.
    Metadata(Vec<String>),
    /// All properties of a unit.
    Status(String),
    /// The last 50 journal entries of a service.
    Logs(String),
    /// The unit file of a service.
    ServiceFile(String),
    /// Start (`true`) or stop (`false`) a timer.
    Toggle(String, bool),
}

/// The properties asked for about each timer.
pub open spec fn metadata_flags() -> Seq<Seq<char>> {
    seq![
        "--user"@, "show"@,
        "-p"@, "Id"@,
        "-p"@, "LoadState"@,
        "-p"@, "OnCalendar"@,
        "-p"@, "OnBootSec"@,
        "-p"@, "OnStartupSec"@,
        "-p"@, "OnActiveSec"@,
        "-p"@, "OnUnitActiveSec"@,
        "-p"@, "OnUnitInactiveSec"@,
        "-p"@, "TimersCalendar"@,
        "-p"@, "TimersMonotonic"@,
        "--no-pager"@, "--"@,
    ]
}

/// The program a command runs.
pub open spec fn command_program(c: UnitCommand) -> Seq<char> {
    match c {
        UnitCommand::Logs(_) => "journalctl"@,
        _ => "systemctl"@,
    }
}

/// The arguments a command runs with.
pub open spec fn command_args(c: UnitCommand) -> Seq<Seq<char>> {
    match c {
        UnitCommand::ListTimers => seq![
            "--user"@,
            "list-timers"@,
            "--all"@,
            "--output"@,
            "json"@,
            "--no-pager"@,
        ],
        UnitCommand::Metadata(units) => metadata_flags() + string_views(units@),
        UnitCommand::Status(u) => seq!["--user"@, "show"@, "--no-pager"@, "--"@, u@],
        UnitCommand::Logs(s) => seq!["--user"@, "-u"@, s@, "-n"@, "50"@, "--no-pager"@],
        UnitCommand::ServiceFile(s) => seq!["--user"@, "cat"@, "--no-pager"@, "--"@, s@],
        UnitCommand::Toggle(u, start) => seq![
            "--user"@,
            if start { "start"@ } else { "stop"@ },
            "--"@,
            u@,
        ],
    }
}

/// The program and the arguments of a command.
pub fn command_line(c: &UnitCommand) -> (r: (String, Vec<String>))
    ensures
        r.0@ == command_program(*c),
        string_views(r.1@) == command_args(*c),
{
    match c {
        UnitCommand::ListTimers => {
            let args = vec![
                "--user".to_owned(),
                "list-timers".to_owned(),
                "--all".to_owned(),
                "--output".to_owned(),
                "json".to_owned(),
                "--no-pager".to_owned(),
            ];
            assert(string_views(args@) =~= command_args(*c));
            ("systemctl".to_owned(), args)
        },
        UnitCommand::Metadata(units) => {
            let mut args = vec![
                "--user".to_owned(), "show".to_owned(),
                "-p".to_owned(), "Id".to_owned(),
                "-p".to_owned(), "LoadState".to_owned(),
                "-p".to_owned(), "OnCalendar".to_owned(),
                "-p".to_owned(), "OnBootSec".to_owned(),
                "-p".to_owned(), "OnStartupSec".to_owned(),
                "-p".to_owned(), "OnActiveSec".to_owned(),
                "-p".to_owned(), "OnUnitActiveSec".to_owned(),
                "-p".to_owned(), "OnUnitInactiveSec".to_owned(),
                "-p".to_owned(), "TimersCalendar".to_owned(),
                "-p".to_owned(), "TimersMonotonic".to_owned(),
                "--no-pager".to_owned(), "--".to_owned(),
            ];
            assert(string_views(args@) =~= metadata_flags());
            let mut i: usize = 0;
            while i < units.len()
                invariant
                    i <= units@.len(),
                    string_views(args@) == metadata_flags() + string_views(units@).take(i as int),
                decreases units@.len() - i,
            {
                let ghost before = string_views(args@);
                args.push(units[i].clone());
                assert(string_views(args@) =~= before.push(units@[i as int]@));
                assert(string_views(units@).take(i + 1) =~= string_views(units@).take(
                    i as int,
                ).push(units@[i as int]@));
                i = i + 1;
            }
            assert(string_views(units@).take(units@.len() as int) =~= string_views(units@));
            ("systemctl".to_owned(), args)
        },
        UnitCommand::Status(u) => {
            let args = vec![
                "--user".to_owned(),
                "show".to_owned(),
                "--no-pager".to_owned(),
                "--".to_owned(),
                u.clone(),
            ];
            assert(string_views(args@) =~= command_args(*c));
            ("systemctl".to_owned(), args)
        },
        UnitCommand::Logs(sv) => {
            let args = vec![
                "--user".to_owned(),
                "-u".to_owned(),
                sv.clone(),
                "-n".to_owned(),
                "50".to_owned(),
                "--no-pager".to_owned(),
            ];
            assert(string_views(args@) =~= command_args(*c));
            ("journalctl".to_owned(), args)
        },
        UnitCommand::ServiceFile(sv) => {
            let args = vec![
                "--user".to_owned(),
                "cat".to_owned(),
                "--no-pager".to_owned(),
                "--".to_owned(),
                sv.clone(),
            ];
            assert(string_views(args@) =~= command_args(*c));
            ("systemctl".to_owned(), args)
        },
        UnitCommand::Toggle(u, start) => {
            let action = if *start {
                "start".to_owned()
            } else {
                "stop".to_owned()
            };
            let args = vec!["--user".to_owned(), action, "--".to_owned(), u.clone()];
            assert(string_views(args@) =~= command_args(*c));
            ("systemctl".to_owned(), args)
        },
    }
}

/// The metadata query for the given timer units; none is run for no units.
pub fn metadata_command(units: Vec<String>) -> (r: Option<UnitCommand>)
    ensures
        match r {
            Some(UnitCommand::Metadata(us)) => units@.len() > 0 && us == units,
            Some(_) => false,
            None => units@.len() == 0,
        },
{
    if units.len() == 0 {
        None
    } else {
        Some(UnitCommand::Metadata(units))
    }
}

/// The schedules and load states read from the metadata query's output;
/// both empty when the query failed.
pub fn metadata_from_output(success: bool, stdout: &[u8]) -> (r: (UnitTable, UnitTable))
    ensures
        success ==> (r.0@, r.1@) == timer_metadata(utf8_lossy(stdout@)),
        success && valid_utf8(stdout@) ==> (r.0@, r.1@) == timer_metadata(decode_utf8(stdout@)),
        !success ==> r.0@ == Map::<Seq<char>, Seq<char>>::empty() && r.1@ == Map::<
            Seq<char>,
            Seq<char>,
        >::empty(),
{
    if success {
        let text = decode_lossy(stdout);
        crate::metadata::extract_timer_metadata(text.as_str())
    } else {
        (UnitTable::new(), UnitTable::new())
    }
}

} // verus!
