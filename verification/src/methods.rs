use vstd::prelude::*;
use crate::config::AppError;
use crate::text::{i64_text, int_text, lemma_i64_text_round_trip, parse_i64};
use crate::token::{jwt_decode, jwt_payload, token_secret};

verus! {

/// Reads the clock: `chrono::Local::now().timestamp()`, the whole seconds
/// since the Unix epoch. Claimed: the reading is not negative, since
/// `Utc::now` (which `Local::now` goes through) panics on a clock before the
/// epoch. Which time it reads is not stated.
#[verifier::external_body]
fn unix_seconds_now() -> (t: i64)
    ensures
        t >= 0,
{
    chrono::Local::now().timestamp()
}

/// The current time, written as decimal seconds since the Unix epoch.
pub fn now() -> (s: String)
    ensures
        exists|t: i64| t >= 0 && s@ == int_text(t as int),
{
    let t = unix_seconds_now();
    i64_text(t)
}

/// The answer to a token check: the payload text where it passed, and an
/// error with code 500 and the message of the failure where it did not.
pub fn decode_outcome(r: Result<String, String>) -> (out: Result<String, AppError>)
    ensures
        match r {
            Ok(p) => out matches Ok(q) && q@ == p@,
            Err(m) => out matches Err(e) && e.code == 500 && e.msg@ == m@,
        },
{
    match r {
        Ok(p) => Ok(p),
        Err(msg) => Err(AppError::err(500, msg)),
    }
}

/// Checks a bearer token with `jwt_decode` and gives the JSON text of its
/// claims; a token that does not pass is answered as `decode_outcome` says.
pub fn my_decode(token: &str) -> (r: Result<String, AppError>)
    ensures
        r matches Ok(p) ==> jwt_payload(token@, token_secret()) == Some(p@),
        jwt_payload(token@, token_secret()) is None ==> r is Err,
        r matches Err(e) ==> e.code == 500,
        jwt_payload(token@, token_secret()) is Some ==> (r matches Err(e) ==> e.msg@
            == "ExpiredSignature"@),
{
    decode_outcome(jwt_decode(token, "secret"))
}

/// When a reminder fires: how many seconds before the item starts.
pub const REMINDER_LEAD: i64 = 300;

/// A reminder's timing: the signed number of seconds until it is due, and
/// how long the reminder waits (that number taken as a `u64`, as `as` does).
#[derive(Debug)]
pub struct Reminder {
    pub hint_time: i64,
    pub sleep_secs: u64,
}

pub open spec fn in_i64(v: int) -> bool {
    i64::MIN <= v <= i64::MAX
}

/// Seconds from `now` until five minutes before `start_time`.
pub open spec fn hint_time_of(start_time: int, now: int) -> int {
    start_time - now - 300
}

/// A signed count of seconds read as an unsigned one (two's complement).
pub open spec fn as_u64(v: int) -> int {
    if v >= 0 {
        v
    } else {
        v + 0x1_0000_0000_0000_0000
    }
}

/// Both subtractions of `start_time - now - 300` stay within `i64`.
pub open spec fn reminder_in_range(start_time: int, now: int) -> bool {
    in_i64(start_time - now) && in_i64(start_time - now - 300)
}

/// What a reminder for an item starting at `start_time` is when the clock
/// reads `now`: its timing, or nothing where the subtraction would leave the
/// range of `i64`.
pub open spec fn reminder_at(start_time: int, now: int, r: Option<Reminder>) -> bool {
    match r {
        Some(p) => reminder_in_range(start_time, now) && p.hint_time == hint_time_of(
            start_time,
            now,
        ) && p.sleep_secs == as_u64(p.hint_time as int),
        None => !reminder_in_range(start_time, now),
    }
}

/// The timing of a reminder for an item starting at `start_time` when the
/// clock reads `now`; `None` where `start_time - now - 300` would leave the
/// range of `i64`.
pub fn plan_reminder(start_time: i64, now: i64) -> (r: Option<Reminder>)
    ensures
        reminder_at(start_time as int, now as int, r),
{
    let diff = start_time.checked_sub(now);
    if diff.is_none() {
        return None;
    }
    let hint = diff.unwrap().checked_sub(REMINDER_LEAD);
    if hint.is_none() {
        return None;
    }
    let hint_time = hint.unwrap();
    let sleep_secs: u64 = if hint_time >= 0 {
        hint_time as u64
    } else {
        ((hint_time as i128) + 0x1_0000_0000_0000_0000i128) as u64
    };
    Some(Reminder { hint_time, sleep_secs })
}

/// Two clock readings give reminders for the same item
/// that are due the same number of seconds apart: the later the reading, the
/// sooner the reminder.
pub proof fn lemma_reminder_follows_clock(start_time: int, t1: int, t2: int, p1: Reminder, p2: Reminder)
    requires
        reminder_at(start_time, t1, Some(p1)),
        reminder_at(start_time, t2, Some(p2)),
    ensures
        p1.hint_time - p2.hint_time == t2 - t1,
        p1.hint_time + t1 + 300 == start_time,
{
}

/// The timing of a reminder for an item starting at `start_time`, reading the
/// clock through `now` and its decimal text, as `plan_reminder` gives it for
/// that reading. Since the clock never reads before the epoch, a start time
/// of at least 299 always has a reminder.
pub fn reminder(start_time: i64) -> (r: Option<Reminder>)
    ensures
        exists|t: i64| t >= 0 && reminder_at(start_time as int, t as int, r),
        start_time >= 299 ==> r is Some,
{
    let text = now();
    let ghost t = choose|t: i64| t >= 0 && text@ == int_text(t as int);
    proof {
        lemma_i64_text_round_trip(t as int);
    }
    let parsed = parse_i64(text.as_str());
    let current = parsed.unwrap();
    assert(current == t);
    plan_reminder(start_time, current)
}

/// The line logged before a reminder waits: `hint_time:` and the number.
pub fn hint_log_line(hint_time: i64) -> (s: String)
    ensures
        s@ == "hint_time:"@ + int_text(hint_time as int),
{
    let mut s = String::from_str("hint_time:");
    s.append(i64_text(hint_time).as_str());
    s
}

} // verus!
