//! Time, in words.

use vstd::prelude::*;

use crate::text::decimal_text;

verus! {

/// How long ago something was, in the largest unit that fits: minutes, hours, days
/// or weeks. Less than a minute, and the future, are now.
pub open spec fn ago(secs: int) -> Seq<char> {
    if secs < 60 {
        "just now"@
    } else if secs < 3600 {
        crate::text::decimal((secs / 60) as nat) + "m ago"@
    } else if secs < 86400 {
        crate::text::decimal((secs / 3600) as nat) + "h ago"@
    } else if secs < 604800 {
        crate::text::decimal((secs / 86400) as nat) + "d ago"@
    } else {
        crate::text::decimal((secs / 604800) as nat) + "w ago"@
    }
}

/// How long ago something was that may never have been.
pub open spec fn last_time(ts: Option<i64>, now: int) -> Seq<char> {
    match ts {
        None => "never"@,
        Some(t) => ago(now - t),
    }
}

/// How long before `now` the time `ts` was, in words.
pub fn relative_time_at(ts: i64, now: i64) -> (r: String)
    ensures
        r@ == ago(now - ts),
{
    let diff: i128 = now as i128 - ts as i128;
    if diff < 60 {
        return "just now".to_string();
    }
    let secs: u64 = diff as u64;
    let (n, unit): (u64, &str) = if secs < 3600 {
        (secs / 60, "m ago")
    } else if secs < 86400 {
        (secs / 3600, "h ago")
    } else if secs < 604800 {
        (secs / 86400, "d ago")
    } else {
        (secs / 604800, "w ago")
    };
    let mut out = decimal_text(n);
    out.append(unit);
    out
}

/// The current time in seconds since the epoch, by `chrono::Utc::now`. It is not
/// before the epoch; beyond that it is whatever the clock says.
#[verifier::external_body]
fn current_timestamp() -> (r: i64)
    ensures
        0 <= r,
{
    chrono::Utc::now().timestamp()
}

/// How long ago a time was, in words.
pub fn relative_time(ts: Option<i64>) -> (r: String)
    ensures
        exists|now: i64| 0 <= now && r@ == #[trigger] last_time(ts, now as int),
{
    match ts {
        None => {
            assert(last_time(ts, 0) == "never"@);
            "never".to_string()
        },
        Some(t) => {
            let now: i64 = current_timestamp();
            let r = relative_time_at(t, now);
            assert(r@ == last_time(ts, now as int));
            r
        },
    }
}

} // verus!
