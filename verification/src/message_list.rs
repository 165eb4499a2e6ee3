//! The web client's message list: the day dividers and the time labels of
//! its messages, from their timestamps and the current time.

use vstd::prelude::*;
use crate::clock::now_millis;
use crate::ui::ChatMessage;
use crate::view::{age_label, age_text, day_label, day_runs, group_by_day, runs_view};

verus! {

/// The UTC day of a timestamp in milliseconds, as `YYYY-MM-DD`; `None` for a
/// timestamp outside chrono's range.
pub uninterp spec fn utc_day_key(millis: i64) -> Option<Seq<char>>;

/// The short UTC date of a timestamp in milliseconds, as month abbreviation
/// and day (`Jan 05`); `None` for a timestamp outside chrono's range.
pub uninterp spec fn utc_short_date(millis: i64) -> Option<Seq<char>>;

/// The long form (`January 05, 2024`) of a `YYYY-MM-DD` day read as midnight
/// UTC; `None` when chrono does not read it as a date.
pub uninterp spec fn long_date_of_day(day: Seq<char>) -> Option<Seq<char>>;

/// The text of an optional string.
pub open spec fn opt_string(o: Option<String>) -> Option<Seq<char>> {
    match o {
        Some(s) => Some(s@),
        None => None,
    }
}

/// The text, or the empty text for none.
pub open spec fn text_or_empty(o: Option<Seq<char>>) -> Seq<char> {
    match o {
        Some(s) => s,
        None => Seq::empty(),
    }
}

/// The day of a timestamp (`chrono::DateTime::from_timestamp_millis`, then
/// `format("%Y-%m-%d")`). Claimed: the result is the named day of the
/// timestamp, a function of it alone.
#[verifier::external_body]
fn day_key(millis: i64) -> (r: Option<String>)
    ensures
        opt_string(r) == utc_day_key(millis),
{
    match chrono::DateTime::from_timestamp_millis(millis) {
        Some(t) => Some(t.format("%Y-%m-%d").to_string()),
        None => None,
    }
}

/// The short date of a timestamp (`chrono::DateTime::from_timestamp_millis`,
/// then `format("%b %d")`). Claimed: the result is the named short date of
/// the timestamp, a function of it alone.
#[verifier::external_body]
fn short_date(millis: i64) -> (r: Option<String>)
    ensures
        opt_string(r) == utc_short_date(millis),
{
    match chrono::DateTime::from_timestamp_millis(millis) {
        Some(t) => Some(t.format("%b %d").to_string()),
        None => None,
    }
}

/// The long date of a day (`chrono::DateTime::parse_from_rfc3339` of the day
/// at `T00:00:00Z`, then `format("%B %d, %Y")`). Claimed: the result is the
/// named long date of the day, a function of it alone.
#[verifier::external_body]
fn long_date(day: &str) -> (r: Option<String>)
    ensures
        opt_string(r) == long_date_of_day(day@),
{
    match chrono::DateTime::parse_from_rfc3339(&format!("{}T00:00:00Z", day)) {
        Ok(t) => Some(t.format("%B %d, %Y").to_string()),
        Err(_) => None,
    }
}

/// The day key of a timestamp, empty when it has none.
pub open spec fn day_of(millis: i64) -> Seq<char> {
    text_or_empty(utc_day_key(millis))
}

/// The long label of a day; a day that does not read as a date gets the long
/// date of `2024-01-01`.
pub open spec fn long_label(day: Seq<char>) -> Seq<char> {
    match long_date_of_day(day) {
        Some(s) => s,
        None => text_or_empty(long_date_of_day("2024-01-01"@)),
    }
}

/// The divider of a day: `Today`, `Yesterday`, or its long label.
pub open spec fn divider(day: Seq<char>, today: Seq<char>, yesterday: Seq<char>) -> Seq<char> {
    if day == today {
        "Today"@
    } else if day == yesterday {
        "Yesterday"@
    } else {
        long_label(day)
    }
}

/// The whole seconds from `ts` to `now`, both in milliseconds; a timestamp
/// in the future counts as none.
pub open spec fn age_seconds(now: i64, ts: i64) -> i64 {
    if now - ts < 0 {
        0
    } else {
        ((now - ts) / 1000) as i64
    }
}

/// The time label of a message stamped `ts`, seen at `now`.
pub open spec fn time_label(now: i64, ts: i64) -> Seq<char> {
    age_label(age_seconds(now, ts), text_or_empty(utc_short_date(ts)))
}

/// The day keys of the messages, in order.
pub open spec fn day_keys(ms: Seq<ChatMessage>) -> Seq<Seq<char>> {
    ms.map_values(|m: ChatMessage| day_of(m.timestamp))
}

/// The day runs with each day replaced by its divider.
pub open spec fn dividers(
    runs: Seq<(Seq<char>, nat)>,
    today: Seq<char>,
    yesterday: Seq<char>,
) -> Seq<(Seq<char>, nat)> {
    runs.map_values(|r: (Seq<char>, nat)| (divider(r.0, today, yesterday), r.1))
}

/// What the message list shows: for each run of messages of one day, its
/// divider and the number of messages in it; and each message's time label.
pub struct MessageListLayout {
    pub days: Vec<(String, usize)>,
    pub time_labels: Vec<String>,
}

fn day_text(millis: i64) -> (s: String)
    ensures
        s@ == day_of(millis),
{
    match day_key(millis) {
        Some(s) => s,
        None => String::new(),
    }
}

fn long_text(day: &String) -> (s: String)
    ensures
        s@ == long_label(day@),
{
    match long_date(day.as_str()) {
        Some(s) => s,
        None => match long_date("2024-01-01") {
            Some(s) => s,
            None => String::new(),
        },
    }
}

fn time_text(now: i64, ts: i64) -> (s: String)
    ensures
        s@ == time_label(now, ts),
{
    let diff: i128 = now as i128 - ts as i128;
    let secs: i64 = if diff < 0 {
        0
    } else {
        (diff / 1000) as i64
    };
    let short = match short_date(ts) {
        Some(s) => s,
        None => String::new(),
    };
    age_text(secs, short)
}

/// Lays out the message list at time `now` (milliseconds): the messages are
/// grouped into runs of one UTC day, each under its divider, and each message
/// gets its time label.
pub fn message_list_layout(messages: &Vec<ChatMessage>, now: i64) -> (l: MessageListLayout)
    requires
        now >= i64::MIN + 86_400_000,
    ensures
        runs_view(l.days@) == dividers(
            day_runs(day_keys(messages@)),
            day_of(now),
            day_of((now - 86_400_000) as i64),
        ),
        l.time_labels@.len() == messages@.len(),
        forall|i: int|
            0 <= i < messages@.len() ==> (#[trigger] l.time_labels@[i])@ == time_label(
                now,
                messages@[i].timestamp,
            ),
{
    let mut keys: Vec<String> = Vec::new();
    let mut time_labels: Vec<String> = Vec::new();
    let mut i: usize = 0;
    while i < messages.len()
        invariant
            0 <= i <= messages@.len(),
            keys@.len() == i,
            time_labels@.len() == i,
            forall|j: int| 0 <= j < i ==> (#[trigger] keys@[j])@ == day_of(messages@[j].timestamp),
            forall|j: int|
                0 <= j < i ==> (#[trigger] time_labels@[j])@ == time_label(
                    now,
                    messages@[j].timestamp,
                ),
        decreases messages@.len() - i,
    {
        let ts = messages[i].timestamp;
        keys.push(day_text(ts));
        time_labels.push(time_text(now, ts));
        i = i + 1;
    }
    assert(crate::text::views(keys@) =~= day_keys(messages@));
    let runs = group_by_day(&keys);
    let today = day_text(now);
    let yesterday = day_text(now - 86_400_000);
    let ghost rv = runs_view(runs@);
    let ghost target = dividers(day_runs(day_keys(messages@)), today@, yesterday@);
    let mut days: Vec<(String, usize)> = Vec::new();
    let mut k: usize = 0;
    while k < runs.len()
        invariant
            0 <= k <= runs@.len(),
            rv == runs_view(runs@),
            rv == day_runs(day_keys(messages@)),
            target == dividers(rv, today@, yesterday@),
            days@.len() == k,
            forall|j: int| 0 <= j < k ==> #[trigger] runs_view(days@)[j] == target[j],
        decreases runs@.len() - k,
    {
        let label = day_label(&runs[k].0, &today, &yesterday, long_text(&runs[k].0));
        let ghost before = days@;
        days.push((label, runs[k].1));
        proof {
            assert(rv[k as int] == (runs@[k as int].0@, runs@[k as int].1 as nat));
            assert forall|j: int| 0 <= j < k + 1 implies #[trigger] runs_view(days@)[j] == target[j] by {
                if j < k {
                    assert(days@[j] == before[j]);
                    assert(runs_view(before)[j] == target[j]);
                }
            }
        }
        k = k + 1;
    }
    assert(runs_view(days@) =~= target);
    MessageListLayout { days, time_labels }
}

/// Lays out the message list at the current time. The current time is read
/// from the clock, so the dividers and labels depend on it; what holds
/// whatever it is: one run per day of the messages, each with its count, and
/// one time label per message.
pub fn message_list_now(messages: &Vec<ChatMessage>) -> (l: MessageListLayout)
    ensures
        l.days@.len() == day_runs(day_keys(messages@)).len(),
        forall|k: int|
            0 <= k < l.days@.len() ==> (#[trigger] l.days@[k]).1 == day_runs(
                day_keys(messages@),
            )[k].1,
        l.time_labels@.len() == messages@.len(),
{
    let now = now_millis();
    let l = message_list_layout(messages, now);
    proof {
        let rs = day_runs(day_keys(messages@));
        let ds = dividers(rs, day_of(now), day_of((now - 86_400_000) as i64));
        assert(runs_view(l.days@).len() == l.days@.len());
        assert forall|k: int| 0 <= k < l.days@.len() implies (#[trigger] l.days@[k]).1 == rs[k].1 by {
            assert(runs_view(l.days@)[k] == ds[k]);
        }
    }
    l
}

} // verus!
