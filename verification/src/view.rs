//! What the web client's components show: labels, classes and the small
//! decisions behind them.

use vstd::prelude::*;
use vstd::utf8::{decode_utf8, encode_utf8, is_char_boundary};
use std::sync::Arc;
use crate::chat::ChatMessage;
use crate::protocol::{ClientMsg, FromClient};
use crate::text::{decimal, decimal_string, trim, trimmed};
use crate::ui::{ConnectionStatus, Theme};

verus! {

/// The most characters (bytes of UTF-8) a message may have.
pub const MAX_CHARACTERS: usize = 2000;

/// The header's class for the connection status.
pub fn connection_class(status: &ConnectionStatus) -> (c: &'static str)
    ensures
        c@ == match status {
            ConnectionStatus::Connected => "status-connected"@,
            ConnectionStatus::Connecting => "status-connecting"@,
            ConnectionStatus::Disconnected => "status-disconnected"@,
            ConnectionStatus::Error(_) => "status-error"@,
        },
{
    match status {
        ConnectionStatus::Connected => "status-connected",
        ConnectionStatus::Connecting => "status-connecting",
        ConnectionStatus::Disconnected => "status-disconnected",
        ConnectionStatus::Error(_) => "status-error",
    }
}

/// The header's class for the status indicator.
pub fn indicator_class(status: &ConnectionStatus) -> (c: &'static str)
    ensures
        c@ == match status {
            ConnectionStatus::Connected => "indicator-connected"@,
            ConnectionStatus::Connecting => "indicator-connecting"@,
            ConnectionStatus::Disconnected => "indicator-disconnected"@,
            ConnectionStatus::Error(_) => "indicator-error"@,
        },
{
    match status {
        ConnectionStatus::Connected => "indicator-connected",
        ConnectionStatus::Connecting => "indicator-connecting",
        ConnectionStatus::Disconnected => "indicator-disconnected",
        ConnectionStatus::Error(_) => "indicator-error",
    }
}

/// The icon of the theme toggle: a moon for the dark theme, a sun for the
/// light one.
pub fn theme_icon(theme: Theme) -> (c: &'static str)
    ensures
        c@ == match theme {
            Theme::Dark => "🌙"@,
            Theme::Light => "☀️"@,
        },
{
    match theme {
        Theme::Dark => "🌙",
        Theme::Light => "☀️",
    }
}

/// The tooltip of the theme toggle, naming the theme it switches to.
pub fn theme_toggle_title(theme: Theme) -> (s: String)
    ensures
        s@ == match theme {
            Theme::Dark => "Switch to light theme"@,
            Theme::Light => "Switch to dark theme"@,
        },
{
    match theme {
        Theme::Dark => String::from_str("Switch to light theme"),
        Theme::Light => String::from_str("Switch to dark theme"),
    }
}

/// The upper-case form of `c`, as `char::to_uppercase` yields it (one to
/// three characters, by Unicode's case mapping).
pub uninterp spec fn char_upper(c: char) -> Seq<char>;

/// The characters of `c.to_uppercase()` (`char::to_uppercase`), collected
/// into a string. Claimed: the result is a function of `c` alone.
#[verifier::external_body]
fn upper_case(c: char) -> (s: String)
    ensures
        s@ == char_upper(c),
{
    c.to_uppercase().collect()
}

/// The avatar letter of a user: the first character of the name in upper
/// case, or `U` for an empty name.
pub fn user_initial(name: &str) -> (s: String)
    ensures
        s@ == if name@.len() == 0 {
            char_upper('U')
        } else {
            char_upper(name@[0])
        },
{
    let chars = crate::text::chars_of(name);
    if chars.len() == 0 {
        upper_case('U')
    } else {
        upper_case(chars[0])
    }
}

/// The title of the chat room: `# ` and the group's name.
pub fn room_title(group_name: &str) -> (s: String)
    ensures
        s@ == "# "@ + group_name@,
{
    let mut s = String::from_str("# ");
    s.append(group_name);
    s
}

/// `n member`, with an `s` unless `n` is one.
pub fn member_label(n: u64) -> (s: String)
    ensures
        s@ == decimal(n as nat) + (if n == 1 {
            " member"@
        } else {
            " members"@
        }),
{
    let mut s = decimal_string(n);
    if n == 1 {
        s.append(" member");
    } else {
        s.append(" members");
    }
    s
}

/// Whether the message input is disabled: when the component is disabled or
/// no group is selected.
pub fn input_disabled(disabled: bool, current_group: &Option<String>) -> (b: bool)
    ensures
        b == (disabled || current_group is None),
{
    disabled || current_group.is_none()
}

/// The placeholder of the message input.
pub fn input_placeholder(current_group: &Option<String>) -> (s: String)
    ensures
        s@ == match current_group {
            Some(g) => "Message #"@ + g@,
            None => "Select a group to start messaging..."@,
        },
{
    match current_group {
        Some(g) => {
            let mut s = String::from_str("Message #");
            s.append(g.as_str());
            s
        },
        None => String::from_str("Select a group to start messaging..."),
    }
}

/// The class of the character counter: an error above nine tenths of the
/// limit, a warning above eight tenths.
pub fn character_class(count: usize) -> (c: &'static str)
    ensures
        c@ == if count > MAX_CHARACTERS * 9 / 10 {
            "character-count error"@
        } else if count > MAX_CHARACTERS * 8 / 10 {
            "character-count warning"@
        } else {
            "character-count"@
        },
{
    if count > MAX_CHARACTERS * 9 / 10 {
        "character-count error"
    } else if count > MAX_CHARACTERS * 8 / 10 {
        "character-count warning"
    } else {
        "character-count"
    }
}

/// Whether the character counter is shown: above seven tenths of the limit.
pub fn show_character_count(count: usize) -> (b: bool)
    ensures
        b == (count > MAX_CHARACTERS * 7 / 10),
{
    count > MAX_CHARACTERS * 7 / 10
}

/// The character counter: the count, `/`, and the limit.
pub fn character_count_label(count: u64) -> (s: String)
    ensures
        s@ == decimal(count as nat) + "/2000"@,
{
    let mut s = decimal_string(count);
    s.append("/2000");
    s
}

/// Whether the send button is enabled: the input is enabled, the text is not
/// blank, and it is within the limit (in bytes of UTF-8).
pub fn can_send(disabled: bool, text: &str) -> (b: bool)
    ensures
        b == (!disabled && trim(text@).len() > 0 && byte_len(text@) <= MAX_CHARACTERS),
{
    !disabled && !trimmed(text).as_str().is_empty() && text.len() <= MAX_CHARACTERS
}

/// What submitting the input sends: the trimmed text to the current group,
/// when there is a group and the text is not blank.
pub fn outgoing_message(text: &str, current_group: &Option<String>) -> (r: Option<(String, String)>)
    ensures
        match r {
            Some((g, m)) => current_group matches Some(cg) && g@ == cg@ && m@ == trim(text@)
                && m@.len() > 0,
            None => current_group is None || trim(text@).len() == 0,
        },
{
    let message = trimmed(text);
    if message.as_str().is_empty() {
        return None;
    }
    match current_group {
        Some(g) => Some((g.clone(), message)),
        None => None,
    }
}

/// The group that the sidebar's join form asks for: the trimmed input, when
/// it is not blank.
pub fn join_request(input: &str) -> (r: Option<String>)
    ensures
        match r {
            Some(g) => g@ == trim(input@) && g@.len() > 0,
            None => trim(input@).len() == 0,
        },
{
    let g = trimmed(input);
    if g.as_str().is_empty() {
        None
    } else {
        Some(g)
    }
}

/// Whether a group is the one selected.
pub fn is_active_group(current_group: &Option<String>, name: &String) -> (b: bool)
    ensures
        b == (current_group matches Some(g) && g@ == name@),
{
    match current_group {
        Some(g) => *g == *name,
        None => false,
    }
}

/// The length of the text in bytes of UTF-8, as `str::len` reports it.
pub open spec fn byte_len(s: Seq<char>) -> usize {
    encode_utf8(s).len() as usize
}

/// How many bytes of a long last message the sidebar shows.
pub const PREVIEW_BYTES: usize = 30;

/// The sidebar's preview of a group's last message: `No messages yet`, the
/// message itself, or, when it is longer than 30 bytes of UTF-8, its first
/// 30 bytes and `...`. The cut must fall between two characters; the length
/// is the one `str::len` reports.
pub fn last_message_preview(last: &Option<String>) -> (s: String)
    requires
        match last {
            Some(m) => byte_len(m@) > PREVIEW_BYTES ==> is_char_boundary(
                encode_utf8(m@),
                PREVIEW_BYTES as int,
            ),
            None => true,
        },
    ensures
        s@ == match last {
            None => "No messages yet"@,
            Some(m) => if byte_len(m@) > PREVIEW_BYTES {
                decode_utf8(encode_utf8(m@).take(PREVIEW_BYTES as int)) + "..."@
            } else {
                m@
            },
        },
{
    match last {
        None => String::from_str("No messages yet"),
        Some(m) => {
            if m.as_str().len() > PREVIEW_BYTES {
                let (head, _) = m.as_str().split_at(PREVIEW_BYTES);
                proof {
                    vstd::utf8::encode_utf8_decode_utf8(head@);
                    assert(encode_utf8(m@).take(PREVIEW_BYTES as int) =~= encode_utf8(
                        m@,
                    ).subrange(0, PREVIEW_BYTES as int));
                }
                let mut s = String::from_str(head);
                s.append("...");
                s
            } else {
                m.clone()
            }
        },
    }
}

/// The sidebar's member count: a bust and the count.
pub fn member_count_label(n: u64) -> (s: String)
    ensures
        s@ == "👤 "@ + decimal(n as nat),
{
    let mut s = String::from_str("👤 ");
    let d = decimal_string(n);
    s.append(d.as_str());
    s
}

/// How long ago a message was sent, from the age in whole seconds: `now`
/// under a minute, then minutes, hours and days, and from a week on the
/// given short date.
pub open spec fn age_label(age_secs: i64, short_date: Seq<char>) -> Seq<char> {
    if age_secs < 60 {
        "now"@
    } else if age_secs < 3600 {
        decimal((age_secs / 60) as nat) + "m ago"@
    } else if age_secs < 86400 {
        decimal((age_secs / 3600) as nat) + "h ago"@
    } else if age_secs < 7 * 86400 {
        decimal((age_secs / 86400) as nat) + "d ago"@
    } else {
        short_date
    }
}

/// The timestamp label of a message, from its age in whole seconds and its
/// short date.
pub fn age_text(age_secs: i64, short_date: String) -> (s: String)
    ensures
        s@ == age_label(age_secs, short_date@),
{
    if age_secs < 60 {
        String::from_str("now")
    } else if age_secs < 3600 {
        let mut s = decimal_string((age_secs / 60) as u64);
        s.append("m ago");
        s
    } else if age_secs < 86400 {
        let mut s = decimal_string((age_secs / 3600) as u64);
        s.append("h ago");
        s
    } else if age_secs < 7 * 86400 {
        let mut s = decimal_string((age_secs / 86400) as u64);
        s.append("d ago");
        s
    } else {
        short_date
    }
}

/// The divider label of a day: `Today`, `Yesterday`, or the long date.
pub fn day_label(date: &String, today: &String, yesterday: &String, long_date: String) -> (s: String)
    ensures
        s@ == if date@ == today@ {
            "Today"@
        } else if date@ == yesterday@ {
            "Yesterday"@
        } else {
            long_date@
        },
{
    if *date == *today {
        String::from_str("Today")
    } else if *date == *yesterday {
        String::from_str("Yesterday")
    } else {
        long_date
    }
}

/// The name a user goes by: the trimmed input, or `Me` when it is blank.
pub fn display_name(input: &str) -> (s: String)
    ensures
        s@ == if trim(input@).len() == 0 {
            "Me"@
        } else {
            trim(input@)
        },
{
    let t = trimmed(input);
    if t.as_str().is_empty() {
        String::from_str("Me")
    } else {
        t
    }
}

/// The message that a reaction from the server refers to: the first one with
/// that id, or none when no message has it.
pub fn reaction_target(messages: &[ChatMessage], message_id: &String) -> (r: Option<usize>)
    ensures
        r is None <==> !(exists|j: int| 0 <= j < messages@.len() && messages@[j].id@ == message_id@),
        r matches Some(i) ==> {
            &&& i < messages@.len()
            &&& messages@[i as int].id@ == message_id@
            &&& forall|j: int| 0 <= j < i ==> messages@[j].id@ != message_id@
        },
{
    let mut i: usize = 0;
    while i < messages.len()
        invariant
            0 <= i <= messages@.len(),
            forall|j: int| 0 <= j < i ==> messages@[j].id@ != message_id@,
        decreases messages@.len() - i,
    {
        if messages[i].id == *message_id {
            return Some(i);
        }
        i = i + 1;
    }
    None
}

/// Day dividers of the message list: walking the messages' day keys in
/// order, a message joins the open run when the run's day is still empty or
/// equals its own, and otherwise closes the run and opens one of its own day.
/// `cur` and `n` are the open run, `acc` the closed runs.
pub open spec fn day_runs_from(
    ds: Seq<Seq<char>>,
    cur: Seq<char>,
    n: nat,
    acc: Seq<(Seq<char>, nat)>,
) -> Seq<(Seq<char>, nat)>
    decreases ds.len(),
{
    if ds.len() == 0 {
        if n > 0 {
            acc.push((cur, n))
        } else {
            acc
        }
    } else if cur.len() == 0 {
        day_runs_from(ds.drop_first(), ds[0], n + 1, acc)
    } else if cur == ds[0] {
        day_runs_from(ds.drop_first(), cur, n + 1, acc)
    } else {
        day_runs_from(ds.drop_first(), ds[0], 1, acc.push((cur, n)))
    }
}

/// The day runs of a list of messages, from their day keys.
pub open spec fn day_runs(ds: Seq<Seq<char>>) -> Seq<(Seq<char>, nat)> {
    day_runs_from(ds, seq![], 0, seq![])
}

/// The runs as (day, count) text values.
pub open spec fn runs_view(rs: Seq<(String, usize)>) -> Seq<(Seq<char>, nat)> {
    rs.map_values(|r: (String, usize)| (r.0@, r.1 as nat))
}

/// Groups the messages, given by their day keys in order, into runs of one
/// day each, as the message list shows them under day dividers: each run is
/// its day and the number of messages in it.
pub fn group_by_day(days: &Vec<String>) -> (runs: Vec<(String, usize)>)
    ensures
        runs_view(runs@) == day_runs(crate::text::views(days@)),
{
    let ghost ds = crate::text::views(days@);
    let mut runs: Vec<(String, usize)> = Vec::new();
    let mut cur = String::new();
    let mut n: usize = 0;
    let mut i: usize = 0;
    assert(ds.skip(0) =~= ds);
    assert(cur@ =~= Seq::<char>::empty());
    assert(runs_view(runs@) =~= Seq::<(Seq<char>, nat)>::empty());
    while i < days.len()
        invariant
            0 <= i <= days.len(),
            n <= i,
            ds == crate::text::views(days@),
            day_runs(ds) == day_runs_from(ds.skip(i as int), cur@, n as nat, runs_view(runs@)),
        decreases days.len() - i,
    {
        let ghost t = ds.skip(i as int);
        assert(t[0] == days@[i as int]@);
        assert(t.drop_first() =~= ds.skip(i + 1));
        if cur.as_str().is_empty() {
            cur = days[i].clone();
            n = n + 1;
        } else if cur == days[i] {
            n = n + 1;
        } else {
            let ghost before = runs_view(runs@);
            let ghost closed = (cur@, n as nat);
            runs.push((cur, n));
            assert(runs_view(runs@) =~= before.push(closed));
            cur = days[i].clone();
            n = 1;
        }
        i = i + 1;
    }
    assert(ds.skip(i as int).len() == 0);
    if n > 0 {
        let ghost before = runs_view(runs@);
        let ghost closed = (cur@, n as nat);
        runs.push((cur, n));
        assert(runs_view(runs@) =~= before.push(closed));
    }
    runs
}

/// The total of the run counts.
pub open spec fn run_total(rs: Seq<(Seq<char>, nat)>) -> nat
    decreases rs.len(),
{
    if rs.len() == 0 {
        0
    } else {
        run_total(rs.drop_last()) + rs.last().1
    }
}

proof fn lemma_day_runs_total(ds: Seq<Seq<char>>, cur: Seq<char>, n: nat, acc: Seq<(Seq<char>, nat)>)
    ensures
        run_total(day_runs_from(ds, cur, n, acc)) == run_total(acc) + n + ds.len(),
    decreases ds.len(),
{
    if ds.len() == 0 {
        if n > 0 {
            assert(acc.push((cur, n)).drop_last() =~= acc);
        }
    } else if cur.len() == 0 {
        lemma_day_runs_total(ds.drop_first(), ds[0], n + 1, acc);
    } else if cur == ds[0] {
        lemma_day_runs_total(ds.drop_first(), cur, n + 1, acc);
    } else {
        lemma_day_runs_total(ds.drop_first(), ds[0], 1, acc.push((cur, n)));
        assert(acc.push((cur, n)).drop_last() =~= acc);
    }
}

/// Every message is shown under exactly one divider: the runs count all
/// messages.
pub proof fn law_day_runs_cover_all(ds: Seq<Seq<char>>)
    ensures
        run_total(day_runs(ds)) == ds.len(),
{
    lemma_day_runs_total(ds, seq![], 0, seq![]);
}

/// `n` copies of the day `d`.
pub open spec fn repeat_day(d: Seq<char>, n: nat) -> Seq<Seq<char>> {
    Seq::new(n, |_i: int| d)
}

/// The days of the runs in order, each as often as its count.
pub open spec fn run_days(rs: Seq<(Seq<char>, nat)>) -> Seq<Seq<char>>
    decreases rs.len(),
{
    if rs.len() == 0 {
        seq![]
    } else {
        run_days(rs.drop_last()) + repeat_day(rs.last().0, rs.last().1)
    }
}

/// Runs that no shorter list of runs could replace: each has a day and at
/// least one message, and no two neighbours share a day.
pub open spec fn runs_maximal(rs: Seq<(Seq<char>, nat)>) -> bool {
    &&& forall|k: int| 0 <= k < rs.len() ==> #[trigger] rs[k].1 > 0 && rs[k].0.len() > 0
    &&& forall|j: int, k: int|
        0 <= j && k == j + 1 && k < rs.len() ==> #[trigger] rs[j].0 != #[trigger] rs[k].0
}

proof fn lemma_run_days_push(rs: Seq<(Seq<char>, nat)>, r: (Seq<char>, nat))
    ensures
        run_days(rs.push(r)) == run_days(rs) + repeat_day(r.0, r.1),
{
    assert(rs.push(r).drop_last() =~= rs);
}

proof fn lemma_day_runs_encode(
    ds: Seq<Seq<char>>,
    cur: Seq<char>,
    n: nat,
    acc: Seq<(Seq<char>, nat)>,
)
    requires
        forall|i: int| 0 <= i < ds.len() ==> #[trigger] ds[i].len() > 0,
        runs_maximal(acc),
        (n == 0 && cur.len() == 0 && acc.len() == 0) || (n > 0 && cur.len() > 0),
        n > 0 && acc.len() > 0 ==> acc.last().0 != cur,
    ensures
        runs_maximal(day_runs_from(ds, cur, n, acc)),
        run_days(day_runs_from(ds, cur, n, acc)) == run_days(acc) + repeat_day(cur, n) + ds,
    decreases ds.len(),
{
    if ds.len() == 0 {
        if n > 0 {
            lemma_run_days_push(acc, (cur, n));
            let a2 = acc.push((cur, n));
            assert forall|j: int, k: int|
                0 <= j && k == j + 1 && k < a2.len() implies #[trigger] a2[j].0 != #[trigger] a2[k].0 by {
                if k < acc.len() {
                    assert(acc[j].0 != acc[k].0);
                } else {
                    assert(a2[j] == acc.last());
                }
            }
            assert(run_days(a2) + ds =~= run_days(a2));
        } else {
            assert(repeat_day(cur, n) =~= Seq::<Seq<char>>::empty());
            assert(run_days(acc) + repeat_day(cur, n) + ds =~= run_days(acc));
        }
    } else {
        let rest = ds.drop_first();
        assert forall|i: int| 0 <= i < rest.len() implies #[trigger] rest[i].len() > 0 by {
            assert(rest[i] == ds[i + 1]);
        }
        assert(ds[0].len() > 0);
        if cur.len() == 0 {
            lemma_day_runs_encode(rest, ds[0], n + 1, acc);
            assert(repeat_day(cur, n) =~= Seq::<Seq<char>>::empty());
            assert(repeat_day(ds[0], n + 1) + rest =~= repeat_day(cur, n) + ds);
        } else if cur == ds[0] {
            lemma_day_runs_encode(rest, cur, n + 1, acc);
            assert(repeat_day(cur, n + 1) + rest =~= repeat_day(cur, n) + ds);
            assert(run_days(acc) + repeat_day(cur, n + 1) + rest =~= run_days(acc) + repeat_day(
                cur,
                n,
            ) + ds);
        } else {
            let a2 = acc.push((cur, n));
            assert forall|j: int, k: int|
                0 <= j && k == j + 1 && k < a2.len() implies #[trigger] a2[j].0 != #[trigger] a2[k].0 by {
                if k < acc.len() {
                    assert(acc[j].0 != acc[k].0);
                } else {
                    assert(a2[j] == acc.last());
                }
            }
            assert(runs_maximal(a2));
            lemma_day_runs_encode(rest, ds[0], 1, a2);
            lemma_run_days_push(acc, (cur, n));
            assert(repeat_day(ds[0], 1) + rest =~= ds);
            assert(run_days(a2) + repeat_day(ds[0], 1) + rest =~= run_days(acc) + repeat_day(cur, n)
                + ds);
        }
    }
}

/// The day runs of non-empty day keys are their run-length encoding: read
/// back run by run they give the keys in order, every run holds at least one
/// message, and two neighbouring runs never share a day, so a day's
/// consecutive messages stand under one divider.
pub proof fn law_day_runs_encode(ds: Seq<Seq<char>>)
    requires
        forall|i: int| 0 <= i < ds.len() ==> #[trigger] ds[i].len() > 0,
    ensures
        runs_maximal(day_runs(ds)),
        run_days(day_runs(ds)) == ds,
{
    let e = Seq::<(Seq<char>, nat)>::empty();
    assert(runs_maximal(e));
    lemma_day_runs_encode(ds, seq![], 0, e);
    assert(run_days(e) + repeat_day(seq![], 0) + ds =~= ds);
}

/// The side a message bubble sits on: the user's own messages and the others'.
pub fn message_side_class(is_own: bool) -> (c: &'static str)
    ensures
        c@ == if is_own {
            "message-own"@
        } else {
            "message-other"@
        },
{
    if is_own {
        "message-own"
    } else {
        "message-other"
    }
}

/// Whether a bubble shows the sender above its content: only for the others'
/// messages (the user's own show just the time, below the content).
pub fn sender_shown(is_own: bool) -> (b: bool)
    ensures
        b == !is_own,
{
    !is_own
}

/// The sidebar's unread badge: the count, shown only when it is not zero.
pub fn unread_badge(count: u64) -> (r: Option<String>)
    ensures
        match r {
            Some(t) => count > 0 && t@ == decimal(count as nat),
            None => count == 0,
        },
{
    if count > 0 {
        Some(decimal_string(count))
    } else {
        None
    }
}

/// What the send button of the web client sends: the message as typed, to the
/// trimmed group name, when neither is empty.
pub fn post_request(message: &str, group_input: &str) -> (r: Option<FromClient>)
    ensures
        match r {
            Some(req) => message@.len() > 0 && trim(group_input@).len() > 0 && req@ == (
            ClientMsg::Post { group_name: trim(group_input@), message: message@ }),
            None => message@.len() == 0 || trim(group_input@).len() == 0,
        },
{
    let group = trimmed(group_input);
    if message.is_empty() || group.as_str().is_empty() {
        return None;
    }
    Some(FromClient::Post { group_name: Arc::new(group), message: Arc::new(String::from_str(message)) })
}

/// What the join button of the web client sends: a join, without password, of
/// the trimmed group name, when it is not empty.
pub fn join_group_request(group_input: &str) -> (r: Option<FromClient>)
    ensures
        match r {
            Some(req) => trim(group_input@).len() > 0 && req@ == (ClientMsg::Join {
                group_name: trim(group_input@),
                password: None,
            }),
            None => trim(group_input@).len() == 0,
        },
{
    let group = trimmed(group_input);
    if group.as_str().is_empty() {
        return None;
    }
    Some(FromClient::Join { group_name: Arc::new(group), password: None })
}

/// A notice shown in place of an empty part of the page: an icon, an optional
/// title and a line of text.
#[derive(Debug, Clone, PartialEq)]
pub struct Notice {
    pub icon: &'static str,
    pub title: Option<&'static str>,
    pub text: &'static str,
}

/// The text of an optional title.
pub open spec fn title_view(t: Option<&'static str>) -> Option<Seq<char>> {
    match t {
        Some(s) => Some(s@),
        None => None,
    }
}

/// The notice of a message list: shown only when the list holds no message.
pub fn message_list_notice(count: usize) -> (r: Option<Notice>)
    ensures
        match r {
            Some(n) => {
                &&& count == 0
                &&& n.icon@ == "💬"@
                &&& title_view(n.title) == Some("No messages yet"@)
                &&& n.text@ == "Start a conversation by sending a message to a group!"@
            },
            None => count > 0,
        },
{
    if count == 0 {
        Some(
            Notice {
                icon: "💬",
                title: Some("No messages yet"),
                text: "Start a conversation by sending a message to a group!",
            },
        )
    } else {
        None
    }
}

/// The notice of the sidebar's group list: shown only when there is no group.
pub fn group_list_notice(count: usize) -> (r: Option<Notice>)
    ensures
        match r {
            Some(n) => {
                &&& count == 0
                &&& n.icon@ == "📭"@
                &&& n.title is None
                &&& n.text@ == "No groups yet. Join or create one above!"@
            },
            None => count > 0,
        },
{
    if count == 0 {
        Some(Notice { icon: "📭", title: None, text: "No groups yet. Join or create one above!" })
    } else {
        None
    }
}

/// The welcome panel of the chat room: shown only while no group is selected.
pub fn welcome_notice(current_group: &Option<String>) -> (r: Option<Notice>)
    ensures
        match r {
            Some(n) => {
                &&& current_group is None
                &&& n.icon@ == "📱"@
                &&& title_view(n.title) == Some("Welcome to Async Chat!"@)
                &&& n.text@ == ("Select a group from the sidebar to start chatting, or create a new group to begin your conversation."@)
            },
            None => current_group is Some,
        },
{
    match current_group {
        Some(_) => None,
        None => Some(
            Notice {
                icon: "📱",
                title: Some("Welcome to Async Chat!"),
                text: "Select a group from the sidebar to start chatting, or create a new group to begin your conversation.",
            },
        ),
    }
}

/// The palette and column widths of the web app's layout.
pub struct StyleChoices {
    pub background: &'static str,
    pub text: &'static str,
    pub sidebar_background: &'static str,
    pub border: &'static str,
    pub input_background: &'static str,
    pub hover_background: &'static str,
    pub footer_background: &'static str,
    pub left_width: &'static str,
    pub right_width: &'static str,
    /// The grid's column template: left sidebar, chat, right sidebar.
    pub columns: String,
}

/// The colours of the light or dark theme and the widths of the two
/// sidebars, shown or hidden.
pub fn style_choices(dark_mode: bool, left_visible: bool, right_visible: bool) -> (s: StyleChoices)
    ensures
        s.background@ == if dark_mode { "#1a1a1a"@ } else { "white"@ },
        s.text@ == if dark_mode { "#e0e0e0"@ } else { "#1a1a1a"@ },
        s.sidebar_background@ == if dark_mode { "#2d2d2d"@ } else { "#f7f9fa"@ },
        s.border@ == if dark_mode { "#3a3a3a"@ } else { "#e1e4e8"@ },
        s.input_background@ == if dark_mode { "#2d2d2d"@ } else { "white"@ },
        s.hover_background@ == if dark_mode { "#3a3a3a"@ } else { "#edf2f7"@ },
        s.footer_background@ == if dark_mode { "#2d2d2d"@ } else { "#e3f2fd"@ },
        s.left_width@ == if left_visible { "300px"@ } else { "0"@ },
        s.right_width@ == if right_visible { "350px"@ } else { "0px"@ },
        s.columns@ == s.left_width@ + " 1fr "@ + s.right_width@,
{
    let left_width = if left_visible { "300px" } else { "0" };
    let right_width = if right_visible { "350px" } else { "0px" };
    let mut columns = String::from_str(left_width);
    columns.append(" 1fr ");
    columns.append(right_width);
    StyleChoices {
        background: if dark_mode { "#1a1a1a" } else { "white" },
        text: if dark_mode { "#e0e0e0" } else { "#1a1a1a" },
        sidebar_background: if dark_mode { "#2d2d2d" } else { "#f7f9fa" },
        border: if dark_mode { "#3a3a3a" } else { "#e1e4e8" },
        input_background: if dark_mode { "#2d2d2d" } else { "white" },
        hover_background: if dark_mode { "#3a3a3a" } else { "#edf2f7" },
        footer_background: if dark_mode { "#2d2d2d" } else { "#e3f2fd" },
        left_width,
        right_width,
        columns,
    }
}

} // verus!
