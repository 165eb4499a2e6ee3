//! The chat client's decisions: what a typed line asks for, and how a reply
//! from the server is shown.

use vstd::prelude::*;
use crate::command::{parse_command, parse_result_view, parse_spec};
use crate::protocol::{arc_texts, ClientMsg, FromClient, FromServer, ServerMsg};
use crate::group::{subscriber_spec, BroadcastPacket, SubscriberEvent};
use crate::text::{trim, trimmed};

verus! {

/// What the client does with one line of input.
pub enum LineAction {
    /// The line is blank: read the next one.
    Ignore,
    /// `/quit`: say goodbye and stop reading.
    Quit,
    /// `/help`: show the list of commands.
    ShowHelp,
    /// Send this request to the server.
    Send(FromClient),
    /// The line is no valid command; report this error.
    Complain(String),
}

/// A line action as text values.
pub enum LineActionView {
    Ignore,
    Quit,
    ShowHelp,
    Send(ClientMsg),
    Complain(Seq<char>),
}

impl View for LineAction {
    type V = LineActionView;

    open spec fn view(&self) -> LineActionView {
        match self {
            LineAction::Ignore => LineActionView::Ignore,
            LineAction::Quit => LineActionView::Quit,
            LineAction::ShowHelp => LineActionView::ShowHelp,
            LineAction::Send(m) => LineActionView::Send(m@),
            LineAction::Complain(e) => LineActionView::Complain(e@),
        }
    }
}

/// What a line asks for: it is trimmed first, then read as a command.
pub open spec fn line_spec(line: Seq<char>) -> LineActionView {
    let t = trim(line);
    if t.len() == 0 {
        LineActionView::Ignore
    } else if t == "/quit"@ {
        LineActionView::Quit
    } else if t == "/help"@ {
        LineActionView::ShowHelp
    } else {
        match parse_spec(t) {
            Ok(m) => LineActionView::Send(m),
            Err(e) => LineActionView::Complain(e),
        }
    }
}

/// Decides what to do with one line typed by the user.
pub fn interpret_line(line: &str) -> (a: LineAction)
    ensures
        a@ == line_spec(line@),
{
    let t = trimmed(line);
    if t.as_str().is_empty() {
        return LineAction::Ignore;
    }
    if t == String::from_str("/quit") {
        return LineAction::Quit;
    }
    if t == String::from_str("/help") {
        return LineAction::ShowHelp;
    }
    let r = parse_command(t.as_str());
    proof {
        assert(parse_result_view(r) == parse_spec(t@));
    }
    match r {
        Ok(m) => LineAction::Send(m),
        Err(e) => LineAction::Complain(e),
    }
}

/// One line of output, for standard output or standard error.
#[derive(Debug, Clone, PartialEq)]
pub struct OutputLine {
    pub to_stderr: bool,
    pub text: String,
}

/// The output lines as pairs of stream and text.
pub open spec fn output_view(v: Seq<OutputLine>) -> Seq<(bool, Seq<char>)> {
    v.map_values(|l: OutputLine| (l.to_stderr, l.text@))
}

/// The line that lists one group.
pub open spec fn group_item(g: Seq<char>) -> (bool, Seq<char>) {
    (false, "  - "@ + g)
}

/// How the client shows a message from the server.
pub open spec fn reply_lines(m: ServerMsg) -> Seq<(bool, Seq<char>)> {
    match m {
        ServerMsg::GroupCreated { group_name } => seq![
            (false, "Group '"@ + group_name + "' created successfully"@),
        ],
        ServerMsg::GroupList { groups } => if groups.len() == 0 {
            seq![(false, "No groups available."@)]
        } else {
            seq![(false, "Available groups:"@)] + groups.map_values(|g: Seq<char>| group_item(g))
        },
        ServerMsg::Message { group_name, message } => seq![
            (false, "["@ + group_name + "]: "@ + message),
        ],
        ServerMsg::Error(e) => seq![(true, "Error from server: "@ + e)],
    }
}

fn line(to_stderr: bool, text: String) -> (l: OutputLine)
    ensures
        l.to_stderr == to_stderr,
        l.text@ == text@,
{
    OutputLine { to_stderr, text }
}

/// The lines that show a reply from the server.
pub fn render_reply(reply: &FromServer) -> (out: Vec<OutputLine>)
    ensures
        output_view(out@) == reply_lines(reply@),
{
    let mut out: Vec<OutputLine> = Vec::new();
    match reply {
        FromServer::GroupCreated { group_name } => {
            let mut t = String::from_str("Group '");
            t.append(group_name.as_str());
            t.append("' created successfully");
            out.push(line(false, t));
        },
        FromServer::GroupList { groups } => {
            if groups.len() == 0 {
                out.push(line(false, String::from_str("No groups available.")));
            } else {
                out.push(line(false, String::from_str("Available groups:")));
                let mut i: usize = 0;
                while i < groups.len()
                    invariant
                        0 <= i <= groups.len(),
                        output_view(out@) == seq![(false, "Available groups:"@)] + arc_texts(
                            groups@,
                        ).take(i as int).map_values(|g: Seq<char>| group_item(g)),
                    decreases groups.len() - i,
                {
                    let mut t = String::from_str("  - ");
                    t.append(groups[i].as_str());
                    let ghost before = out@;
                    out.push(line(false, t));
                    proof {
                        assert(arc_texts(groups@).take(i + 1) =~= arc_texts(groups@).take(
                            i as int,
                        ).push(groups@[i as int]@));
                        assert(output_view(out@) =~= output_view(before).push(
                            group_item(groups@[i as int]@),
                        ));
                    }
                    i = i + 1;
                }
                assert(arc_texts(groups@).take(groups.len() as int) =~= arc_texts(groups@));
            }
        },
        FromServer::Message { group_name, message } => {
            let mut t = String::from_str("[");
            t.append(group_name.as_str());
            t.append("]: ");
            t.append(message.as_str());
            out.push(line(false, t));
        },
        FromServer::Error(e) => {
            let mut t = String::from_str("Error from server: ");
            t.append(e.as_str());
            out.push(line(true, t));
        },
    }
    assert(output_view(out@) =~= reply_lines(reply@));
    out
}

/// A message posted to a group reaches each subscribed client as one line:
/// the group's name in brackets, then the message.
pub proof fn law_posted_message_display(group_name: Seq<char>, message: std::sync::Arc<String>)
    ensures
        ({
            let delivered = subscriber_spec(
                group_name,
                SubscriberEvent::Packet(BroadcastPacket::Message { message }),
            );
            &&& delivered is Some
            &&& reply_lines(delivered->0) == seq![(false, "["@ + group_name + "]: "@ + message@)]
        }),
{
}

/// A typed line is trimmed; a blank line is ignored, `/quit` and `/help`
/// are handled by the client, and any other line is sent exactly as the
/// command parser reads it, or reported with the parser's error.
pub proof fn law_line_follows_parser(line: Seq<char>)
    ensures
        trim(line).len() == 0 ==> line_spec(line) == LineActionView::Ignore,
        trim(line) == "/quit"@ ==> line_spec(line) == LineActionView::Quit,
        trim(line) == "/help"@ ==> line_spec(line) == LineActionView::ShowHelp,
        trim(line).len() > 0 && trim(line) != "/quit"@ && trim(line) != "/help"@ ==> {
            match parse_spec(trim(line)) {
                Ok(m) => line_spec(line) == LineActionView::Send(m),
                Err(e) => line_spec(line) == LineActionView::Complain(e),
            }
        },
{
    reveal_strlit("/quit");
    reveal_strlit("/help");
    if trim(line) == "/help"@ {
        assert("/help"@.len() == 5);
        assert("/help"@[1] != "/quit"@[1]);
        assert("/help"@ != "/quit"@);
    }
}

/// A list of groups is shown as a header followed by one `  - name` line per
/// group, in order, all on standard output; an empty list as one line saying
/// there is none.
pub proof fn law_group_list_lines(groups: Seq<Seq<char>>)
    ensures
        groups.len() == 0 ==> reply_lines(ServerMsg::GroupList { groups }) == seq![
            (false, "No groups available."@),
        ],
        groups.len() > 0 ==> {
            let out = reply_lines(ServerMsg::GroupList { groups });
            &&& out.len() == groups.len() + 1
            &&& out[0] == (false, "Available groups:"@)
            &&& forall|k: int| 0 <= k < groups.len() ==> #[trigger] out[k + 1] == (false, "  - "@ + groups[k])
        },
{
}

/// A created group, a posted message and an error each take one line; only
/// the error goes to standard error, and each line holds the names and text
/// it was given.
pub proof fn law_single_line_replies(name: Seq<char>, text: Seq<char>)
    ensures
        reply_lines(ServerMsg::GroupCreated { group_name: name }) == seq![
            (false, "Group '"@ + name + "' created successfully"@),
        ],
        reply_lines(ServerMsg::Message { group_name: name, message: text }) == seq![
            (false, "["@ + name + "]: "@ + text),
        ],
        reply_lines(ServerMsg::Error(text)) == seq![(true, "Error from server: "@ + text)],
{
}

} // verus!
