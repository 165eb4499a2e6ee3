//! The chat client's command language: a line typed by the user becomes a
//! request for the server, a local action, or an error message.

use std::sync::Arc;
use vstd::prelude::*;
use crate::protocol::{ClientMsg, FromClient, share};
use crate::text::{
    is_word, join_from, join_spaced, law_split_undoes_join, lemma_join_nonempty, split_words, views,
    words,
};

verus! {

/// The message for a command that names no group.
pub open spec fn empty_group_msg() -> Seq<char> {
    "Group name cannot be empty"@
}

/// The result of parsing one command line, stated over the line's words.
pub open spec fn parse_spec(input: Seq<char>) -> Result<ClientMsg, Seq<char>> {
    let p = words(input);
    if p.len() == 0 {
        Err("Empty command"@)
    } else if p[0] == "/create"@ {
        if p.len() == 1 {
            Err("Usage: /create <group_name> [password]"@)
        } else if p[1].len() == 0 {
            Err(empty_group_msg())
        } else if p.len() == 2 {
            Ok(ClientMsg::CreateGroup { group_name: p[1], password: None })
        } else {
            Ok(ClientMsg::CreateGroup { group_name: p[1], password: Some(join_spaced(p.skip(2))) })
        }
    } else if p[0] == "/list"@ && p.len() == 1 {
        Ok(ClientMsg::ListGroups)
    } else if p[0] == "/join"@ {
        if p.len() == 1 {
            Err("Usage: /join <group_name> [password]"@)
        } else if p[1].len() == 0 {
            Err(empty_group_msg())
        } else if p.len() == 2 {
            Ok(ClientMsg::Join { group_name: p[1], password: None })
        } else {
            Ok(ClientMsg::Join { group_name: p[1], password: Some(join_spaced(p.skip(2))) })
        }
    } else if p[0] == "/post"@ {
        if p.len() <= 2 {
            Err("Usage: /post <group_name> <message>"@)
        } else if p[1].len() == 0 {
            Err(empty_group_msg())
        } else if join_spaced(p.skip(2)).len() == 0 {
            Err("Message cannot be empty"@)
        } else {
            Ok(ClientMsg::Post { group_name: p[1], message: join_spaced(p.skip(2)) })
        }
    } else {
        Err("Unknown command: '"@ + input + "'. Type /help for available commands."@)
    }
}

/// A parse result as text values.
pub open spec fn parse_result_view(r: Result<FromClient, String>) -> Result<ClientMsg, Seq<char>> {
    match r {
        Ok(c) => Ok(c@),
        Err(e) => Err(e@),
    }
}

fn text_is(w: &String, lit: &str) -> (b: bool)
    ensures
        b == (w@ == lit@),
{
    let l = String::from_str(lit);
    *w == l
}

fn message(lit: &str) -> (s: String)
    ensures
        s@ == lit@,
{
    String::from_str(lit)
}

/// Parses a command line into a message for the server, or explains why it
/// is not one.
///
/// `/create <group> [password...]`, `/list`, `/join <group> [password...]` and
/// `/post <group> <message...>`; the words after the group name are joined by
/// single spaces.
pub fn parse_command(input: &str) -> (r: Result<FromClient, String>)
    ensures
        parse_result_view(r) == parse_spec(input@),
{
    let parts = split_words(input);
    let ghost p = words(input@);
    assert(views(parts@) == p);
    if parts.len() == 0 {
        return Err(message("Empty command"));
    }
    assert(parts@[0]@ == p[0]);
    if text_is(&parts[0], "/create") {
        if parts.len() == 1 {
            return Err(message("Usage: /create <group_name> [password]"));
        }
        assert(parts@[1]@ == p[1]);
        if parts[1].as_str().is_empty() {
            return Err(message("Group name cannot be empty"));
        }
        if parts.len() == 2 {
            return Ok(FromClient::CreateGroup { group_name: share(&parts[1]), password: None });
        }
        assert(views(parts@).skip(2) == p.skip(2));
        let password = join_from(&parts, 2);
        return Ok(
            FromClient::CreateGroup {
                group_name: share(&parts[1]),
                password: Some(Arc::new(password)),
            },
        );
    }
    if text_is(&parts[0], "/list") && parts.len() == 1 {
        return Ok(FromClient::ListGroups);
    }
    if text_is(&parts[0], "/join") {
        if parts.len() == 1 {
            return Err(message("Usage: /join <group_name> [password]"));
        }
        assert(parts@[1]@ == p[1]);
        if parts[1].as_str().is_empty() {
            return Err(message("Group name cannot be empty"));
        }
        if parts.len() == 2 {
            return Ok(FromClient::Join { group_name: share(&parts[1]), password: None });
        }
        assert(views(parts@).skip(2) == p.skip(2));
        let password = join_from(&parts, 2);
        return Ok(FromClient::Join { group_name: share(&parts[1]), password: Some(Arc::new(password)) });
    }
    if text_is(&parts[0], "/post") {
        if parts.len() <= 2 {
            return Err(message("Usage: /post <group_name> <message>"));
        }
        assert(parts@[1]@ == p[1]);
        if parts[1].as_str().is_empty() {
            return Err(message("Group name cannot be empty"));
        }
        assert(views(parts@).skip(2) == p.skip(2));
        let combined = join_from(&parts, 2);
        if combined.as_str().is_empty() {
            return Err(message("Message cannot be empty"));
        }
        return Ok(FromClient::Post { group_name: share(&parts[1]), message: Arc::new(combined) });
    }
    let mut e = message("Unknown command: '");
    e.append(input);
    e.append("'. Type /help for available commands.");
    Err(e)
}

proof fn lemma_command_words(cmd: Seq<char>, g: Seq<char>, ws: Seq<Seq<char>>)
    requires
        is_word(cmd),
        is_word(g),
        forall|i: int| 0 <= i < ws.len() ==> is_word(#[trigger] ws[i]),
    ensures
        words(join_spaced(seq![cmd, g] + ws)) == seq![cmd, g] + ws,
        (seq![cmd, g] + ws)[0] == cmd,
        (seq![cmd, g] + ws)[1] == g,
        (seq![cmd, g] + ws).skip(2) == ws,
{
    let all = seq![cmd, g] + ws;
    assert forall|i: int| 0 <= i < all.len() implies is_word(#[trigger] all[i]) by {
        if i >= 2 {
            assert(all[i] == ws[i - 2]);
        }
    }
    law_split_undoes_join(all);
    assert(all.skip(2) =~= ws);
}

proof fn lemma_command_names()
    ensures
        is_word("/create"@),
        is_word("/join"@),
        is_word("/post"@),
        "/create"@ != "/list"@,
        "/create"@ != "/join"@,
        "/create"@ != "/post"@,
        "/join"@ != "/list"@,
        "/join"@ != "/post"@,
        "/post"@ != "/list"@,
{
    reveal_strlit("/create");
    reveal_strlit("/join");
    reveal_strlit("/post");
    reveal_strlit("/list");
    assert("/create"@.len() != "/list"@.len());
    assert("/create"@.len() != "/join"@.len());
    assert("/create"@.len() != "/post"@.len());
    assert("/join"@[1] != "/list"@[1]);
    assert("/join"@[1] != "/post"@[1]);
    assert("/post"@[1] != "/list"@[1]);
}

/// A post of words is read back as exactly those words, joined by single
/// spaces, for the named group.
pub proof fn law_post_roundtrip(g: Seq<char>, ws: Seq<Seq<char>>)
    requires
        is_word(g),
        ws.len() > 0,
        forall|i: int| 0 <= i < ws.len() ==> is_word(#[trigger] ws[i]),
    ensures
        parse_spec(join_spaced(seq!["/post"@, g] + ws)) == Ok::<ClientMsg, Seq<char>>(
            ClientMsg::Post { group_name: g, message: join_spaced(ws) },
        ),
{
    lemma_command_names();
    lemma_command_words("/post"@, g, ws);
    lemma_join_nonempty(ws);
}

/// Joining a group with a password of words reads back the group and the
/// password words joined by single spaces; without words after the group,
/// there is no password.
pub proof fn law_join_roundtrip(g: Seq<char>, ws: Seq<Seq<char>>)
    requires
        is_word(g),
        forall|i: int| 0 <= i < ws.len() ==> is_word(#[trigger] ws[i]),
    ensures
        parse_spec(join_spaced(seq!["/join"@, g] + ws)) == Ok::<ClientMsg, Seq<char>>(
            ClientMsg::Join {
                group_name: g,
                password: if ws.len() == 0 {
                    None
                } else {
                    Some(join_spaced(ws))
                },
            },
        ),
{
    lemma_command_names();
    lemma_command_words("/join"@, g, ws);
}

/// Creating a group with a password of words reads back the group and the
/// password words joined by single spaces; without words after the group,
/// there is no password.
pub proof fn law_create_roundtrip(g: Seq<char>, ws: Seq<Seq<char>>)
    requires
        is_word(g),
        forall|i: int| 0 <= i < ws.len() ==> is_word(#[trigger] ws[i]),
    ensures
        parse_spec(join_spaced(seq!["/create"@, g] + ws)) == Ok::<ClientMsg, Seq<char>>(
            ClientMsg::CreateGroup {
                group_name: g,
                password: if ws.len() == 0 {
                    None
                } else {
                    Some(join_spaced(ws))
                },
            },
        ),
{
    lemma_command_names();
    lemma_command_words("/create"@, g, ws);
}

} // verus!
