//! The server's handling of one client request against the group table.

use std::sync::Arc;
use tokio::sync::broadcast::Receiver;
use vstd::prelude::*;
use crate::group::{skipped_messages, BroadcastPacket};
use crate::group_table::{lemma_push_fresh, table_consistent, CreateResult, GroupTable};
use crate::protocol::{ClientMsg, FromClient, FromServer, ServerMsg, share};
use crate::text::{trim, trimmed};

verus! {

/// What the connection does after a request was handled.
pub enum ServeAction {
    /// Send this reply to the client.
    Reply(FromServer),
    /// Forward the packets of this receiver to the client, as messages of the
    /// named group.
    Subscribe { group_name: Arc<String>, receiver: Receiver<BroadcastPacket> },
    /// Nothing more to do.
    Done,
}

/// A serve action as text values; a subscription is given by its group's
/// name and the messages of the group that its receiver skips.
pub enum ServeOutcome {
    Reply(ServerMsg),
    Subscribe(Seq<char>, Seq<Seq<char>>),
    Done,
}

impl View for ServeAction {
    type V = ServeOutcome;

    open spec fn view(&self) -> ServeOutcome {
        match self {
            ServeAction::Reply(m) => ServeOutcome::Reply(m@),
            ServeAction::Subscribe { group_name, receiver } => ServeOutcome::Subscribe(
                group_name@,
                skipped_messages(*receiver),
            ),
            ServeAction::Done => ServeOutcome::Done,
        }
    }
}

/// The error sent for a group name that is already taken.
pub open spec fn taken_msg(name: Seq<char>) -> Seq<char> {
    "Group '"@ + name + "' already exists"@
}

/// The error sent for a group that does not exist.
pub open spec fn missing_msg(name: Seq<char>) -> Seq<char> {
    "Group '"@ + name + "' does not exist"@
}

/// The messages posted to a group so far, or none for a group that does not
/// exist yet.
pub open spec fn posted_in(posts: Map<Seq<char>, Seq<Seq<char>>>, name: Seq<char>) -> Seq<Seq<char>> {
    if posts.contains_key(name) {
        posts[name]
    } else {
        Seq::empty()
    }
}

/// How the server answers `req` when the table maps names to passwords as
/// `table`, lists them as `names` and holds the posts `posts` of each group:
/// a join subscribes from the group's current end.
pub open spec fn serve_spec(
    table: Map<Seq<char>, Option<Seq<char>>>,
    names: Seq<Seq<char>>,
    posts: Map<Seq<char>, Seq<Seq<char>>>,
    req: ClientMsg,
) -> ServeOutcome {
    match req {
        ClientMsg::CreateGroup { group_name, password } => if table.contains_key(group_name) {
            ServeOutcome::Reply(ServerMsg::Error(taken_msg(group_name)))
        } else {
            ServeOutcome::Reply(ServerMsg::GroupCreated { group_name })
        },
        ClientMsg::ListGroups => ServeOutcome::Reply(ServerMsg::GroupList { groups: names }),
        ClientMsg::Join { group_name, password } => ServeOutcome::Subscribe(
            group_name,
            posted_in(posts, group_name),
        ),
        ClientMsg::Post { group_name, message } => if table.contains_key(group_name) {
            ServeOutcome::Done
        } else {
            ServeOutcome::Reply(ServerMsg::Error(missing_msg(group_name)))
        },
    }
}

/// What `req` does to the table: creating a group, or joining one that does
/// not exist yet, adds it; nothing else changes the table.
pub open spec fn serve_table(
    table: Map<Seq<char>, Option<Seq<char>>>,
    req: ClientMsg,
) -> Map<Seq<char>, Option<Seq<char>>> {
    match req {
        ClientMsg::CreateGroup { group_name, password } => if table.contains_key(group_name) {
            table
        } else {
            table.insert(group_name, password)
        },
        ClientMsg::Join { group_name, password } => if table.contains_key(group_name) {
            table
        } else {
            table.insert(group_name, None)
        },
        _ => table,
    }
}

/// The posts of each group after `req`: a group that `req` adds has none, and
/// a post to a group that exists is added after that group's earlier posts;
/// no other group's posts change.
pub open spec fn serve_posts(
    table: Map<Seq<char>, Option<Seq<char>>>,
    posts: Map<Seq<char>, Seq<Seq<char>>>,
    req: ClientMsg,
) -> Map<Seq<char>, Seq<Seq<char>>> {
    match req {
        ClientMsg::CreateGroup { group_name, password } => if table.contains_key(group_name) {
            posts
        } else {
            posts.insert(group_name, Seq::empty())
        },
        ClientMsg::Join { group_name, password } => if table.contains_key(group_name) {
            posts
        } else {
            posts.insert(group_name, Seq::empty())
        },
        ClientMsg::Post { group_name, message } => if table.contains_key(group_name) {
            posts.insert(group_name, posts[group_name].push(message))
        } else {
            posts
        },
        ClientMsg::ListGroups => posts,
    }
}

/// The group names after `req`: a group that `req` adds comes last.
pub open spec fn serve_names(
    table: Map<Seq<char>, Option<Seq<char>>>,
    names: Seq<Seq<char>>,
    req: ClientMsg,
) -> Seq<Seq<char>> {
    match req {
        ClientMsg::CreateGroup { group_name, password } => if table.contains_key(group_name) {
            names
        } else {
            names.push(group_name)
        },
        ClientMsg::Join { group_name, password } => if table.contains_key(group_name) {
            names
        } else {
            names.push(group_name)
        },
        _ => names,
    }
}

fn group_error(prefix: &str, name: &String, suffix: &str) -> (s: String)
    ensures
        s@ == prefix@ + name@ + suffix@,
{
    let mut s = String::from_str(prefix);
    s.append(name.as_str());
    s.append(suffix);
    s
}

/// Handles one request from a client: creates, lists, joins or posts to
/// groups, and says what the connection does next.
///
/// A join subscribes to the group, creating it without a password when it
/// does not exist; the request's password is not checked. A post to a group
/// that exists is handed to its channel for its subscribers.
pub fn handle_request(groups: &mut GroupTable, request: FromClient) -> (a: ServeAction)
    ensures
        final(groups).consistent(),
        a@ == serve_spec(old(groups)@, old(groups).names(), old(groups).posts(), request@),
        final(groups).posts() == serve_posts(old(groups)@, old(groups).posts(), request@),
        final(groups)@ == serve_table(old(groups)@, request@),
        final(groups).names() == serve_names(old(groups)@, old(groups).names(), request@),
{
    match request {
        FromClient::CreateGroup { group_name, password } => {
            let reply_name = share(&*group_name);
            match groups.create(group_name, password) {
                CreateResult::Success => {
                    ServeAction::Reply(FromServer::GroupCreated { group_name: reply_name })
                },
                CreateResult::AlreadyExists => {
                    let e = group_error("Group '", &*reply_name, "' already exists");
                    ServeAction::Reply(FromServer::Error(e))
                },
            }
        },
        FromClient::ListGroups => {
            let list = groups.list_groups();
            ServeAction::Reply(FromServer::GroupList { groups: list })
        },
        FromClient::Join { group_name, password } => {
            let reply_name = share(&*group_name);
            let group = groups.get_or_create(group_name);
            let receiver = group.join();
            ServeAction::Subscribe { group_name: reply_name, receiver }
        },
        FromClient::Post { group_name, message } => {
            if groups.post_to(&*group_name, message) {
                ServeAction::Done
            } else {
                let e = group_error("Group '", &*group_name, "' does not exist");
                ServeAction::Reply(FromServer::Error(e))
            }
        },
    }
}

/// Whether an incoming text frame holds nothing but whitespace; such frames
/// are skipped.
pub fn is_blank(text: &str) -> (b: bool)
    ensures
        b == (trim(text@).len() == 0),
{
    trimmed(text).as_str().is_empty()
}

/// Every request keeps the group list in step with the table: each group is
/// listed exactly once.
pub proof fn law_requests_keep_list_consistent(
    table: Map<Seq<char>, Option<Seq<char>>>,
    names: Seq<Seq<char>>,
    req: ClientMsg,
)
    requires
        table_consistent(table, names),
    ensures
        table_consistent(serve_table(table, req), serve_names(table, names, req)),
{
    match req {
        ClientMsg::CreateGroup { group_name, password } => {
            lemma_push_fresh(table, names, group_name, password);
        },
        ClientMsg::Join { group_name, password } => {
            lemma_push_fresh(table, names, group_name, None);
        },
        _ => {},
    }
}

/// A group that was just created is answered with `GroupCreated` and then
/// appears last in the list of groups.
pub proof fn law_create_then_list(
    table: Map<Seq<char>, Option<Seq<char>>>,
    names: Seq<Seq<char>>,
    posts: Map<Seq<char>, Seq<Seq<char>>>,
    name: Seq<char>,
    password: Option<Seq<char>>,
)
    requires
        !table.contains_key(name),
    ensures
        ({
            let req = ClientMsg::CreateGroup { group_name: name, password };
            &&& serve_spec(table, names, posts, req) == ServeOutcome::Reply(
                ServerMsg::GroupCreated { group_name: name },
            )
            &&& serve_spec(serve_table(table, req), serve_names(table, names, req), serve_posts(table, posts, req), ClientMsg::ListGroups)
                == ServeOutcome::Reply(ServerMsg::GroupList { groups: names.push(name) })
            &&& serve_table(table, req)[name] == password
        }),
{
}

/// Creating a group whose name is taken is refused with an error and changes
/// nothing; in particular a second creation of the same name is refused.
pub proof fn law_create_taken_refused(
    table: Map<Seq<char>, Option<Seq<char>>>,
    names: Seq<Seq<char>>,
    posts: Map<Seq<char>, Seq<Seq<char>>>,
    name: Seq<char>,
    p1: Option<Seq<char>>,
    p2: Option<Seq<char>>,
)
    ensures
        ({
            let first = ClientMsg::CreateGroup { group_name: name, password: p1 };
            let second = ClientMsg::CreateGroup { group_name: name, password: p2 };
            let t1 = serve_table(table, first);
            let n1 = serve_names(table, names, first);
            &&& serve_spec(t1, n1, serve_posts(table, posts, first), second) == ServeOutcome::Reply(ServerMsg::Error(taken_msg(name)))
            &&& serve_table(t1, second) == t1
            &&& serve_names(t1, n1, second) == n1
        }),
{
}

/// A post to a group that does not exist is answered with an error and
/// changes nothing; once the group is created or joined, a post to it is
/// accepted without reply.
pub proof fn law_post_needs_group(
    table: Map<Seq<char>, Option<Seq<char>>>,
    names: Seq<Seq<char>>,
    posts: Map<Seq<char>, Seq<Seq<char>>>,
    name: Seq<char>,
    message: Seq<char>,
    password: Option<Seq<char>>,
)
    requires
        !table.contains_key(name),
    ensures
        ({
            let post = ClientMsg::Post { group_name: name, message };
            let create = ClientMsg::CreateGroup { group_name: name, password };
            let join = ClientMsg::Join { group_name: name, password };
            &&& serve_spec(table, names, posts, post) == ServeOutcome::Reply(ServerMsg::Error(missing_msg(name)))
            &&& serve_table(table, post) == table
            &&& serve_spec(serve_table(table, create), serve_names(table, names, create), serve_posts(table, posts, create), post)
                == ServeOutcome::Done
            &&& serve_spec(serve_table(table, join), serve_names(table, names, join), serve_posts(table, posts, join), post)
                == ServeOutcome::Done
        }),
{
}

/// Joining twice subscribes twice but creates the group only once.
pub proof fn law_join_idempotent(
    table: Map<Seq<char>, Option<Seq<char>>>,
    names: Seq<Seq<char>>,
    posts: Map<Seq<char>, Seq<Seq<char>>>,
    name: Seq<char>,
    p1: Option<Seq<char>>,
    p2: Option<Seq<char>>,
)
    requires
        posts.dom() == table.dom(),
    ensures
        ({
            let j1 = ClientMsg::Join { group_name: name, password: p1 };
            let j2 = ClientMsg::Join { group_name: name, password: p2 };
            let t1 = serve_table(table, j1);
            let n1 = serve_names(table, names, j1);
            &&& serve_spec(table, names, posts, j1) == ServeOutcome::Subscribe(name, posted_in(posts, name))
            &&& serve_spec(t1, n1, serve_posts(table, posts, j1), j2) == ServeOutcome::Subscribe(name, posted_in(posts, name))
            &&& serve_posts(t1, serve_posts(table, posts, j1), j2) == serve_posts(table, posts, j1)
            &&& serve_table(t1, j2) == t1
            &&& serve_names(t1, n1, j2) == n1
        }),
{
}

/// A message posted to a group is handed on right after everything a client
/// that joined earlier skipped: that client reads it next (after the posts
/// made since its join, none here), a client that joins after the post skips
/// it, and no other group's posts change.
pub proof fn law_post_after_join(
    table: Map<Seq<char>, Option<Seq<char>>>,
    names: Seq<Seq<char>>,
    posts: Map<Seq<char>, Seq<Seq<char>>>,
    name: Seq<char>,
    password: Option<Seq<char>>,
    message: Seq<char>,
)
    requires
        posts.dom() == table.dom(),
    ensures
        ({
            let join = ClientMsg::Join { group_name: name, password };
            let post = ClientMsg::Post { group_name: name, message };
            let t1 = serve_table(table, join);
            let n1 = serve_names(table, names, join);
            let p1 = serve_posts(table, posts, join);
            let p2 = serve_posts(t1, p1, post);
            &&& serve_spec(table, names, posts, join) == ServeOutcome::Subscribe(name, p1[name])
            &&& serve_spec(t1, n1, p1, post) == ServeOutcome::Done
            &&& p2[name] == p1[name].push(message)
            &&& serve_spec(serve_table(t1, post), serve_names(t1, n1, post), p2, join)
                == ServeOutcome::Subscribe(name, p1[name].push(message))
            &&& forall|other: Seq<char>| other != name ==> #[trigger] p2.contains_key(other)
                == posts.contains_key(other) && (posts.contains_key(other) ==> p2[other]
                == posts[other])
        }),
{
}

} // verus!
