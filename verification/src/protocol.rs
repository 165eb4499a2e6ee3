//! The messages that clients and the server exchange.

use std::sync::Arc;
use vstd::prelude::*;

verus! {

/// Messages that clients can send to the server.
#[derive(Debug, Clone, PartialEq)]
pub enum FromClient {
    /// Create a new group with an optional password.
    CreateGroup { group_name: Arc<String>, password: Option<Arc<String>> },
    /// List all available groups.
    ListGroups,
    /// Join a group by name.
    Join { group_name: Arc<String>, password: Option<Arc<String>> },
    /// Post a message to a group.
    Post { group_name: Arc<String>, message: Arc<String> },
}

/// Messages that the server sends back to clients.
#[derive(Debug, Clone, PartialEq)]
pub enum FromServer {
    /// Confirmation that a group was created.
    GroupCreated { group_name: Arc<String> },
    /// List of available groups.
    GroupList { groups: Vec<Arc<String>> },
    /// A message has been posted to a group.
    Message { group_name: Arc<String>, message: Arc<String> },
    /// The server encountered an error.
    Error(String),
}

/// A client message as text values.
pub enum ClientMsg {
    CreateGroup { group_name: Seq<char>, password: Option<Seq<char>> },
    ListGroups,
    Join { group_name: Seq<char>, password: Option<Seq<char>> },
    Post { group_name: Seq<char>, message: Seq<char> },
}

/// A server message as text values.
pub enum ServerMsg {
    GroupCreated { group_name: Seq<char> },
    GroupList { groups: Seq<Seq<char>> },
    Message { group_name: Seq<char>, message: Seq<char> },
    Error(Seq<char>),
}

/// The text of an optional shared string.
pub open spec fn opt_text(o: Option<Arc<String>>) -> Option<Seq<char>> {
    match o {
        Some(s) => Some(s@),
        None => None,
    }
}

/// The texts of a list of shared strings.
pub open spec fn arc_texts(v: Seq<Arc<String>>) -> Seq<Seq<char>> {
    v.map_values(|s: Arc<String>| s@)
}

impl View for FromClient {
    type V = ClientMsg;

    open spec fn view(&self) -> ClientMsg {
        match self {
            FromClient::CreateGroup { group_name, password } => ClientMsg::CreateGroup {
                group_name: group_name@,
                password: opt_text(*password),
            },
            FromClient::ListGroups => ClientMsg::ListGroups,
            FromClient::Join { group_name, password } => ClientMsg::Join {
                group_name: group_name@,
                password: opt_text(*password),
            },
            FromClient::Post { group_name, message } => ClientMsg::Post {
                group_name: group_name@,
                message: message@,
            },
        }
    }
}

impl View for FromServer {
    type V = ServerMsg;

    open spec fn view(&self) -> ServerMsg {
        match self {
            FromServer::GroupCreated { group_name } => ServerMsg::GroupCreated {
                group_name: group_name@,
            },
            FromServer::GroupList { groups } => ServerMsg::GroupList { groups: arc_texts(groups@) },
            FromServer::Message { group_name, message } => ServerMsg::Message {
                group_name: group_name@,
                message: message@,
            },
            FromServer::Error(e) => ServerMsg::Error(e@),
        }
    }
}

/// A shared copy of `s`.
pub fn share(s: &String) -> (a: Arc<String>)
    ensures
        a@ == s@,
{
    Arc::new(s.clone())
}

} // verus!
