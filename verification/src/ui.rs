//! The web client's application model: messages, groups, connection status,
//! theme and the request types it sends.

use std::sync::Arc;
use vstd::prelude::*;
use crate::clock::now_millis;
use crate::protocol::{ClientMsg, FromClient, FromServer};
use crate::user::{is_hyphenated_uuid, is_uuid_v4, new_uuid_string};

verus! {

/// A chat message with the information the interface shows; `timestamp` is
/// in milliseconds since the Unix epoch.
#[derive(Debug, Clone, PartialEq)]
pub struct ChatMessage {
    pub id: String,
    pub group_name: String,
    pub content: String,
    pub sender: String,
    pub timestamp: i64,
    pub is_own: bool,
}

impl ChatMessage {
    /// A message with a fresh random id, stamped with the current time.
    pub fn new(group_name: String, content: String, sender: String, is_own: bool) -> (m: Self)
        ensures
            is_uuid_v4(m.id@),
            m.group_name@ == group_name@,
            m.content@ == content@,
            m.sender@ == sender@,
            m.is_own == is_own,
    {
        ChatMessage {
            id: new_uuid_string(),
            group_name,
            content,
            sender,
            timestamp: now_millis(),
            is_own,
        }
    }

    /// A message received from the server; it is the user's own when its
    /// sender is the current user.
    pub fn from_server_message(
        group_name: String,
        message: String,
        sender: String,
        current_user: String,
    ) -> (m: Self)
        ensures
            is_uuid_v4(m.id@),
            m.group_name@ == group_name@,
            m.content@ == message@,
            m.sender@ == sender@,
            m.is_own == (sender@ == current_user@),
    {
        let is_own = sender == current_user;
        ChatMessage {
            id: new_uuid_string(),
            group_name,
            content: message,
            sender,
            timestamp: now_millis(),
            is_own,
        }
    }
}

/// A chat group as the sidebar shows it; `last_activity` is in milliseconds
/// since the Unix epoch.
#[derive(Debug, Clone, PartialEq)]
pub struct ChatGroup {
    pub name: String,
    pub member_count: usize,
    pub last_message: Option<String>,
    pub last_activity: i64,
    pub unread_count: usize,
}

/// The text of an optional string.
pub open spec fn opt_str(o: Option<String>) -> Option<Seq<char>> {
    match o {
        Some(s) => Some(s@),
        None => None,
    }
}

impl ChatGroup {
    /// A group with one member, no message yet and nothing unread.
    pub fn new(name: String) -> (g: Self)
        ensures
            g.name@ == name@,
            g.member_count == 1,
            g.last_message is None,
            g.unread_count == 0,
    {
        ChatGroup {
            name,
            member_count: 1,
            last_message: None,
            last_activity: now_millis(),
            unread_count: 0,
        }
    }

    /// Records `message` as the group's latest message, at the current time.
    pub fn update_activity(&mut self, message: &str)
        ensures
            opt_str(final(self).last_message) == Some(message@),
            final(self).name == old(self).name,
            final(self).member_count == old(self).member_count,
            final(self).unread_count == old(self).unread_count,
    {
        self.last_message = Some(String::from_str(message));
        self.last_activity = now_millis();
    }

    /// Counts one more unread message.
    pub fn increment_unread(&mut self)
        requires
            old(self).unread_count < usize::MAX,
        ensures
            final(self).unread_count == old(self).unread_count + 1,
            final(self).name == old(self).name,
            final(self).member_count == old(self).member_count,
            final(self).last_message == old(self).last_message,
            final(self).last_activity == old(self).last_activity,
    {
        self.unread_count = self.unread_count + 1;
    }

    /// Marks every message of the group as read.
    pub fn clear_unread(&mut self)
        ensures
            final(self).unread_count == 0,
            final(self).name == old(self).name,
            final(self).member_count == old(self).member_count,
            final(self).last_message == old(self).last_message,
            final(self).last_activity == old(self).last_activity,
    {
        self.unread_count = 0;
    }
}

/// WebSocket connection status.
#[derive(Debug, Clone, PartialEq)]
pub enum ConnectionStatus {
    Connecting,
    Connected,
    Disconnected,
    Error(String),
}

impl ConnectionStatus {
    /// Whether the connection is established.
    pub fn is_connected(&self) -> (b: bool)
        ensures
            b == (self is Connected),
    {
        match self {
            ConnectionStatus::Connected => true,
            _ => false,
        }
    }

    /// The text that shows the status.
    pub fn to_string(&self) -> (s: String)
        ensures
            s@ == match self {
                ConnectionStatus::Connecting => "Connecting..."@,
                ConnectionStatus::Connected => "Connected"@,
                ConnectionStatus::Disconnected => "Disconnected"@,
                ConnectionStatus::Error(msg) => "Error: "@ + msg@,
            },
    {
        match self {
            ConnectionStatus::Connecting => String::from_str("Connecting..."),
            ConnectionStatus::Connected => String::from_str("Connected"),
            ConnectionStatus::Disconnected => String::from_str("Disconnected"),
            ConnectionStatus::Error(msg) => {
                let mut s = String::from_str("Error: ");
                s.append(msg.as_str());
                s
            },
        }
    }
}

/// Theme settings.
#[derive(Debug, Clone, Copy, PartialEq, Eq, Structural)]
pub enum Theme {
    Light,
    Dark,
}

impl Theme {
    /// The other theme.
    pub fn toggle(&self) -> (t: Self)
        ensures
            t == match self {
                Theme::Light => Theme::Dark,
                Theme::Dark => Theme::Light,
            },
    {
        match self {
            Theme::Light => Theme::Dark,
            Theme::Dark => Theme::Light,
        }
    }
}

/// Toggling the theme twice gives back the theme.
pub proof fn law_toggle_involutive(t: Theme)
    ensures
        ({
            let once = match t {
                Theme::Light => Theme::Dark,
                Theme::Dark => Theme::Light,
            };
            let twice = match once {
                Theme::Light => Theme::Dark,
                Theme::Dark => Theme::Light,
            };
            twice == t && once != t
        }),
{
}

/// Application-wide state.
#[derive(Debug, Clone)]
pub struct AppState {
    pub current_user: String,
    pub current_group: Option<String>,
    pub connection_status: ConnectionStatus,
    pub groups: Vec<ChatGroup>,
    pub messages: Vec<ChatMessage>,
    pub theme: Theme,
}

/// `c` in upper case, for a lowercase hexadecimal digit.
pub open spec fn upper_hex(c: char) -> char {
    if c == 'a' {
        'A'
    } else if c == 'b' {
        'B'
    } else if c == 'c' {
        'C'
    } else if c == 'd' {
        'D'
    } else if c == 'e' {
        'E'
    } else if c == 'f' {
        'F'
    } else {
        c
    }
}

fn to_upper_hex(c: char) -> (u: char)
    ensures
        u == upper_hex(c),
{
    if c == 'a' {
        'A'
    } else if c == 'b' {
        'B'
    } else if c == 'c' {
        'C'
    } else if c == 'd' {
        'D'
    } else if c == 'e' {
        'E'
    } else if c == 'f' {
        'F'
    } else {
        c
    }
}

/// The generated name of a new user: `User_` and the first eight characters
/// of `id` in upper case.
pub open spec fn generated_user_name(id: Seq<char>) -> Seq<char> {
    "User_"@ + id.take(8).map_values(|c: char| upper_hex(c))
}

/// The generated name of a new user, from a UUID in text form.
pub fn user_name_from_id(id: &String) -> (s: String)
    requires
        is_hyphenated_uuid(id@),
    ensures
        s@ == generated_user_name(id@),
{
    let chars = crate::text::chars_of(id.as_str());
    let mut s = String::from_str("User_");
    let mut i: usize = 0;
    while i < 8
        invariant
            0 <= i <= 8,
            chars@ == id@,
            chars@.len() == 36,
            s@ == "User_"@ + id@.take(i as int).map_values(|c: char| upper_hex(c)),
        decreases 8 - i,
    {
        crate::text::push_char(&mut s, to_upper_hex(chars[i]));
        assert(id@.take(i + 1) =~= id@.take(i as int).push(id@[i as int]));
        assert(id@.take(i + 1).map_values(|c: char| upper_hex(c)) =~= id@.take(i as int).map_values(
            |c: char| upper_hex(c),
        ).push(upper_hex(id@[i as int])));
        i = i + 1;
    }
    s
}

impl Default for AppState {
    /// A disconnected state with a generated user name, no group, no messages
    /// and the dark theme.
    fn default() -> (a: Self)
        ensures
            exists|id: Seq<char>| is_uuid_v4(id) && a.current_user@ == generated_user_name(id),
            a.current_group is None,
            a.connection_status is Disconnected,
            a.groups@.len() == 0,
            a.messages@.len() == 0,
            a.theme == Theme::Dark,
    {
        let id = new_uuid_string();
        let current_user = user_name_from_id(&id);
        AppState {
            current_user,
            current_group: None,
            connection_status: ConnectionStatus::Disconnected,
            groups: Vec::new(),
            messages: Vec::new(),
            theme: Theme::Dark,
        }
    }
}

/// Application actions for state management.
#[derive(Debug, Clone)]
pub enum AppAction {
    SetUser(String),
    SetConnectionStatus(ConnectionStatus),
    JoinGroup(String),
    LeaveGroup(String),
    AddMessage(ChatMessage),
    SetCurrentGroup(Option<String>),
    UpdateGroup(ChatGroup),
    ClearUnread(String),
    SetTheme(Theme),
}

/// Requests of the web client, with user identification.
#[derive(Debug, Clone, PartialEq)]
pub enum EnhancedFromClient {
    /// Join a group with user identification.
    Join { group_name: String, user_id: String, username: String },
    /// Post a message to a group.
    Post { group_name: String, message: String, user_id: String, username: String },
    /// Leave a group.
    Leave { group_name: String, user_id: String },
    /// Get the list of active groups.
    GetGroups,
    /// Typing indicator.
    Typing { group_name: String, username: String, is_typing: bool },
}

/// The server request that a web-client request becomes: joins and posts keep
/// group and text, and everything else becomes a join of the group `unknown`.
pub open spec fn plain_request(e: EnhancedFromClient) -> ClientMsg {
    match e {
        EnhancedFromClient::Join { group_name, .. } => ClientMsg::Join {
            group_name: group_name@,
            password: None,
        },
        EnhancedFromClient::Post { group_name, message, .. } => ClientMsg::Post {
            group_name: group_name@,
            message: message@,
        },
        _ => ClientMsg::Join { group_name: "unknown"@, password: None },
    }
}

/// The conversion makes new shared strings, so its result is pinned down by
/// its text values (`plain_request`, the contract of `from`) and not as a
/// value of `FromClient`: no `from_spec` is claimed.
impl vstd::std_specs::convert::FromSpecImpl<EnhancedFromClient> for FromClient {
    open spec fn obeys_from_spec() -> bool {
        false
    }

    open spec fn from_spec(v: EnhancedFromClient) -> FromClient {
        arbitrary()
    }
}

impl From<EnhancedFromClient> for FromClient {
    fn from(enhanced: EnhancedFromClient) -> (r: FromClient)
        ensures
            r@ == plain_request(enhanced),
    {
        match enhanced {
            EnhancedFromClient::Join { group_name, .. } => FromClient::Join {
                group_name: Arc::new(group_name),
                password: None,
            },
            EnhancedFromClient::Post { group_name, message, .. } => FromClient::Post {
                group_name: Arc::new(group_name),
                message: Arc::new(message),
            },
            _ => FromClient::Join { group_name: Arc::new(String::from_str("unknown")), password: None },
        }
    }
}

/// Messages of the server, with sender information, as the web client reads them.
#[derive(Debug, Clone)]
pub enum EnhancedFromServer {
    /// A message with sender information.
    Message {
        group_name: String,
        message: String,
        sender: String,
        timestamp: i64,
        message_id: String,
    },
    /// A user joined a group.
    UserJoined { group_name: String, username: String },
    /// A user left a group.
    UserLeft { group_name: String, username: String },
    /// The list of available groups.
    GroupsList(Vec<ChatGroup>),
    /// A group's member count changed.
    GroupUpdate { group_name: String, member_count: usize },
    /// A user is typing.
    UserTyping { group_name: String, username: String },
    /// A server error.
    Error(String),
    /// The connection succeeded.
    Connected { user_id: String, message: String },
}

/// Reading a server message makes new values (a fresh id, the current time),
/// so no `from_spec` is claimed; the contract of `from` states the result.
impl vstd::std_specs::convert::FromSpecImpl<FromServer> for EnhancedFromServer {
    open spec fn obeys_from_spec() -> bool {
        false
    }

    open spec fn from_spec(v: FromServer) -> EnhancedFromServer {
        arbitrary()
    }
}

impl From<FromServer> for EnhancedFromServer {
    /// A server message as the web client reads it. A posted message gets
    /// sender `Unknown` (the server sends none), the current time and a fresh
    /// id; an error stays an error. A group list becomes a list of groups as
    /// `ChatGroup::new` makes them, and a created group an update of that
    /// group to one member, the count `ChatGroup::new` starts from.
    fn from(server: FromServer) -> (r: EnhancedFromServer)
        ensures
            match server {
                FromServer::Message { group_name, message } => match r {
                    EnhancedFromServer::Message { group_name: g, message: m, sender, message_id, .. } => {
                        &&& g@ == group_name@
                        &&& m@ == message@
                        &&& sender@ == "Unknown"@
                        &&& is_uuid_v4(message_id@)
                    },
                    _ => false,
                },
                FromServer::Error(e) => match r {
                    EnhancedFromServer::Error(e2) => e2@ == e@,
                    _ => false,
                },
                FromServer::GroupList { groups } => match r {
                    EnhancedFromServer::GroupsList(gs) => {
                        &&& gs@.len() == groups@.len()
                        &&& forall|i: int|
                            0 <= i < gs@.len() ==> {
                                &&& (#[trigger] gs@[i]).name@ == groups@[i]@
                                &&& gs@[i].member_count == 1
                                &&& gs@[i].last_message is None
                                &&& gs@[i].unread_count == 0
                            }
                    },
                    _ => false,
                },
                FromServer::GroupCreated { group_name } => match r {
                    EnhancedFromServer::GroupUpdate { group_name: g, member_count } => g@
                        == group_name@ && member_count == 1,
                    _ => false,
                },
            },
    {
        match server {
            FromServer::Message { group_name, message } => EnhancedFromServer::Message {
                group_name: (*group_name).clone(),
                message: (*message).clone(),
                sender: String::from_str("Unknown"),
                timestamp: now_millis(),
                message_id: new_uuid_string(),
            },
            FromServer::Error(e) => EnhancedFromServer::Error(e),
            FromServer::GroupList { groups } => {
                let mut gs: Vec<ChatGroup> = Vec::new();
                let mut i: usize = 0;
                while i < groups.len()
                    invariant
                        0 <= i <= groups.len(),
                        gs@.len() == i,
                        forall|k: int|
                            0 <= k < i ==> {
                                &&& (#[trigger] gs@[k]).name@ == groups@[k]@
                                &&& gs@[k].member_count == 1
                                &&& gs@[k].last_message is None
                                &&& gs@[k].unread_count == 0
                            },
                    decreases groups.len() - i,
                {
                    gs.push(ChatGroup::new((*groups[i]).clone()));
                    i = i + 1;
                }
                EnhancedFromServer::GroupsList(gs)
            },
            FromServer::GroupCreated { group_name } => EnhancedFromServer::GroupUpdate {
                group_name: (*group_name).clone(),
                member_count: 1,
            },
        }
    }
}

} // verus!
