//! The web client's chat state: the messages of each group, reactions,
//! typing and online users, and the reducer that applies user and server
//! actions to it.

use vstd::prelude::*;
use crate::assoc::{
    assoc, has_key, keys_distinct, lemma_assoc_at, lemma_assoc_dom, lemma_assoc_empty,
    lemma_assoc_push, lemma_assoc_update,
};

verus! {

/// Content of a chat message. A voice message's duration is in milliseconds.
#[derive(Debug, Clone, PartialEq)]
pub enum MessageContent {
    Text(String),
    File { filename: String, data: String },
    Voice { duration_ms: u64, data: String },
}

/// Reply information for threaded messages.
#[derive(Debug, Clone, PartialEq)]
pub struct ReplyInfo {
    pub message_id: String,
    pub author: String,
    pub preview: String,
}

/// A single chat message; `timestamp` is in milliseconds since the Unix
/// epoch and each reaction is an (emoji, user name) pair.
#[derive(Debug, Clone, PartialEq)]
pub struct ChatMessage {
    pub id: String,
    pub author: String,
    pub content: MessageContent,
    pub is_self: bool,
    pub is_error: bool,
    pub timestamp: i64,
    pub reactions: Vec<(String, String)>,
    pub reply_to: Option<ReplyInfo>,
}

/// Online user information; the status is "Online", "Away" or "Offline".
#[derive(Debug, Clone, PartialEq)]
pub struct OnlineUser {
    pub username: String,
    pub status: String,
}

/// Actions that modify the chat state.
pub enum ChatAction {
    AddMessage(ChatMessage),
    SetGroups(Vec<String>),
    Clear,
    AddReaction { msg_index: usize, emoji: String, user: String },
    SetTypingUsers(Vec<String>),
    SetOnlineUsers(Vec<OnlineUser>),
    UpdateUserPresence { username: String, status: String },
    SwitchGroup { group_name: String },
    AddMessageToGroup { group_name: String, message: ChatMessage },
}

/// Messages and online users of one group.
#[derive(Debug, Clone, PartialEq)]
pub struct GroupMessages {
    pub messages: Vec<ChatMessage>,
    pub online_users: Vec<OnlineUser>,
}

// ---------------------------------------------------------------------------
// Text values of the state.

pub enum ContentView {
    Text(Seq<char>),
    File { filename: Seq<char>, data: Seq<char> },
    Voice { duration_ms: u64, data: Seq<char> },
}

pub struct ReplyView {
    pub message_id: Seq<char>,
    pub author: Seq<char>,
    pub preview: Seq<char>,
}

pub struct MessageView {
    pub id: Seq<char>,
    pub author: Seq<char>,
    pub content: ContentView,
    pub is_self: bool,
    pub is_error: bool,
    pub timestamp: i64,
    pub reactions: Seq<(Seq<char>, Seq<char>)>,
    pub reply_to: Option<ReplyView>,
}

pub struct GroupView {
    pub messages: Seq<MessageView>,
    pub online_users: Seq<(Seq<char>, Seq<char>)>,
}

/// The chat state as text values; `group_messages` maps each group that has
/// an entry to its messages and online users.
pub struct ChatView {
    pub current_group: Option<Seq<char>>,
    pub groups: Seq<Seq<char>>,
    pub group_messages: Map<Seq<char>, GroupView>,
    pub typing_users: Seq<Seq<char>>,
    pub online_users: Seq<(Seq<char>, Seq<char>)>,
}

pub enum ActionView {
    AddMessage(MessageView),
    SetGroups(Seq<Seq<char>>),
    Clear,
    AddReaction { msg_index: usize, emoji: Seq<char>, user: Seq<char> },
    SetTypingUsers(Seq<Seq<char>>),
    SetOnlineUsers(Seq<(Seq<char>, Seq<char>)>),
    UpdateUserPresence { username: Seq<char>, status: Seq<char> },
    SwitchGroup { group_name: Seq<char> },
    AddMessageToGroup { group_name: Seq<char>, message: MessageView },
}

pub open spec fn reactions_view(rs: Seq<(String, String)>) -> Seq<(Seq<char>, Seq<char>)> {
    rs.map_values(|p: (String, String)| (p.0@, p.1@))
}

pub open spec fn users_view(us: Seq<OnlineUser>) -> Seq<(Seq<char>, Seq<char>)> {
    us.map_values(|u: OnlineUser| (u.username@, u.status@))
}

pub open spec fn texts(v: Seq<String>) -> Seq<Seq<char>> {
    v.map_values(|s: String| s@)
}

pub open spec fn messages_view(ms: Seq<ChatMessage>) -> Seq<MessageView> {
    ms.map_values(|m: ChatMessage| m@)
}

pub open spec fn opt_text(o: Option<String>) -> Option<Seq<char>> {
    match o {
        Some(s) => Some(s@),
        None => None,
    }
}

impl View for MessageContent {
    type V = ContentView;

    open spec fn view(&self) -> ContentView {
        match self {
            MessageContent::Text(t) => ContentView::Text(t@),
            MessageContent::File { filename, data } => ContentView::File {
                filename: filename@,
                data: data@,
            },
            MessageContent::Voice { duration_ms, data } => ContentView::Voice {
                duration_ms: *duration_ms,
                data: data@,
            },
        }
    }
}

impl View for ReplyInfo {
    type V = ReplyView;

    open spec fn view(&self) -> ReplyView {
        ReplyView { message_id: self.message_id@, author: self.author@, preview: self.preview@ }
    }
}

pub open spec fn reply_view(r: Option<ReplyInfo>) -> Option<ReplyView> {
    match r {
        Some(i) => Some(i@),
        None => None,
    }
}

impl View for ChatMessage {
    type V = MessageView;

    open spec fn view(&self) -> MessageView {
        MessageView {
            id: self.id@,
            author: self.author@,
            content: self.content@,
            is_self: self.is_self,
            is_error: self.is_error,
            timestamp: self.timestamp,
            reactions: reactions_view(self.reactions@),
            reply_to: reply_view(self.reply_to),
        }
    }
}

impl View for GroupMessages {
    type V = GroupView;

    open spec fn view(&self) -> GroupView {
        GroupView {
            messages: messages_view(self.messages@),
            online_users: users_view(self.online_users@),
        }
    }
}

impl View for ChatAction {
    type V = ActionView;

    open spec fn view(&self) -> ActionView {
        match self {
            ChatAction::AddMessage(m) => ActionView::AddMessage(m@),
            ChatAction::SetGroups(g) => ActionView::SetGroups(texts(g@)),
            ChatAction::Clear => ActionView::Clear,
            ChatAction::AddReaction { msg_index, emoji, user } => ActionView::AddReaction {
                msg_index: *msg_index,
                emoji: emoji@,
                user: user@,
            },
            ChatAction::SetTypingUsers(u) => ActionView::SetTypingUsers(texts(u@)),
            ChatAction::SetOnlineUsers(u) => ActionView::SetOnlineUsers(users_view(u@)),
            ChatAction::UpdateUserPresence { username, status } => ActionView::UpdateUserPresence {
                username: username@,
                status: status@,
            },
            ChatAction::SwitchGroup { group_name } => ActionView::SwitchGroup {
                group_name: group_name@,
            },
            ChatAction::AddMessageToGroup { group_name, message } => ActionView::AddMessageToGroup {
                group_name: group_name@,
                message: message@,
            },
        }
    }
}

// ---------------------------------------------------------------------------
// What the reducer does, over text values.

/// The position of the first occurrence of `x` in `s`, if any.
pub open spec fn first_match<A>(s: Seq<A>, x: A) -> Option<int> {
    if exists|i: int| 0 <= i < s.len() && s[i] == x {
        Some(choose|i: int| 0 <= i < s.len() && s[i] == x && forall|j: int| 0 <= j < i ==> s[j] != x)
    } else {
        None
    }
}

/// The position of the first pair whose first component is `k`, if any.
pub open spec fn first_key<A, B>(s: Seq<(A, B)>, k: A) -> Option<int> {
    if exists|i: int| 0 <= i < s.len() && s[i].0 == k {
        Some(
            choose|i: int|
                0 <= i < s.len() && s[i].0 == k && forall|j: int| 0 <= j < i ==> s[j].0 != k,
        )
    } else {
        None
    }
}

/// Toggling a reaction removes its first occurrence, or appends it when it
/// is absent.
pub open spec fn toggle(rs: Seq<(Seq<char>, Seq<char>)>, r: (Seq<char>, Seq<char>)) -> Seq<
    (Seq<char>, Seq<char>),
> {
    match first_match(rs, r) {
        Some(p) => rs.remove(p),
        None => rs.push(r),
    }
}

/// Setting a user's presence updates the first entry of that user, or
/// appends one.
pub open spec fn set_presence(
    us: Seq<(Seq<char>, Seq<char>)>,
    name: Seq<char>,
    status: Seq<char>,
) -> Seq<(Seq<char>, Seq<char>)> {
    match first_key(us, name) {
        Some(p) => us.update(p, (name, status)),
        None => us.push((name, status)),
    }
}

/// A group entry with no message and no online user.
pub open spec fn empty_group() -> GroupView {
    GroupView { messages: seq![], online_users: seq![] }
}

/// The entry of group `g`, or an empty one.
pub open spec fn entry_of(gm: Map<Seq<char>, GroupView>, g: Seq<char>) -> GroupView {
    if gm.contains_key(g) {
        gm[g]
    } else {
        empty_group()
    }
}

/// The entries after appending `m` to the messages of group `g`.
pub open spec fn with_message(gm: Map<Seq<char>, GroupView>, g: Seq<char>, m: MessageView) -> Map<
    Seq<char>,
    GroupView,
> {
    let e = entry_of(gm, g);
    gm.insert(g, GroupView { messages: e.messages.push(m), online_users: e.online_users })
}

/// The message with reaction `(emoji, user)` toggled.
pub open spec fn toggled_message(m: MessageView, emoji: Seq<char>, user: Seq<char>) -> MessageView {
    MessageView {
        id: m.id,
        author: m.author,
        content: m.content,
        is_self: m.is_self,
        is_error: m.is_error,
        timestamp: m.timestamp,
        reactions: toggle(m.reactions, (emoji, user)),
        reply_to: m.reply_to,
    }
}

/// The state after the reducer applies `a` to `s`.
pub open spec fn reduce_spec(s: ChatView, a: ActionView) -> ChatView {
    match a {
        ActionView::AddMessage(m) => match s.current_group {
            Some(g) => ChatView { group_messages: with_message(s.group_messages, g, m), ..s },
            None => s,
        },
        ActionView::SetGroups(gs) => ChatView { groups: gs, ..s },
        ActionView::Clear => match s.current_group {
            Some(g) => if s.group_messages.contains_key(g) {
                ChatView {
                    group_messages: s.group_messages.insert(
                        g,
                        GroupView { messages: seq![], online_users: s.group_messages[g].online_users },
                    ),
                    ..s
                }
            } else {
                s
            },
            None => s,
        },
        ActionView::AddReaction { msg_index, emoji, user } => match s.current_group {
            Some(g) => if s.group_messages.contains_key(g) && msg_index
                < s.group_messages[g].messages.len() {
                let e = s.group_messages[g];
                ChatView {
                    group_messages: s.group_messages.insert(
                        g,
                        GroupView {
                            messages: e.messages.update(
                                msg_index as int,
                                toggled_message(e.messages[msg_index as int], emoji, user),
                            ),
                            online_users: e.online_users,
                        },
                    ),
                    ..s
                }
            } else {
                s
            },
            None => s,
        },
        ActionView::SetTypingUsers(u) => ChatView { typing_users: u, ..s },
        ActionView::SetOnlineUsers(u) => ChatView { online_users: u, ..s },
        ActionView::UpdateUserPresence { username, status } => ChatView {
            online_users: set_presence(s.online_users, username, status),
            ..s
        },
        ActionView::SwitchGroup { group_name } => ChatView {
            current_group: Some(group_name),
            group_messages: if s.group_messages.contains_key(group_name) {
                s.group_messages
            } else {
                s.group_messages.insert(group_name, empty_group())
            },
            ..s
        },
        ActionView::AddMessageToGroup { group_name, message } => ChatView {
            group_messages: with_message(s.group_messages, group_name, message),
            ..s
        },
    }
}

// ---------------------------------------------------------------------------
// The state and its reducer.

/// The group entries as (name, group) text values.
pub open spec fn entries_view(es: Seq<(String, GroupMessages)>) -> Seq<(Seq<char>, GroupView)> {
    es.map_values(|p: (String, GroupMessages)| (p.0@, p.1@))
}

/// Main chat state.
pub struct ChatState {
    current_group: Option<String>,
    groups: Vec<String>,
    group_messages: Vec<(String, GroupMessages)>,
    typing_users: Vec<String>,
    online_users: Vec<OnlineUser>,
}

impl View for ChatState {
    type V = ChatView;

    closed spec fn view(&self) -> ChatView {
        ChatView {
            current_group: opt_text(self.current_group),
            groups: texts(self.groups@),
            group_messages: assoc(entries_view(self.group_messages@)),
            typing_users: texts(self.typing_users@),
            online_users: users_view(self.online_users@),
        }
    }
}

fn find_entry(es: &Vec<(String, GroupMessages)>, g: &String) -> (r: Option<usize>)
    ensures
        match r {
            Some(j) => j < es.len() && es@[j as int].0@ == g@ && has_key(entries_view(es@), g@),
            None => !has_key(entries_view(es@), g@),
        },
{
    let mut j: usize = 0;
    while j < es.len()
        invariant
            0 <= j <= es.len(),
            forall|i: int| 0 <= i < j ==> entries_view(es@)[i].0 != g@,
        decreases es.len() - j,
    {
        if es[j].0 == *g {
            assert(entries_view(es@)[j as int].0 == g@);
            return Some(j);
        }
        j = j + 1;
    }
    None
}

proof fn lemma_reinsert<A>(s: Seq<A>, j: int, x: A)
    requires
        0 <= j < s.len(),
    ensures
        s.remove(j).insert(j, x) == s.update(j, x),
{
    assert(s.remove(j).insert(j, x) =~= s.update(j, x));
}

fn new_entry(g: String) -> (e: (String, GroupMessages))
    ensures
        e.0@ == g@,
        e.1@ == empty_group(),
{
    let gm = GroupMessages { messages: Vec::new(), online_users: Vec::new() };
    assert(gm@.messages =~= Seq::<MessageView>::empty());
    assert(gm@.online_users =~= Seq::<(Seq<char>, Seq<char>)>::empty());
    (g, gm)
}

fn append_message(es: Vec<(String, GroupMessages)>, g: String, m: ChatMessage) -> (r: Vec<
    (String, GroupMessages),
>)
    requires
        keys_distinct(entries_view(es@)),
    ensures
        keys_distinct(entries_view(r@)),
        assoc(entries_view(r@)) == with_message(assoc(entries_view(es@)), g@, m@),
{
    let mut es = es;
    let ghost old_es = es@;
    let ghost mv = m@;
    match find_entry(&es, &g) {
        Some(j) => {
            proof {
                lemma_assoc_at(entries_view(old_es), j as int);
            }
            let (k, mut gm) = es.remove(j);
            let ghost old_gm = gm@;
            gm.messages.push(m);
            assert(gm@.messages =~= old_gm.messages.push(mv));
            let ghost new_view = (k@, gm@);
            es.insert(j, (k, gm));
            proof {
                lemma_reinsert(old_es, j as int, es@[j as int]);
                assert(entries_view(es@) =~= entries_view(old_es).update(j as int, new_view));
                lemma_assoc_update(entries_view(old_es), j as int, gm_view_of(new_view));
            }
            es
        },
        None => {
            let (k, mut gm) = new_entry(g);
            gm.messages.push(m);
            assert(gm@.messages =~= seq![mv]);
            let ghost pv = (k@, gm@);
            proof {
                lemma_assoc_dom(entries_view(old_es), k@);
                lemma_assoc_push(entries_view(old_es), pv);
            }
            es.push((k, gm));
            assert(entries_view(es@) =~= entries_view(old_es).push(pv));
            es
        },
    }
}

spec fn gm_view_of(p: (Seq<char>, GroupView)) -> GroupView {
    p.1
}

fn toggle_reaction(rs: &mut Vec<(String, String)>, emoji: String, user: String)
    ensures
        reactions_view(final(rs)@) == toggle(reactions_view(old(rs)@), (emoji@, user@)),
{
    let ghost r = (emoji@, user@);
    let ghost v = reactions_view(rs@);
    let mut i: usize = 0;
    while i < rs.len()
        invariant
            0 <= i <= rs.len(),
            v == reactions_view(rs@),
            rs@ == old(rs)@,
            r == (emoji@, user@),
            forall|j: int| 0 <= j < i ==> v[j] != r,
        decreases rs.len() - i,
    {
        if rs[i].0 == emoji && rs[i].1 == user {
            proof {
                assert(v[i as int] == r);
                let c = choose|c: int|
                    0 <= c < v.len() && v[c] == r && forall|j: int| 0 <= j < c ==> v[j] != r;
                assert(0 <= i < v.len() && v[i as int] == r && forall|j: int|
                    0 <= j < i ==> v[j] != r);
                assert(c == i);
                assert(first_match(v, r) == Some(i as int));
            }
            rs.remove(i);
            assert(reactions_view(rs@) =~= v.remove(i as int));
            return;
        }
        i = i + 1;
    }
    assert(first_match(v, r) is None);
    rs.push((emoji, user));
    assert(reactions_view(rs@) =~= v.push(r));
}

fn update_presence(us: &mut Vec<OnlineUser>, username: String, status: String)
    ensures
        users_view(final(us)@) == set_presence(users_view(old(us)@), username@, status@),
{
    let ghost v = users_view(us@);
    let ghost k = username@;
    let ghost st = status@;
    let mut i: usize = 0;
    while i < us.len()
        invariant
            0 <= i <= us.len(),
            v == users_view(us@),
            us@ == old(us)@,
            k == username@,
            st == status@,
            forall|j: int| 0 <= j < i ==> v[j].0 != k,
        decreases us.len() - i,
    {
        if us[i].username == username {
            proof {
                assert(v[i as int].0 == k);
                let c = choose|c: int|
                    0 <= c < v.len() && v[c].0 == k && forall|j: int| 0 <= j < c ==> v[j].0 != k;
                assert(0 <= i < v.len() && v[i as int].0 == k && forall|j: int|
                    0 <= j < i ==> v[j].0 != k);
                assert(c == i);
                assert(first_key(v, k) == Some(i as int));
            }
            us.set(i, OnlineUser { username, status });
            assert(users_view(us@) =~= v.update(i as int, (k, st)));
            return;
        }
        i = i + 1;
    }
    assert(first_key(v, k) is None);
    us.push(OnlineUser { username, status });
    assert(users_view(us@) =~= v.push((k, st)));
}

impl ChatState {
    #[verifier::type_invariant]
    spec fn entries_distinct(&self) -> bool {
        keys_distinct(entries_view(self.group_messages@))
    }

    /// An empty state: no current group, no groups, no messages, nobody typing
    /// or online.
    pub fn new() -> (s: ChatState)
        ensures
            s@.current_group is None,
            s@.groups == Seq::<Seq<char>>::empty(),
            s@.group_messages == Map::<Seq<char>, GroupView>::empty(),
            s@.typing_users == Seq::<Seq<char>>::empty(),
            s@.online_users == Seq::<(Seq<char>, Seq<char>)>::empty(),
    {
        let s = ChatState {
            current_group: None,
            groups: Vec::new(),
            group_messages: Vec::new(),
            typing_users: Vec::new(),
            online_users: Vec::new(),
        };
        proof {
            lemma_assoc_empty(entries_view(s.group_messages@));
        }
        assert(s@.groups =~= Seq::<Seq<char>>::empty());
        assert(s@.typing_users =~= Seq::<Seq<char>>::empty());
        assert(s@.online_users =~= Seq::<(Seq<char>, Seq<char>)>::empty());
        s
    }

    /// Applies an action to the state (see `reduce_spec`).
    pub fn reduce(self, action: ChatAction) -> (s: ChatState)
        ensures
            s@ == reduce_spec(self@, action@),
    {
        proof {
            use_type_invariant(&self);
        }
        let ghost before = self@;
        let ghost av = action@;
        let ChatState {
            mut current_group,
            mut groups,
            mut group_messages,
            mut typing_users,
            mut online_users,
        } = self;
        let ghost es0 = group_messages@;
        match action {
            ChatAction::AddMessage(msg) => {
                match &current_group {
                    Some(g) => {
                        group_messages = append_message(group_messages, g.clone(), msg);
                    },
                    None => {},
                }
            },
            ChatAction::SetGroups(g) => {
                groups = g;
            },
            ChatAction::Clear => {
                match &current_group {
                    Some(g) => {
                        match find_entry(&group_messages, g) {
                            Some(j) => {
                                proof {
                                    lemma_assoc_at(entries_view(es0), j as int);
                                }
                                let (k, mut gm) = group_messages.remove(j);
                                gm.messages.clear();
                                assert(gm@.messages =~= Seq::<MessageView>::empty());
                                let ghost nv = (k@, gm@);
                                group_messages.insert(j, (k, gm));
                                proof {
                                    lemma_reinsert(es0, j as int, group_messages@[j as int]);
                                    assert(entries_view(group_messages@) =~= entries_view(es0).update(
                                        j as int,
                                        nv,
                                    ));
                                    lemma_assoc_update(entries_view(es0), j as int, nv.1);
                                }
                            },
                            None => {
                                proof {
                                    lemma_assoc_dom(entries_view(es0), g@);
                                }
                            },
                        }
                    },
                    None => {},
                }
            },
            ChatAction::AddReaction { msg_index, emoji, user } => {
                match &current_group {
                    Some(g) => {
                        match find_entry(&group_messages, g) {
                            Some(j) => {
                                proof {
                                    lemma_assoc_at(entries_view(es0), j as int);
                                }
                                let (k, mut gm) = group_messages.remove(j);
                                let ghost old_gm = gm@;
                                if msg_index < gm.messages.len() {
                                    let ghost ms0 = gm.messages@;
                                    let mut msg = gm.messages.remove(msg_index);
                                    let ghost m0 = msg@;
                                    assert(m0 == messages_view(ms0)[msg_index as int]);
                                    toggle_reaction(&mut msg.reactions, emoji, user);
                                    assert(msg@ == toggled_message(m0, av->AddReaction_emoji, av->AddReaction_user));
                                    let ghost mv = msg@;
                                    gm.messages.insert(msg_index, msg);
                                    proof {
                                        lemma_reinsert(ms0, msg_index as int, gm.messages@[msg_index as int]);
                                        assert(messages_view(gm.messages@) =~= messages_view(ms0).update(
                                            msg_index as int,
                                            mv,
                                        ));
                                    }
                                    let ghost nv = (k@, gm@);
                                    group_messages.insert(j, (k, gm));
                                    proof {
                                        lemma_reinsert(es0, j as int, group_messages@[j as int]);
                                        assert(entries_view(group_messages@) =~= entries_view(
                                            es0,
                                        ).update(j as int, nv));
                                        lemma_assoc_update(entries_view(es0), j as int, nv.1);
                                    }
                                } else {
                                    group_messages.insert(j, (k, gm));
                                    proof {
                                        assert(group_messages@ =~= es0);
                                    }
                                }
                            },
                            None => {
                                proof {
                                    lemma_assoc_dom(entries_view(es0), g@);
                                }
                            },
                        }
                    },
                    None => {},
                }
            },
            ChatAction::SetTypingUsers(u) => {
                typing_users = u;
            },
            ChatAction::SetOnlineUsers(u) => {
                online_users = u;
            },
            ChatAction::UpdateUserPresence { username, status } => {
                update_presence(&mut online_users, username, status);
            },
            ChatAction::SwitchGroup { group_name } => {
                current_group = Some(group_name.clone());
                match find_entry(&group_messages, &group_name) {
                    Some(_) => {
                        proof {
                            lemma_assoc_dom(entries_view(es0), group_name@);
                        }
                    },
                    None => {
                        let e = new_entry(group_name);
                        let ghost pv = (e.0@, e.1@);
                        proof {
                            lemma_assoc_dom(entries_view(es0), e.0@);
                            lemma_assoc_push(entries_view(es0), pv);
                        }
                        group_messages.push(e);
                        assert(entries_view(group_messages@) =~= entries_view(es0).push(pv));
                    },
                }
            },
            ChatAction::AddMessageToGroup { group_name, message } => {
                group_messages = append_message(group_messages, group_name, message);
            },
        }
        let s = ChatState { current_group, groups, group_messages, typing_users, online_users };
        assert(s@ =~= reduce_spec(before, av));
        s
    }

    /// The messages of the current group; none when there is no current group
    /// or it has no entry yet.
    pub fn current_messages(&self) -> (r: &[ChatMessage])
        ensures
            messages_view(r@) == match self@.current_group {
                Some(g) => entry_of(self@.group_messages, g).messages,
                None => Seq::<MessageView>::empty(),
            },
    {
        proof {
            use_type_invariant(self);
        }
        if let Some(g) = &self.current_group {
            match find_entry(&self.group_messages, g) {
                Some(j) => {
                    proof {
                        lemma_assoc_at(entries_view(self.group_messages@), j as int);
                    }
                    return self.group_messages[j].1.messages.as_slice();
                },
                None => {
                    proof {
                        lemma_assoc_dom(entries_view(self.group_messages@), g@);
                    }
                },
            }
        }
        let empty: &[ChatMessage] = &[];
        assert(messages_view(empty@) =~= Seq::<MessageView>::empty());
        empty
    }
}

impl ChatState {
    /// The selected group, if any.
    pub fn current_group(&self) -> (g: Option<&String>)
        ensures
            match g {
                Some(s) => self@.current_group == Some(s@),
                None => self@.current_group is None,
            },
    {
        match &self.current_group {
            Some(s) => Some(s),
            None => None,
        }
    }

    /// The names of the available groups.
    pub fn groups(&self) -> (g: &Vec<String>)
        ensures
            texts(g@) == self@.groups,
    {
        &self.groups
    }

    /// The users currently typing.
    pub fn typing_users(&self) -> (u: &Vec<String>)
        ensures
            texts(u@) == self@.typing_users,
    {
        &self.typing_users
    }

    /// The users known to be online, with their status.
    pub fn online_users(&self) -> (u: &Vec<OnlineUser>)
        ensures
            users_view(u@) == self@.online_users,
    {
        &self.online_users
    }
}

impl Default for ChatState {
    fn default() -> (s: ChatState)
        ensures
            s@.current_group is None,
            s@.groups == Seq::<Seq<char>>::empty(),
            s@.group_messages == Map::<Seq<char>, GroupView>::empty(),
            s@.typing_users == Seq::<Seq<char>>::empty(),
            s@.online_users == Seq::<(Seq<char>, Seq<char>)>::empty(),
    {
        ChatState::new()
    }
}

// ---------------------------------------------------------------------------
// Laws of the reducer.

/// After switching to a group, a new message lands at the end of that
/// group's messages, and the group is current.
pub proof fn law_switch_then_add(s: ChatView, g: Seq<char>, m: MessageView)
    ensures
        ({
            let s1 = reduce_spec(s, ActionView::SwitchGroup { group_name: g });
            let s2 = reduce_spec(s1, ActionView::AddMessage(m));
            &&& s2.current_group == Some(g)
            &&& s2.group_messages.contains_key(g)
            &&& s2.group_messages[g].messages == entry_of(s.group_messages, g).messages.push(m)
        }),
{
}

/// Whether the current group has an entry whenever there is a current group.
pub open spec fn current_has_entry(s: ChatView) -> bool {
    s.current_group matches Some(g) ==> s.group_messages.contains_key(g)
}

/// Every action keeps an entry for the current group: entries are never
/// removed, and switching to a group creates its entry.
pub proof fn law_current_group_has_entry(s: ChatView, a: ActionView)
    requires
        current_has_entry(s),
    ensures
        current_has_entry(reduce_spec(s, a)),
{
}

proof fn lemma_first_match_push(rs: Seq<(Seq<char>, Seq<char>)>, r: (Seq<char>, Seq<char>))
    requires
        !rs.contains(r),
    ensures
        first_match(rs.push(r), r) == Some(rs.len() as int),
{
    let t = rs.push(r);
    assert(t[rs.len() as int] == r);
    let c = choose|c: int| 0 <= c < t.len() && t[c] == r && forall|j: int| 0 <= j < c ==> t[j] != r;
    assert(0 <= rs.len() < t.len() && t[rs.len() as int] == r);
    assert forall|j: int| 0 <= j < rs.len() implies t[j] != r by {
        assert(t[j] == rs[j]);
    }
    if c < rs.len() {
        assert(t[c] == rs[c]);
        assert(rs.contains(r));
    }
}

/// Reacting twice with the same emoji as the same user undoes the first
/// reaction, when that reaction was not there before.
pub proof fn law_reaction_toggle_twice(s: ChatView, i: usize, emoji: Seq<char>, user: Seq<char>)
    requires
        s.current_group is Some,
        s.group_messages.contains_key(s.current_group->0),
        i < s.group_messages[s.current_group->0].messages.len(),
        !s.group_messages[s.current_group->0].messages[i as int].reactions.contains((emoji, user)),
    ensures
        ({
            let a = ActionView::AddReaction { msg_index: i, emoji, user };
            reduce_spec(reduce_spec(s, a), a) == s
        }),
{
    let g = s.current_group->0;
    let e = s.group_messages[g];
    let m = e.messages[i as int];
    let r = (emoji, user);
    assert(first_match(m.reactions, r) is None);
    lemma_first_match_push(m.reactions, r);
    assert(m.reactions.push(r).remove(m.reactions.len() as int) =~= m.reactions);
    let a = ActionView::AddReaction { msg_index: i, emoji, user };
    let s1 = reduce_spec(s, a);
    let m1 = toggled_message(m, emoji, user);
    assert(toggled_message(m1, emoji, user) == m);
    assert(e.messages.update(i as int, m1).update(i as int, m) =~= e.messages);
    assert(s1.group_messages[g].messages == e.messages.update(i as int, m1));
    let s2 = reduce_spec(s1, a);
    assert(s2.group_messages[g] == e);
    assert(s2.group_messages =~= s.group_messages);
}

proof fn lemma_first_key_exists(s: Seq<(Seq<char>, Seq<char>)>, k: Seq<char>, i: int)
    requires
        0 <= i < s.len(),
        s[i].0 == k,
    ensures
        exists|c: int| 0 <= c < s.len() && s[c].0 == k && forall|j: int| 0 <= j < c ==> s[j].0 != k,
    decreases i,
{
    if exists|j: int| 0 <= j < i && s[j].0 == k {
        let j = choose|j: int| 0 <= j < i && s[j].0 == k;
        lemma_first_key_exists(s, k, j);
    } else {
        assert(0 <= i < s.len() && s[i].0 == k && forall|j: int| 0 <= j < i ==> s[j].0 != k);
    }
}

/// After a presence update, the user's first entry among the online users
/// carries the new status.
pub proof fn law_presence_update(s: ChatView, name: Seq<char>, status: Seq<char>)
    ensures
        ({
            let us = reduce_spec(s, ActionView::UpdateUserPresence { username: name, status }).online_users;
            first_key(us, name) matches Some(p) && us[p] == (name, status)
        }),
{
    let us0 = s.online_users;
    let us = set_presence(us0, name, status);
    if exists|i: int| 0 <= i < us0.len() && us0[i].0 == name {
        let i = choose|i: int| 0 <= i < us0.len() && us0[i].0 == name;
        lemma_first_key_exists(us0, name, i);
    }
    match first_key(us0, name) {
        Some(p) => {
            assert(us0[p].0 == name);
            assert(us[p] == (name, status));
            assert forall|j: int| 0 <= j < p implies us[j].0 != name by {
                assert(us[j] == us0[j]);
            }
            let c = choose|c: int|
                0 <= c < us.len() && us[c].0 == name && forall|j: int| 0 <= j < c ==> us[j].0 != name;
            assert(0 <= p < us.len() && us[p].0 == name);
            if c < p {
                assert(us[c] == us0[c]);
            }
            if p < c {
                assert(us[p].0 == name);
            }
            assert(c == p);
        },
        None => {
            let n = us0.len() as int;
            assert(us[n] == (name, status));
            assert forall|j: int| 0 <= j < n implies us[j].0 != name by {
                assert(us[j] == us0[j]);
            }
            let c = choose|c: int|
                0 <= c < us.len() && us[c].0 == name && forall|j: int| 0 <= j < c ==> us[j].0 != name;
            assert(0 <= n < us.len() && us[n].0 == name);
            assert(c == n);
        },
    }
}

// ---------------------------------------------------------------------------
// The single-list board that the web app's main view keeps.

/// The web app's own state: one list of messages, the group names and who is
/// typing.
pub struct MessageBoard {
    pub messages: Vec<ChatMessage>,
    pub groups: Vec<String>,
    pub typing_users: Vec<String>,
}

/// Actions on the board.
pub enum BoardAction {
    AddMessage(ChatMessage),
    SetGroups(Vec<String>),
    Clear,
    AddReaction { msg_index: usize, emoji: String, user: String },
    SetTypingUsers(Vec<String>),
}

/// The board as text values.
pub struct BoardView {
    pub messages: Seq<MessageView>,
    pub groups: Seq<Seq<char>>,
    pub typing_users: Seq<Seq<char>>,
}

impl View for MessageBoard {
    type V = BoardView;

    open spec fn view(&self) -> BoardView {
        BoardView {
            messages: messages_view(self.messages@),
            groups: texts(self.groups@),
            typing_users: texts(self.typing_users@),
        }
    }
}

/// What a board action does, over text values: a message is appended, the
/// groups or typing users replaced, the messages cleared, or a reaction
/// toggled on the message at `msg_index` (an index past the end changes
/// nothing).
pub open spec fn board_spec(b: BoardView, a: BoardAction) -> BoardView {
    match a {
        BoardAction::AddMessage(m) => BoardView { messages: b.messages.push(m@), ..b },
        BoardAction::SetGroups(g) => BoardView { groups: texts(g@), ..b },
        BoardAction::Clear => BoardView { messages: seq![], ..b },
        BoardAction::AddReaction { msg_index, emoji, user } => if msg_index < b.messages.len() {
            BoardView {
                messages: b.messages.update(
                    msg_index as int,
                    toggled_message(b.messages[msg_index as int], emoji@, user@),
                ),
                ..b
            }
        } else {
            b
        },
        BoardAction::SetTypingUsers(u) => BoardView { typing_users: texts(u@), ..b },
    }
}

impl MessageBoard {
    /// An empty board.
    pub fn new() -> (b: MessageBoard)
        ensures
            b@.messages == Seq::<MessageView>::empty(),
            b@.groups == Seq::<Seq<char>>::empty(),
            b@.typing_users == Seq::<Seq<char>>::empty(),
    {
        let b = MessageBoard { messages: Vec::new(), groups: Vec::new(), typing_users: Vec::new() };
        assert(b@.messages =~= Seq::<MessageView>::empty());
        assert(b@.groups =~= Seq::<Seq<char>>::empty());
        assert(b@.typing_users =~= Seq::<Seq<char>>::empty());
        b
    }

    /// Applies an action to the board.
    pub fn reduce(self, action: BoardAction) -> (b: MessageBoard)
        ensures
            b@ == board_spec(self@, action),
    {
        let ghost v = self@;
        let MessageBoard { mut messages, mut groups, mut typing_users } = self;
        match action {
            BoardAction::AddMessage(m) => {
                let ghost mv = m@;
                messages.push(m);
                assert(messages_view(messages@) =~= v.messages.push(mv));
            },
            BoardAction::SetGroups(g) => {
                groups = g;
            },
            BoardAction::Clear => {
                messages = Vec::new();
                assert(messages_view(messages@) =~= Seq::<MessageView>::empty());
            },
            BoardAction::AddReaction { msg_index, emoji, user } => {
                if msg_index < messages.len() {
                    let ghost ms0 = messages@;
                    let ghost e = emoji@;
                    let ghost u = user@;
                    let mut msg = messages.remove(msg_index);
                    let ghost m0 = msg@;
                    assert(m0 == messages_view(ms0)[msg_index as int]);
                    toggle_reaction(&mut msg.reactions, emoji, user);
                    assert(msg@ == toggled_message(m0, e, u));
                    let ghost mv = msg@;
                    messages.insert(msg_index, msg);
                    proof {
                        lemma_reinsert(ms0, msg_index as int, messages@[msg_index as int]);
                        assert(messages_view(messages@) =~= messages_view(ms0).update(
                            msg_index as int,
                            mv,
                        ));
                    }
                }
            },
            BoardAction::SetTypingUsers(u) => {
                typing_users = u;
            },
        }
        MessageBoard { messages, groups, typing_users }
    }
}

/// Toggling the same reaction twice on a board message that does not carry
/// it leaves the board as it was.
pub proof fn law_board_toggle_twice(b: BoardView, i: usize, emoji: String, user: String)
    requires
        i < b.messages.len(),
        first_match(b.messages[i as int].reactions, (emoji@, user@)) is None,
    ensures
        ({
            let a = BoardAction::AddReaction { msg_index: i, emoji, user };
            board_spec(board_spec(b, a), a) == b
        }),
{
    let a = BoardAction::AddReaction { msg_index: i, emoji, user };
    let rs = b.messages[i as int].reactions;
    let r = (emoji@, user@);
    let rs2 = rs.push(r);
    assert(rs2[rs.len() as int] == r);
    let c = choose|c: int| 0 <= c < rs2.len() && rs2[c] == r && forall|j: int| 0 <= j < c ==> rs2[j] != r;
    if c < rs.len() {
        assert(rs[c] == r);
    }
    assert(rs2.remove(rs.len() as int) =~= rs);
    assert(board_spec(board_spec(b, a), a).messages =~= b.messages);
}

proof fn lemma_first_match_exists<A>(s: Seq<A>, x: A, i: int)
    requires
        0 <= i < s.len(),
        s[i] == x,
    ensures
        exists|c: int| 0 <= c < s.len() && s[c] == x && forall|j: int| 0 <= j < c ==> s[j] != x,
    decreases i,
{
    if exists|j: int| 0 <= j < i && s[j] == x {
        let j = choose|j: int| 0 <= j < i && s[j] == x;
        lemma_first_match_exists(s, x, j);
    } else {
        assert(0 <= i < s.len() && s[i] == x && forall|j: int| 0 <= j < i ==> s[j] != x);
    }
}

/// Toggling a reaction that is absent appends it; toggling one that is
/// present removes its first occurrence and nothing else.
pub proof fn law_toggle_adds_or_removes(rs: Seq<(Seq<char>, Seq<char>)>, r: (Seq<char>, Seq<char>))
    ensures
        !rs.contains(r) ==> toggle(rs, r) == rs.push(r),
        rs.contains(r) ==> exists|p: int|
            0 <= p < rs.len() && rs[p] == r && (forall|j: int| 0 <= j < p ==> rs[j] != r)
                && #[trigger] toggle(rs, r) == rs.remove(p),
        rs.contains(r) ==> toggle(rs, r).len() + 1 == rs.len(),
{
    if rs.contains(r) {
        let i = choose|i: int| 0 <= i < rs.len() && rs[i] == r;
        assert(rs[i] == r);
        lemma_first_match_exists(rs, r, i);
        let p = first_match(rs, r)->0;
        assert(0 <= p < rs.len() && rs[p] == r && forall|j: int| 0 <= j < p ==> rs[j] != r);
    } else {
        assert forall|i: int| 0 <= i < rs.len() implies rs[i] != r by {
            if rs[i] == r {
                assert(rs.contains(r));
            }
        }
    }
}

/// Setting the group list replaces it with the given list, whatever it was,
/// and changes nothing else.
pub proof fn law_set_groups_replaces(s: ChatView, gs: Seq<Seq<char>>)
    ensures
        ({
            let t = reduce_spec(s, ActionView::SetGroups(gs));
            &&& t.groups == gs
            &&& t.current_group == s.current_group
            &&& t.group_messages == s.group_messages
            &&& t.typing_users == s.typing_users
            &&& t.online_users == s.online_users
        }),
{
}

/// Setting the typing users, or the online users, replaces that list with
/// the given one and changes nothing else.
pub proof fn law_set_users_replaces(
    s: ChatView,
    typing: Seq<Seq<char>>,
    online: Seq<(Seq<char>, Seq<char>)>,
)
    ensures
        ({
            let t = reduce_spec(s, ActionView::SetTypingUsers(typing));
            &&& t.typing_users == typing
            &&& t.groups == s.groups && t.current_group == s.current_group
            &&& t.group_messages == s.group_messages && t.online_users == s.online_users
        }),
        ({
            let t = reduce_spec(s, ActionView::SetOnlineUsers(online));
            &&& t.online_users == online
            &&& t.groups == s.groups && t.current_group == s.current_group
            &&& t.group_messages == s.group_messages && t.typing_users == s.typing_users
        }),
{
}

/// Adding a message appends it to the current group's messages (to none
/// when no group is current); adding one to a named group appends it to that
/// group's messages. No other group, and nothing else, changes.
pub proof fn law_add_message_appends(s: ChatView, g: Seq<char>, m: MessageView, other: Seq<char>)
    requires
        other != g,
    ensures
        s.current_group is None ==> reduce_spec(s, ActionView::AddMessage(m)) == s,
        s.current_group == Some(g) ==> ({
            let t = reduce_spec(s, ActionView::AddMessage(m));
            &&& t.group_messages.contains_key(g)
            &&& t.group_messages[g].messages == entry_of(s.group_messages, g).messages.push(m)
            &&& t.group_messages[g].messages.len() == entry_of(s.group_messages, g).messages.len()
                + 1
            &&& t.group_messages[g].online_users == entry_of(s.group_messages, g).online_users
            &&& t.group_messages.contains_key(other) == s.group_messages.contains_key(other)
            &&& t.group_messages[other] == s.group_messages[other]
            &&& t.groups == s.groups && t.current_group == s.current_group
            &&& t.typing_users == s.typing_users && t.online_users == s.online_users
        }),
        ({
            let t = reduce_spec(s, ActionView::AddMessageToGroup { group_name: g, message: m });
            &&& t.group_messages.contains_key(g)
            &&& t.group_messages[g].messages == entry_of(s.group_messages, g).messages.push(m)
            &&& t.group_messages.contains_key(other) == s.group_messages.contains_key(other)
            &&& t.group_messages[other] == s.group_messages[other]
            &&& t.groups == s.groups && t.current_group == s.current_group
            &&& t.typing_users == s.typing_users && t.online_users == s.online_users
        }),
{
}

/// Switching makes the group current, keeps every group's messages, and
/// gives a group seen for the first time an empty entry.
pub proof fn law_switch_group(s: ChatView, g: Seq<char>, other: Seq<char>)
    ensures
        ({
            let t = reduce_spec(s, ActionView::SwitchGroup { group_name: g });
            &&& t.current_group == Some(g)
            &&& t.group_messages.contains_key(g)
            &&& t.group_messages[g] == entry_of(s.group_messages, g)
            &&& other != g ==> t.group_messages.contains_key(other) == s.group_messages.contains_key(
                other,
            ) && t.group_messages[other] == s.group_messages[other]
            &&& t.groups == s.groups && t.typing_users == s.typing_users
            &&& t.online_users == s.online_users
        }),
{
}

/// Clearing empties the current group's messages and keeps its online users
/// and every other group.
pub proof fn law_clear_current(s: ChatView, g: Seq<char>, other: Seq<char>)
    requires
        s.current_group == Some(g),
        s.group_messages.contains_key(g),
        other != g,
    ensures
        ({
            let t = reduce_spec(s, ActionView::Clear);
            &&& t.group_messages[g].messages.len() == 0
            &&& t.group_messages[g].online_users == s.group_messages[g].online_users
            &&& t.group_messages.contains_key(other) == s.group_messages.contains_key(other)
            &&& t.group_messages[other] == s.group_messages[other]
            &&& t.groups == s.groups && t.current_group == s.current_group
        }),
{
}

/// A reaction changes only the reactions of the chosen message of the
/// current group; the messages keep their number and order.
pub proof fn law_reaction_changes_one_message(
    s: ChatView,
    g: Seq<char>,
    i: usize,
    emoji: Seq<char>,
    user: Seq<char>,
    k: int,
)
    requires
        s.current_group == Some(g),
        s.group_messages.contains_key(g),
        i < s.group_messages[g].messages.len(),
        0 <= k < s.group_messages[g].messages.len(),
    ensures
        ({
            let t = reduce_spec(s, ActionView::AddReaction { msg_index: i, emoji, user });
            let before = s.group_messages[g].messages;
            let after = t.group_messages[g].messages;
            &&& after.len() == before.len()
            &&& k != i ==> after[k] == before[k]
            &&& after[i as int].id == before[i as int].id
            &&& after[i as int].content == before[i as int].content
            &&& after[i as int].reactions == toggle(before[i as int].reactions, (emoji, user))
        }),
{
}

/// Setting a board's typing users or group list replaces that list with the
/// given one, whatever it held; adding a message appends it; clearing
/// empties the messages. Nothing else changes.
pub proof fn law_board_updates(b: BoardView, m: ChatMessage, gs: Vec<String>, u: Vec<String>)
    ensures
        ({
            let t = board_spec(b, BoardAction::SetTypingUsers(u));
            t.typing_users == texts(u@) && t.messages == b.messages && t.groups == b.groups
        }),
        ({
            let t = board_spec(b, BoardAction::SetGroups(gs));
            t.groups == texts(gs@) && t.messages == b.messages && t.typing_users == b.typing_users
        }),
        ({
            let t = board_spec(b, BoardAction::AddMessage(m));
            &&& t.messages.len() == b.messages.len() + 1
            &&& t.messages.last() == m@
            &&& t.messages.drop_last() == b.messages
            &&& t.groups == b.groups && t.typing_users == b.typing_users
        }),
        ({
            let t = board_spec(b, BoardAction::Clear);
            t.messages.len() == 0 && t.groups == b.groups && t.typing_users == b.typing_users
        }),
{
    assert(b.messages.push(m@).drop_last() =~= b.messages);
}

/// A reaction on the board changes only the reactions of the message at its
/// index, and none when the index is past the end.
pub proof fn law_board_reaction(b: BoardView, i: usize, emoji: String, user: String, k: int)
    requires
        0 <= k < b.messages.len(),
    ensures
        ({
            let t = board_spec(b, BoardAction::AddReaction { msg_index: i, emoji, user });
            &&& t.messages.len() == b.messages.len()
            &&& t.groups == b.groups && t.typing_users == b.typing_users
            &&& k != i ==> t.messages[k] == b.messages[k]
            &&& k == i ==> t.messages[k].id == b.messages[k].id && t.messages[k].reactions
                == toggle(b.messages[k].reactions, (emoji@, user@))
        }),
        i >= b.messages.len() ==> board_spec(
            b,
            BoardAction::AddReaction { msg_index: i, emoji, user },
        ) == b,
{
}

} // verus!
