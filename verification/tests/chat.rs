use async_chat::chat::{BoardAction, ChatAction, ChatMessage, ChatState, MessageBoard, MessageContent, OnlineUser};

fn msg(id: &str, text: &str) -> ChatMessage {
    ChatMessage {
        id: id.to_string(),
        author: "alice".to_string(),
        content: MessageContent::Text(text.to_string()),
        is_self: false,
        is_error: false,
        timestamp: 0,
        reactions: Vec::new(),
        reply_to: None,
    }
}

fn ids(s: &ChatState) -> Vec<String> {
    s.current_messages().iter().map(|m| m.id.clone()).collect()
}

#[test]
fn messages_need_a_current_group() {
    let s = ChatState::default();
    let s = s.reduce(ChatAction::AddMessage(msg("1", "lost")));
    assert!(s.current_messages().is_empty());
    let s = s.reduce(ChatAction::SwitchGroup { group_name: "dogs".to_string() });
    assert!(s.current_messages().is_empty());
    let s = s.reduce(ChatAction::AddMessage(msg("2", "woof")));
    let s = s.reduce(ChatAction::AddMessage(msg("3", "bark")));
    assert_eq!(ids(&s), vec!["2", "3"]);
}

#[test]
fn messages_stay_with_their_group() {
    let s = ChatState::new()
        .reduce(ChatAction::SwitchGroup { group_name: "dogs".to_string() })
        .reduce(ChatAction::AddMessage(msg("1", "woof")))
        .reduce(ChatAction::AddMessageToGroup { group_name: "cats".to_string(), message: msg("2", "meow") })
        .reduce(ChatAction::SwitchGroup { group_name: "cats".to_string() });
    assert_eq!(ids(&s), vec!["2"]);
    let s = s.reduce(ChatAction::Clear);
    assert!(s.current_messages().is_empty());
    let s = s.reduce(ChatAction::SwitchGroup { group_name: "dogs".to_string() });
    assert_eq!(ids(&s), vec!["1"]);
}

#[test]
fn reactions_toggle() {
    let s = ChatState::new()
        .reduce(ChatAction::SwitchGroup { group_name: "g".to_string() })
        .reduce(ChatAction::AddMessage(msg("1", "hi")));
    let react = || ChatAction::AddReaction {
        msg_index: 0,
        emoji: "👍".to_string(),
        user: "bob".to_string(),
    };
    let s = s.reduce(react());
    assert_eq!(s.current_messages()[0].reactions, vec![("👍".to_string(), "bob".to_string())]);
    let s = s.reduce(react());
    assert!(s.current_messages()[0].reactions.is_empty());
    // an index past the end changes nothing
    let s = s.reduce(ChatAction::AddReaction {
        msg_index: 5,
        emoji: "👍".to_string(),
        user: "bob".to_string(),
    });
    assert_eq!(ids(&s), vec!["1"]);
    assert!(s.current_messages()[0].reactions.is_empty());
}

#[test]
fn lists_and_presence() {
    let s = ChatState::new()
        .reduce(ChatAction::SetGroups(vec!["a".to_string(), "b".to_string()]))
        .reduce(ChatAction::SetTypingUsers(vec!["bob".to_string()]))
        .reduce(ChatAction::SetOnlineUsers(vec![OnlineUser {
            username: "bob".to_string(),
            status: "Online".to_string(),
        }]))
        .reduce(ChatAction::UpdateUserPresence { username: "bob".to_string(), status: "Away".to_string() })
        .reduce(ChatAction::UpdateUserPresence {
            username: "eve".to_string(),
            status: "Online".to_string(),
        });
    assert_eq!(s.groups(), &vec!["a".to_string(), "b".to_string()]);
    assert_eq!(s.typing_users(), &vec!["bob".to_string()]);
    let online: Vec<(String, String)> =
        s.online_users().iter().map(|u| (u.username.clone(), u.status.clone())).collect();
    assert_eq!(
        online,
        vec![("bob".to_string(), "Away".to_string()), ("eve".to_string(), "Online".to_string())]
    );
    assert!(s.current_group().is_none());
}

#[test]
fn message_board_reducer() {
    let m = |id: &str| ChatMessage {
        id: id.to_string(),
        author: "a".to_string(),
        content: MessageContent::Text("t".to_string()),
        is_self: false,
        is_error: false,
        timestamp: 0,
        reactions: Vec::new(),
        reply_to: None,
    };
    let b = MessageBoard::new();
    let b = b.reduce(BoardAction::AddMessage(m("1")));
    let b = b.reduce(BoardAction::AddMessage(m("2")));
    let b = b.reduce(BoardAction::AddReaction { msg_index: 1, emoji: "👍".to_string(), user: "bob".to_string() });
    assert_eq!(b.messages[1].reactions, vec![("👍".to_string(), "bob".to_string())]);
    assert!(b.messages[0].reactions.is_empty());
    let b = b.reduce(BoardAction::AddReaction { msg_index: 5, emoji: "x".to_string(), user: "y".to_string() });
    assert_eq!(b.messages.len(), 2);
    let b = b.reduce(BoardAction::AddReaction { msg_index: 1, emoji: "👍".to_string(), user: "bob".to_string() });
    assert!(b.messages[1].reactions.is_empty());
    let b = b.reduce(BoardAction::SetGroups(vec!["g".to_string()]));
    let b = b.reduce(BoardAction::SetTypingUsers(vec!["bob".to_string()]));
    assert_eq!(b.groups, vec!["g"]);
    assert_eq!(b.typing_users, vec!["bob"]);
    let b = b.reduce(BoardAction::Clear);
    assert!(b.messages.is_empty());
    assert_eq!(b.groups, vec!["g"]);
}
