use async_chat::protocol::{FromClient, FromServer};
use async_chat::ui::{
    AppState, ChatGroup, ChatMessage, ConnectionStatus, EnhancedFromClient, EnhancedFromServer,
    Theme,
};
use std::sync::Arc;

#[test]
fn connection_status() {
    assert!(ConnectionStatus::Connected.is_connected());
    assert!(!ConnectionStatus::Connecting.is_connected());
    assert!(!ConnectionStatus::Error("x".to_string()).is_connected());
    assert_eq!(ConnectionStatus::Connecting.to_string(), "Connecting...");
    assert_eq!(ConnectionStatus::Connected.to_string(), "Connected");
    assert_eq!(ConnectionStatus::Disconnected.to_string(), "Disconnected");
    assert_eq!(ConnectionStatus::Error("boom".to_string()).to_string(), "Error: boom");
}

#[test]
fn theme_toggle() {
    assert_eq!(Theme::Light.toggle(), Theme::Dark);
    assert_eq!(Theme::Dark.toggle(), Theme::Light);
    assert_eq!(Theme::Dark.toggle().toggle(), Theme::Dark);
}

#[test]
fn chat_group_counters() {
    let mut g = ChatGroup::new("dogs".to_string());
    assert_eq!(g.member_count, 1);
    assert_eq!(g.unread_count, 0);
    assert!(g.last_message.is_none());
    g.increment_unread();
    g.increment_unread();
    assert_eq!(g.unread_count, 2);
    g.update_activity("hello");
    assert_eq!(g.last_message.as_deref(), Some("hello"));
    g.clear_unread();
    assert_eq!(g.unread_count, 0);
}

#[test]
fn chat_messages() {
    let m = ChatMessage::new("g".to_string(), "hi".to_string(), "me".to_string(), true);
    assert_eq!(m.id.len(), 36);
    assert!(m.is_own);
    assert_eq!(&m.id[14..15], "4");
    assert!("89ab".contains(&m.id[19..20]));
    let a = ChatMessage::from_server_message(
        "g".to_string(),
        "yo".to_string(),
        "bob".to_string(),
        "bob".to_string(),
    );
    assert!(a.is_own);
    let b = ChatMessage::from_server_message(
        "g".to_string(),
        "yo".to_string(),
        "bob".to_string(),
        "alice".to_string(),
    );
    assert!(!b.is_own);
    assert_ne!(a.id, b.id);
}

#[test]
fn app_state_default() {
    let a = AppState::default();
    assert!(a.current_user.starts_with("User_"));
    assert_eq!(a.current_user.len(), 13);
    assert!(a.current_user[5..].chars().all(|c| c.is_ascii_digit() || ('A'..='F').contains(&c)));
    assert!(a.current_group.is_none());
    assert_eq!(a.connection_status, ConnectionStatus::Disconnected);
    assert!(a.groups.is_empty() && a.messages.is_empty());
    assert_eq!(a.theme, Theme::Dark);
}

#[test]
fn enhanced_requests() {
    let join: FromClient = EnhancedFromClient::Join {
        group_name: "g".to_string(),
        user_id: "1".to_string(),
        username: "u".to_string(),
    }
    .into();
    assert_eq!(join, FromClient::Join { group_name: Arc::new("g".to_string()), password: None });
    let post: FromClient = EnhancedFromClient::Post {
        group_name: "g".to_string(),
        message: "m".to_string(),
        user_id: "1".to_string(),
        username: "u".to_string(),
    }
    .into();
    assert_eq!(
        post,
        FromClient::Post { group_name: Arc::new("g".to_string()), message: Arc::new("m".to_string()) }
    );
    let other: FromClient = EnhancedFromClient::GetGroups.into();
    assert_eq!(other, FromClient::Join { group_name: Arc::new("unknown".to_string()), password: None });
}

#[test]
fn enhanced_from_server() {
    let m: EnhancedFromServer = FromServer::Message {
        group_name: Arc::new("dogs".to_string()),
        message: Arc::new("woof".to_string()),
    }
    .into();
    match m {
        EnhancedFromServer::Message { group_name, message, sender, message_id, .. } => {
            assert_eq!(group_name, "dogs");
            assert_eq!(message, "woof");
            assert_eq!(sender, "Unknown");
            assert_eq!(message_id.len(), 36);
            assert_eq!(&message_id[14..15], "4");
        }
        _ => panic!("expected a message"),
    }
    match EnhancedFromServer::from(FromServer::Error("bad".to_string())) {
        EnhancedFromServer::Error(e) => assert_eq!(e, "bad"),
        _ => panic!("expected an error"),
    }
    let list = FromServer::GroupList {
        groups: vec![Arc::new("a".to_string()), Arc::new("b".to_string())],
    };
    match EnhancedFromServer::from(list) {
        EnhancedFromServer::GroupsList(gs) => {
            assert_eq!(gs.len(), 2);
            assert_eq!(gs[0].name, "a");
            assert_eq!(gs[1].name, "b");
            assert_eq!(gs[1].member_count, 1);
            assert_eq!(gs[1].unread_count, 0);
        }
        _ => panic!("expected a group list"),
    }
    match EnhancedFromServer::from(FromServer::GroupCreated {
        group_name: Arc::new("c".to_string()),
    }) {
        EnhancedFromServer::GroupUpdate { group_name, member_count } => {
            assert_eq!(group_name, "c");
            assert_eq!(member_count, 1);
        }
        _ => panic!("expected a group update"),
    }
}
