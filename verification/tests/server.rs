use async_chat::group::{
    BroadcastPacket, Group, SubscriberAction, SubscriberEvent, subscriber_step,
};
use async_chat::group_table::{CreateResult, GroupTable};
use async_chat::protocol::{FromClient, FromServer};
use async_chat::server::{handle_request, is_blank, ServeAction};
use std::sync::Arc;

fn s(x: &str) -> Arc<String> {
    Arc::new(x.to_string())
}

fn names(t: &GroupTable) -> Vec<String> {
    t.list_groups().iter().map(|n| n.to_string()).collect()
}

#[test]
fn create_get_list() {
    let mut t = GroupTable::new();
    assert!(t.get(&"Dogs".to_string()).is_none());
    assert_eq!(t.create(s("Dogs"), None), CreateResult::Success);
    assert_eq!(t.create(s("Cats"), Some(s("meow"))), CreateResult::Success);
    assert_eq!(t.create(s("Dogs"), Some(s("other"))), CreateResult::AlreadyExists);
    assert_eq!(names(&t), vec!["Dogs", "Cats"]);
    let cats = t.get(&"Cats".to_string()).unwrap();
    assert_eq!(cats.name(), "Cats");
    assert_eq!(cats.password().map(|p| p.as_str()), Some("meow"));
    assert!(t.get(&"Dogs".to_string()).unwrap().password().is_none());
    assert!(t.contains(&"Dogs".to_string()));
    assert!(!t.contains(&"Birds".to_string()));
}

#[test]
fn get_or_create_is_idempotent() {
    let mut t = GroupTable::default();
    assert_eq!(t.get_or_create(s("general")).name(), "general");
    assert_eq!(t.get_or_create(s("general")).name(), "general");
    assert_eq!(names(&t), vec!["general"]);
    assert_eq!(t.create(s("general"), None), CreateResult::AlreadyExists);
}

#[test]
fn table_after_a_history_of_calls() {
    let mut t = GroupTable::new();
    assert!(names(&t).is_empty());
    assert_eq!(t.create(s("rust"), Some(s("crab"))), CreateResult::Success);
    assert_eq!(t.get_or_create(s("rust")).password().map(|p| p.as_str()), Some("crab"));
    assert_eq!(t.get_or_create(s("go")).name(), "go");
    assert_eq!(t.create(s("go"), Some(s("gopher"))), CreateResult::AlreadyExists);
    assert_eq!(t.get_or_create(s("rust")).password().map(|p| p.as_str()), Some("crab"));
    assert!(t.get(&"go".to_string()).unwrap().password().is_none());
    assert!(t.get(&"zig".to_string()).is_none());
    assert_eq!(names(&t), vec!["rust", "go"]);
}

#[test]
fn group_broadcasts_to_subscribers() {
    let mut g = Group::new(s("Dogs"), None);
    let mut rx = g.join();
    g.post(s("woof"));
    match rx.try_recv() {
        Ok(BroadcastPacket::Message { message }) => assert_eq!(message.as_str(), "woof"),
        other => panic!("unexpected {:?}", other),
    }
    assert!(rx.try_recv().is_err());
}

#[test]
fn serve_create_list_join_post() {
    let mut t = GroupTable::new();
    match handle_request(&mut t, FromClient::CreateGroup { group_name: s("Dogs"), password: None }) {
        ServeAction::Reply(FromServer::GroupCreated { group_name }) => {
            assert_eq!(group_name.as_str(), "Dogs")
        }
        _ => panic!("expected GroupCreated"),
    }
    match handle_request(&mut t, FromClient::CreateGroup { group_name: s("Dogs"), password: None }) {
        ServeAction::Reply(FromServer::Error(e)) => assert_eq!(e, "Group 'Dogs' already exists"),
        _ => panic!("expected an error"),
    }
    match handle_request(&mut t, FromClient::ListGroups) {
        ServeAction::Reply(FromServer::GroupList { groups }) => {
            assert_eq!(groups, vec![s("Dogs")])
        }
        _ => panic!("expected a list"),
    }
    let mut rx = match handle_request(&mut t, FromClient::Join { group_name: s("Dogs"), password: None }) {
        ServeAction::Subscribe { group_name, receiver } => {
            assert_eq!(group_name.as_str(), "Dogs");
            receiver
        }
        _ => panic!("expected a subscription"),
    };
    assert!(matches!(
        handle_request(&mut t, FromClient::Post { group_name: s("Dogs"), message: s("hi") }),
        ServeAction::Done
    ));
    match rx.try_recv() {
        Ok(BroadcastPacket::Message { message }) => assert_eq!(message.as_str(), "hi"),
        other => panic!("unexpected {:?}", other),
    }
    match handle_request(&mut t, FromClient::Post { group_name: s("Cats"), message: s("hi") }) {
        ServeAction::Reply(FromServer::Error(e)) => assert_eq!(e, "Group 'Cats' does not exist"),
        _ => panic!("expected an error"),
    }
    // joining an unknown group creates it
    assert!(matches!(
        handle_request(&mut t, FromClient::Join { group_name: s("Birds"), password: Some(s("x")) }),
        ServeAction::Subscribe { .. }
    ));
    assert_eq!(names(&t), vec!["Dogs", "Birds"]);
    assert!(t.get(&"Birds".to_string()).unwrap().password().is_none());
}

#[test]
fn blank_frames() {
    assert!(is_blank(""));
    assert!(is_blank(" \n\t"));
    assert!(!is_blank(" {} "));
}

#[test]
fn subscriber_steps() {
    let name = "Dogs".to_string();
    match subscriber_step(&name, SubscriberEvent::Packet(BroadcastPacket::Message { message: s("hi") })) {
        SubscriberAction::Deliver(m) => assert_eq!(
            m,
            FromServer::Message { group_name: s("Dogs"), message: s("hi") }
        ),
        SubscriberAction::Stop => panic!("expected delivery"),
    }
    match subscriber_step(&name, SubscriberEvent::Lagged(42)) {
        SubscriberAction::Deliver(m) => assert_eq!(
            m,
            FromServer::Error("You were lagging behind and missed 42 messages".to_string())
        ),
        SubscriberAction::Stop => panic!("expected delivery"),
    }
    assert!(matches!(subscriber_step(&name, SubscriberEvent::Closed), SubscriberAction::Stop));
}

#[test]
fn broadcast_reaches_every_subscriber() {
    let mut t = GroupTable::new();
    let mut receivers = Vec::new();
    for _ in 0..2 {
        match handle_request(&mut t, FromClient::Join { group_name: s("Dogs"), password: None }) {
            ServeAction::Subscribe { receiver, .. } => receivers.push(receiver),
            _ => panic!("expected a subscription"),
        }
    }
    handle_request(&mut t, FromClient::Post { group_name: s("Dogs"), message: s("woof") });
    let mut late = t.get(&"Dogs".to_string()).unwrap().join();
    for rx in receivers.iter_mut() {
        match rx.try_recv() {
            Ok(BroadcastPacket::Message { message }) => assert_eq!(message.as_str(), "woof"),
            other => panic!("unexpected {:?}", other),
        }
    }
    // a subscriber sees only what is posted after it joined
    assert!(late.try_recv().is_err());
}

#[test]
fn post_to_existing_and_missing_groups() {
    let mut t = GroupTable::new();
    assert!(!t.post_to(&"Dogs".to_string(), s("lost")));
    t.create(s("Dogs"), None);
    // with no subscriber the message is dropped without error
    assert!(t.post_to(&"Dogs".to_string(), s("nobody hears")));
    let mut rx = t.get(&"Dogs".to_string()).unwrap().join();
    assert!(t.post_to(&"Dogs".to_string(), s("first")));
    assert!(t.post_to(&"Dogs".to_string(), s("second")));
    for want in ["first", "second"] {
        match rx.try_recv() {
            Ok(BroadcastPacket::Message { message }) => assert_eq!(message.as_str(), want),
            other => panic!("unexpected {:?}", other),
        }
    }
    assert!(rx.try_recv().is_err());
    assert_eq!(names(&t), vec!["Dogs"]);
}
