use async_chat::chat::{ChatMessage, MessageContent};
use async_chat::ui::{ConnectionStatus, Theme};
use async_chat::view::{
    age_text, can_send, character_class, character_count_label, connection_class, day_label,
    display_name, group_by_day, indicator_class, input_disabled, input_placeholder,
    is_active_group, join_request, last_message_preview, member_count_label, member_label,
    join_group_request, message_side_class, outgoing_message, post_request, reaction_target,
    room_title, sender_shown, show_character_count, theme_icon, theme_toggle_title,
    unread_badge, user_initial, group_list_notice, message_list_notice, welcome_notice,
};
use async_chat::protocol::FromClient;

#[test]
fn header_labels() {
    assert_eq!(connection_class(&ConnectionStatus::Connected), "status-connected");
    assert_eq!(connection_class(&ConnectionStatus::Error("x".to_string())), "status-error");
    assert_eq!(indicator_class(&ConnectionStatus::Connecting), "indicator-connecting");
    assert_eq!(indicator_class(&ConnectionStatus::Disconnected), "indicator-disconnected");
    assert_eq!(theme_icon(Theme::Dark), "🌙");
    assert_eq!(theme_icon(Theme::Light), "☀️");
    assert_eq!(theme_toggle_title(Theme::Dark), "Switch to light theme");
    assert_eq!(theme_toggle_title(Theme::Light), "Switch to dark theme");
    assert_eq!(user_initial("alice"), "A");
    assert_eq!(user_initial(""), "U");
    assert_eq!(user_initial("ßeta"), "SS");
}

#[test]
fn room_labels() {
    assert_eq!(room_title("dogs"), "# dogs");
    assert_eq!(member_label(1), "1 member");
    assert_eq!(member_label(0), "0 members");
    assert_eq!(member_label(12), "12 members");
}

#[test]
fn input_decisions() {
    let none: Option<String> = None;
    let g = Some("dogs".to_string());
    assert!(input_disabled(false, &none));
    assert!(input_disabled(true, &g));
    assert!(!input_disabled(false, &g));
    assert_eq!(input_placeholder(&g), "Message #dogs");
    assert_eq!(input_placeholder(&none), "Select a group to start messaging...");
    assert_eq!(character_class(1800), "character-count warning");
    assert_eq!(character_class(1801), "character-count error");
    assert_eq!(character_class(1600), "character-count");
    assert_eq!(character_class(1601), "character-count warning");
    assert!(!show_character_count(1400));
    assert!(show_character_count(1401));
    assert_eq!(character_count_label(1401), "1401/2000");
    assert!(can_send(false, " hi "));
    assert!(!can_send(true, "hi"));
    assert!(!can_send(false, "   "));
    assert!(can_send(false, &"a".repeat(2000)));
    assert!(!can_send(false, &"a".repeat(2001)));
    assert!(!can_send(false, &"é".repeat(1001)));
    assert_eq!(outgoing_message("  hi  ", &g), Some(("dogs".to_string(), "hi".to_string())));
    assert_eq!(outgoing_message("hi", &none), None);
    assert_eq!(outgoing_message("  ", &g), None);
}

#[test]
fn sidebar_labels() {
    assert_eq!(join_request("  cats "), Some("cats".to_string()));
    assert_eq!(join_request("   "), None);
    assert!(is_active_group(&Some("a".to_string()), &"a".to_string()));
    assert!(!is_active_group(&Some("a".to_string()), &"b".to_string()));
    assert!(!is_active_group(&None, &"a".to_string()));
    assert_eq!(last_message_preview(&None), "No messages yet");
    assert_eq!(last_message_preview(&Some("short".to_string())), "short");
    let exact = "x".repeat(30);
    assert_eq!(last_message_preview(&Some(exact.clone())), exact);
    let long = "0123456789012345678901234567890123456789".to_string();
    assert_eq!(last_message_preview(&Some(long)), "012345678901234567890123456789...");
    assert_eq!(member_count_label(3), "👤 3");
}

#[test]
fn message_list_labels() {
    assert_eq!(age_text(0, "Jan 01".to_string()), "now");
    assert_eq!(age_text(-5, "Jan 01".to_string()), "now");
    assert_eq!(age_text(59, "Jan 01".to_string()), "now");
    assert_eq!(age_text(60, "Jan 01".to_string()), "1m ago");
    assert_eq!(age_text(3599, "Jan 01".to_string()), "59m ago");
    assert_eq!(age_text(7200, "Jan 01".to_string()), "2h ago");
    assert_eq!(age_text(86400 * 3 + 5, "Jan 01".to_string()), "3d ago");
    assert_eq!(age_text(86400 * 7, "Jan 01".to_string()), "Jan 01");
    let today = "2024-05-02".to_string();
    let yesterday = "2024-05-01".to_string();
    assert_eq!(day_label(&today, &today, &yesterday, "May 02, 2024".to_string()), "Today");
    assert_eq!(day_label(&yesterday, &today, &yesterday, "May 01, 2024".to_string()), "Yesterday");
    assert_eq!(
        day_label(&"2024-04-01".to_string(), &today, &yesterday, "April 01, 2024".to_string()),
        "April 01, 2024"
    );
    let days: Vec<String> =
        ["d1", "d1", "d2", "d1", "d1", "d1"].iter().map(|s| s.to_string()).collect();
    assert_eq!(
        group_by_day(&days),
        vec![("d1".to_string(), 2), ("d2".to_string(), 1), ("d1".to_string(), 3)]
    );
    assert_eq!(group_by_day(&Vec::new()), vec![]);
}

fn msg(id: &str) -> ChatMessage {
    ChatMessage {
        id: id.to_string(),
        author: "a".to_string(),
        content: MessageContent::Text("t".to_string()),
        is_self: false,
        is_error: false,
        timestamp: 0,
        reactions: Vec::new(),
        reply_to: None,
    }
}

#[test]
fn client_helpers() {
    assert_eq!(display_name("  bob "), "bob");
    assert_eq!(display_name("   "), "Me");
    let ms = vec![msg("a"), msg("b"), msg("b")];
    assert_eq!(reaction_target(&ms, &"b".to_string()), Some(1));
    assert_eq!(reaction_target(&ms, &"a".to_string()), Some(0));
    assert_eq!(reaction_target(&ms, &"z".to_string()), None);
    assert_eq!(reaction_target(&[], &"a".to_string()), None);
}

#[test]
fn message_list_helpers() {
    assert_eq!(message_side_class(true), "message-own");
    assert_eq!(message_side_class(false), "message-other");
    assert!(sender_shown(false));
    assert!(!sender_shown(true));
}

#[test]
fn sidebar_unread_badge() {
    assert_eq!(unread_badge(0), None);
    assert_eq!(unread_badge(3), Some("3".to_string()));
    assert_eq!(unread_badge(120), Some("120".to_string()));
}

#[test]
fn send_and_join_guards() {
    match post_request("hi there", "  rust ") {
        Some(FromClient::Post { group_name, message }) => {
            assert_eq!(group_name.as_str(), "rust");
            assert_eq!(message.as_str(), "hi there");
        }
        _ => panic!("expected a post"),
    }
    assert!(post_request("", "rust").is_none());
    assert!(post_request("hi", "   ").is_none());
    match join_group_request(" general ") {
        Some(FromClient::Join { group_name, password }) => {
            assert_eq!(group_name.as_str(), "general");
            assert!(password.is_none());
        }
        _ => panic!("expected a join"),
    }
    assert!(join_group_request("  ").is_none());
}

#[test]
fn empty_state_notices() {
    let m = message_list_notice(0).unwrap();
    assert_eq!(m.icon, "💬");
    assert_eq!(m.title, Some("No messages yet"));
    assert_eq!(m.text, "Start a conversation by sending a message to a group!");
    assert!(message_list_notice(2).is_none());
    let g = group_list_notice(0).unwrap();
    assert_eq!(g.icon, "📭");
    assert!(g.title.is_none());
    assert_eq!(g.text, "No groups yet. Join or create one above!");
    assert!(group_list_notice(1).is_none());
    let w = welcome_notice(&None).unwrap();
    assert_eq!(w.title, Some("Welcome to Async Chat!"));
    assert!(w.text.starts_with("Select a group from the sidebar"));
    assert!(welcome_notice(&Some("dogs".to_string())).is_none());
}

#[test]
fn layout_style_choices() {
    let d = async_chat::view::style_choices(true, true, false);
    assert_eq!(d.background, "#1a1a1a");
    assert_eq!(d.text, "#e0e0e0");
    assert_eq!(d.sidebar_background, "#2d2d2d");
    assert_eq!(d.footer_background, "#2d2d2d");
    assert_eq!(d.columns, "300px 1fr 0px");
    let l = async_chat::view::style_choices(false, false, true);
    assert_eq!(l.background, "white");
    assert_eq!(l.border, "#e1e4e8");
    assert_eq!(l.hover_background, "#edf2f7");
    assert_eq!(l.footer_background, "#e3f2fd");
    assert_eq!(l.columns, "0 1fr 350px");
}
