use async_chat::client::{interpret_line, render_reply, LineAction, OutputLine};
use async_chat::command::parse_command;
use async_chat::protocol::{FromClient, FromServer};
use std::sync::Arc;

#[test]
fn test_parse_join_command() {
    let result = parse_command("/join general");
    assert!(result.is_ok());
    match result.unwrap() {
        FromClient::Join { group_name, password } => {
            assert_eq!(*group_name, "general".to_string());
            assert!(password.is_none());
        }
        _ => panic!("Expected Join command"),
    }
}

#[test]
fn test_parse_join_with_password() {
    let result = parse_command("/join secure secret123");
    assert!(result.is_ok());
    match result.unwrap() {
        FromClient::Join { group_name, password } => {
            assert_eq!(*group_name, "secure".to_string());
            assert_eq!(password.as_ref().map(|p| p.as_str()), Some("secret123"));
        }
        _ => panic!("Expected Join command"),
    }
}

#[test]
fn test_parse_create_command() {
    let result = parse_command("/create newgroup");
    assert!(result.is_ok());
    match result.unwrap() {
        FromClient::CreateGroup { group_name, password } => {
            assert_eq!(*group_name, "newgroup".to_string());
            assert!(password.is_none());
        }
        _ => panic!("Expected CreateGroup command"),
    }
}

#[test]
fn test_parse_create_with_password() {
    let result = parse_command("/create mygroup super secret");
    assert!(result.is_ok());
    match result.unwrap() {
        FromClient::CreateGroup { group_name, password } => {
            assert_eq!(*group_name, "mygroup".to_string());
            assert_eq!(password.as_ref().map(|p| p.as_str()), Some("super secret"));
        }
        _ => panic!("Expected CreateGroup command"),
    }
}

#[test]
fn test_parse_list_command() {
    let result = parse_command("/list");
    assert!(result.is_ok());
    match result.unwrap() {
        FromClient::ListGroups => {}
        _ => panic!("Expected ListGroups command"),
    }
}

#[test]
fn test_parse_post_command() {
    let result = parse_command("/post general Hello world!");
    assert!(result.is_ok());
    match result.unwrap() {
        FromClient::Post { group_name, message } => {
            assert_eq!(*group_name, "general".to_string());
            assert_eq!(*message, "Hello world!".to_string());
        }
        _ => panic!("Expected Post command"),
    }
}

#[test]
fn test_parse_invalid_command() {
    let result = parse_command("/invalid");
    assert!(result.is_err());
    assert!(result.unwrap_err().contains("Unknown command"));
}

#[test]
fn test_parse_join_without_group() {
    let result = parse_command("/join");
    assert!(result.is_err());
    assert_eq!(result.unwrap_err(), "Usage: /join <group_name> [password]");
}

#[test]
fn test_parse_post_without_message() {
    let result = parse_command("/post general");
    assert!(result.is_err());
    assert_eq!(result.unwrap_err(), "Usage: /post <group_name> <message>");
}

#[test]
fn test_parse_post_without_group() {
    let result = parse_command("/post");
    assert!(result.is_err());
    assert_eq!(result.unwrap_err(), "Usage: /post <group_name> <message>");
}

#[test]
fn test_parse_create_without_group() {
    let result = parse_command("/create");
    assert!(result.is_err());
    assert_eq!(result.unwrap_err(), "Usage: /create <group_name> [password]");
}

#[test]
fn parse_empty_input() {
    assert_eq!(parse_command("").unwrap_err(), "Empty command");
    assert_eq!(parse_command(" \t \n").unwrap_err(), "Empty command");
}

#[test]
fn parse_unknown_command_quotes_input() {
    assert_eq!(
        parse_command("/frobnicate now").unwrap_err(),
        "Unknown command: '/frobnicate now'. Type /help for available commands."
    );
}

#[test]
fn parse_list_with_extra_words_is_unknown() {
    assert_eq!(
        parse_command("/list all").unwrap_err(),
        "Unknown command: '/list all'. Type /help for available commands."
    );
}

#[test]
fn parse_collapses_whitespace_between_words() {
    match parse_command("  /post\tdogs   good \u{3000} boy  ").unwrap() {
        FromClient::Post { group_name, message } => {
            assert_eq!(group_name.as_str(), "dogs");
            assert_eq!(message.as_str(), "good boy");
        }
        other => panic!("unexpected {:?}", other),
    }
}

#[test]
fn parse_join_multiword_password() {
    assert_eq!(
        parse_command("/join vault open   sesame").unwrap(),
        FromClient::Join {
            group_name: Arc::new("vault".to_string()),
            password: Some(Arc::new("open sesame".to_string())),
        }
    );
}

#[test]
fn line_actions() {
    assert!(matches!(interpret_line("   "), LineAction::Ignore));
    assert!(matches!(interpret_line(" /quit "), LineAction::Quit));
    assert!(matches!(interpret_line("/help"), LineAction::ShowHelp));
    match interpret_line("  /post g hi  ") {
        LineAction::Send(FromClient::Post { group_name, message }) => {
            assert_eq!(group_name.as_str(), "g");
            assert_eq!(message.as_str(), "hi");
        }
        _ => panic!("expected a post"),
    }
    match interpret_line("  /nope  ") {
        LineAction::Complain(e) => {
            assert_eq!(e, "Unknown command: '/nope'. Type /help for available commands.")
        }
        _ => panic!("expected a complaint"),
    }
}

fn out(to_stderr: bool, text: &str) -> OutputLine {
    OutputLine { to_stderr, text: text.to_string() }
}

#[test]
fn render_replies() {
    assert_eq!(
        render_reply(&FromServer::GroupCreated { group_name: Arc::new("Dogs".to_string()) }),
        vec![out(false, "Group 'Dogs' created successfully")]
    );
    assert_eq!(
        render_reply(&FromServer::GroupList { groups: vec![] }),
        vec![out(false, "No groups available.")]
    );
    assert_eq!(
        render_reply(&FromServer::GroupList {
            groups: vec![Arc::new("Dogs".to_string()), Arc::new("Cats".to_string())]
        }),
        vec![out(false, "Available groups:"), out(false, "  - Dogs"), out(false, "  - Cats")]
    );
    assert_eq!(
        render_reply(&FromServer::Message {
            group_name: Arc::new("Dogs".to_string()),
            message: Arc::new("Samoyeds rock!".to_string())
        }),
        vec![out(false, "[Dogs]: Samoyeds rock!")]
    );
    assert_eq!(
        render_reply(&FromServer::Error("Something went wrong".to_string())),
        vec![out(true, "Error from server: Something went wrong")]
    );
}
