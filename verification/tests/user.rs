use async_chat::user::{UserError, UserManager};
use std::sync::Arc;

fn s(x: &str) -> Arc<String> {
    Arc::new(x.to_string())
}

fn is_uuid(id: &str) -> bool {
    id.len() == 36
        && id.char_indices().all(|(i, c)| {
            if [8, 13, 18, 23].contains(&i) {
                c == '-'
            } else {
                c.is_ascii_hexdigit() && !c.is_ascii_uppercase()
            }
        })
        && id.as_bytes()[14] == b'4'
        && matches!(id.as_bytes()[19], b'8' | b'9' | b'a' | b'b')
}

#[test]
fn register_login_logout() {
    let mut m = UserManager::new();
    let alice = m.register(s("alice")).unwrap();
    assert_eq!(alice.username.as_str(), "alice");
    assert!(is_uuid(&alice.id));
    assert_eq!(m.register(s("alice")), Err(UserError::UsernameTaken));
    assert!(!m.is_active(&s("alice")));
    let logged = m.login(s("alice")).unwrap();
    assert_eq!(logged, alice);
    assert!(m.is_active(&s("alice")));
    assert_eq!(m.logout(s("alice")), Ok(()));
    assert!(!m.is_active(&s("alice")));
    assert_eq!(m.logout(s("alice")), Err(UserError::UserNotFound));
}

#[test]
fn login_unknown_user() {
    let mut m = UserManager::new();
    assert_eq!(m.login(s("bob")), Err(UserError::UserNotFound));
    assert!(!m.is_active(&s("bob")));
}

#[test]
fn ids_differ() {
    let mut m = UserManager::new();
    let a = m.register(s("a")).unwrap();
    let b = m.register(s("b")).unwrap();
    assert_ne!(a.id, b.id);
    m.login(s("a")).unwrap();
    m.login(s("a")).unwrap();
    assert_eq!(m.logout(s("a")), Ok(()));
    assert!(!m.is_active(&s("a")));
}

#[test]
fn error_messages() {
    assert_eq!(UserError::UsernameTaken.message(), "Username already exists");
    assert_eq!(UserError::UserNotFound.message(), "User not found");
}
