use stream_portal::session::{
    check_auth_status, logout, set_auth_session, AuthSession, AuthState, CookieJar,
};

#[test]
fn test_auth_state_new_creates_empty_session() {
    let auth_state = AuthState::new();

    let session = &auth_state.session;
    assert!(session.is_none());
}

#[test]
fn test_auth_session_default_values() {
    let session = AuthSession { cookies: CookieJar::new(), user_id: None, expires_at: 0 };

    assert!(session.cookies.is_empty());
    assert!(session.user_id.is_none());
    assert_eq!(session.expires_at, 0);
}

#[test]
fn test_auth_session_with_values() {
    let cookies = CookieJar::from_pairs(vec![
        ("session_id".to_string(), "abc123".to_string()),
        ("auth_token".to_string(), "xyz789".to_string()),
    ]);

    let session = AuthSession {
        cookies: cookies.clone(),
        user_id: Some("user123".to_string()),
        expires_at: 1234567890,
    };

    assert_eq!(session.cookies.len(), 2);
    assert_eq!(session.cookies.get("session_id"), Some(&"abc123".to_string()));
    assert_eq!(session.user_id, Some("user123".to_string()));
    assert_eq!(session.expires_at, 1234567890);
}

#[test]
fn new_store_has_no_login_surface() {
    let auth_state = AuthState::new();
    assert!(auth_state.auth_webview_label.is_none());
    assert!(auth_state.get().is_none());
    assert!(auth_state.get_login_surface().is_none());
}

#[test]
fn set_replaces_the_session_and_clear_removes_it() {
    let mut state = AuthState::new();
    state.set_login_surface(Some("test_webview".to_string()));
    set_auth_session(
        AuthSession {
            cookies: CookieJar::from_pairs(vec![("session_id".to_string(), "abc123".to_string())]),
            user_id: Some("user123".to_string()),
            expires_at: 1234567890,
        },
        &mut state,
    );
    let seen = check_auth_status(&state).unwrap();
    assert_eq!(seen.user_id, Some("user123".to_string()));
    assert_eq!(seen.cookies.get("session_id"), Some(&"abc123".to_string()));

    set_auth_session(
        AuthSession { cookies: CookieJar::new(), user_id: None, expires_at: 7 },
        &mut state,
    );
    let seen = check_auth_status(&state).unwrap();
    assert_eq!(seen.user_id, None);
    assert_eq!(seen.expires_at, 7);
    assert!(seen.cookies.is_empty());
    assert_eq!(state.get_login_surface(), Some("test_webview".to_string()));

    logout(&mut state);
    assert!(check_auth_status(&state).is_none());
    assert_eq!(state.auth_webview_label, Some("test_webview".to_string()));
}

#[test]
fn reading_the_session_leaves_the_store_as_it_is() {
    let mut state = AuthState::new();
    state.set(AuthSession { cookies: CookieJar::new(), user_id: None, expires_at: 42 });
    let first = state.get().unwrap();
    let second = state.get().unwrap();
    assert_eq!(first.expires_at, 42);
    assert_eq!(second.expires_at, 42);
    state.clear();
    assert!(state.get().is_none());
    assert_eq!(first.expires_at, 42);
}

#[test]
fn jar_keeps_one_value_for_each_name() {
    let mut jar = CookieJar::new();
    jar.insert("a".to_string(), "1".to_string());
    jar.insert("b".to_string(), "2".to_string());
    jar.insert("a".to_string(), "3".to_string());
    assert_eq!(jar.len(), 2);
    assert_eq!(jar.get("a"), Some(&"3".to_string()));
    assert_eq!(jar.get("b"), Some(&"2".to_string()));
    assert_eq!(jar.get("c"), None);
    assert_eq!(jar.header(), "a=3; b=2");
}

#[test]
fn jar_from_pairs_lets_the_later_pair_win() {
    let jar = CookieJar::from_pairs(vec![
        ("k".to_string(), "old".to_string()),
        ("other".to_string(), "x".to_string()),
        ("k".to_string(), "new".to_string()),
    ]);
    assert_eq!(jar.len(), 2);
    assert_eq!(jar.get("k"), Some(&"new".to_string()));
    assert_eq!(jar.header(), "k=new; other=x");
}

#[test]
fn header_of_empty_and_single_jar() {
    assert_eq!(CookieJar::new().header(), "");
    let jar = CookieJar::from_pairs(vec![("sid".to_string(), "v".to_string())]);
    assert_eq!(jar.header(), "sid=v");
    assert_eq!(jar.clone().header(), "sid=v");
}

#[test]
fn jar_survives_its_pairs() {
    let jar = CookieJar::from_pairs(vec![
        ("b".to_string(), "2".to_string()),
        ("a".to_string(), "1".to_string()),
    ]);
    let pairs = jar.to_pairs();
    assert_eq!(pairs, vec![("b".to_string(), "2".to_string()), ("a".to_string(), "1".to_string())]);
    let again = CookieJar::from_pairs(pairs);
    assert_eq!(again.to_pairs(), jar.to_pairs());
    assert_eq!(again.header(), "b=2; a=1");
}
