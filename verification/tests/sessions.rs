use nomercy::flaky_sessions::{session_id, session_number, State};

#[test]
fn create_marks_session_active() {
    let mut state = State::new();
    let session_id = state.create("alice".to_string());

    assert!(state.validate(&session_id));
    assert_eq!(session_id, "s0");
}

#[test]
fn revoke_disables_session() {
    let mut state = State::new();
    let session_id = state.create("alice".to_string());

    state.revoke(&session_id);

    assert!(!state.validate(&session_id));
}

#[test]
fn validation_isolated_per_session() {
    let mut state = State::new();
    let first = state.create("alice".to_string());
    let second = state.create("bob".to_string());

    state.revoke(&first);

    assert!(!state.validate(&first));
    assert!(state.validate(&second));
}

#[test]
fn identifiers_count_up_in_decimal() {
    let mut state = State::new();
    let ids: Vec<String> = (0..12).map(|n| state.create(format!("user{}", n))).collect();
    assert_eq!(
        ids,
        vec!["s0", "s1", "s2", "s3", "s4", "s5", "s6", "s7", "s8", "s9", "s10", "s11"]
    );
    for id in &ids {
        assert!(state.validate(id));
    }
    assert!(!state.validate("s12"));
}

#[test]
fn session_id_is_the_letter_and_the_numeral() {
    assert_eq!(session_id(0), "s0");
    assert_eq!(session_id(7), "s7");
    assert_eq!(session_id(10), "s10");
    assert_eq!(session_id(1234567890), "s1234567890");
    assert_eq!(session_id(u64::MAX), "s18446744073709551615");
}

#[test]
fn session_number_reads_labels_only() {
    assert_eq!(session_number("s0"), Some(0));
    assert_eq!(session_number("s9"), Some(9));
    assert_eq!(session_number("s10"), Some(10));
    assert_eq!(session_number("s907"), Some(907));
    assert_eq!(session_number("s18446744073709551615"), Some(u64::MAX));
    assert_eq!(session_number("s18446744073709551616"), None);
    assert_eq!(session_number("s99999999999999999999999"), None);
    assert_eq!(session_number(""), None);
    assert_eq!(session_number("s"), None);
    assert_eq!(session_number("0"), None);
    assert_eq!(session_number("x0"), None);
    assert_eq!(session_number("S0"), None);
    assert_eq!(session_number("s00"), None);
    assert_eq!(session_number("s01"), None);
    assert_eq!(session_number("s+1"), None);
    assert_eq!(session_number("s-1"), None);
    assert_eq!(session_number("s1 "), None);
    assert_eq!(session_number(" s1"), None);
    assert_eq!(session_number("s1a"), None);
    assert_eq!(session_number("s\u{0661}"), None);
    assert_eq!(session_number("\u{017F}1"), None);
}

#[test]
fn session_number_inverts_session_id() {
    for n in [0u64, 1, 9, 10, 11, 99, 100, 101, 65535, 4294967296, u64::MAX - 1, u64::MAX] {
        assert_eq!(session_number(&session_id(n)), Some(n));
    }
}

#[test]
fn unknown_identifiers_are_not_valid() {
    let mut state = State::new();
    assert!(!state.validate("s0"));
    let id = state.create("alice".to_string());
    assert_eq!(id, "s0");
    assert!(!state.validate("s1"));
    assert!(!state.validate("s00"));
    assert!(!state.validate("alice"));
    assert!(!state.validate(""));
}

#[test]
fn revoking_an_unknown_identifier_changes_nothing() {
    let mut state = State::new();
    let id = state.create("alice".to_string());
    state.revoke("s1");
    state.revoke("s00");
    state.revoke("bogus");
    assert!(state.validate(&id));
    let next = state.create("bob".to_string());
    assert_eq!(next, "s1");
    assert!(state.validate(&next));
}

#[test]
fn revoked_sessions_stay_revoked_and_numbers_are_not_reused() {
    let mut state = State::new();
    let first = state.create("alice".to_string());
    state.revoke(&first);
    state.revoke(&first);
    assert!(!state.validate(&first));
    let second = state.create("alice".to_string());
    assert_eq!(second, "s1");
    assert!(!state.validate(&first));
    assert!(state.validate(&second));
}

#[test]
fn default_registry_is_empty() {
    let mut state = State::default();
    assert!(!state.validate("s0"));
    assert_eq!(state.create("carol".to_string()), "s0");
}
