use nezha_cyber::api::types::Role;
use nezha_cyber::persistence::db::{conversation_limit, parse_usize_text, saves_on_exit, toggled_favorite};

#[test]
fn role_from_str_all_variants() {
    assert_eq!(Role::from_str("user"), Role::User);
    assert_eq!(Role::from_str("assistant"), Role::Assistant);
    assert_eq!(Role::from_str("system"), Role::System);
    assert_eq!(Role::from_str("tool"), Role::Tool);
}

#[test]
fn role_from_str_unknown_defaults_to_user() {
    assert_eq!(Role::from_str("invalid_role"), Role::User);
}

#[test]
fn role_round_trips_through_its_name() {
    for r in [Role::System, Role::User, Role::Assistant, Role::Tool] {
        assert_eq!(Role::from_str(r.as_str()), r);
    }
}

#[test]
fn parse_usize_matches_std() {
    for s in ["0", "42", "+7", "007", "", "+", "-1", " 3", "3 ", "1a", "18446744073709551615", "18446744073709551616"] {
        assert_eq!(parse_usize_text(s), s.parse::<usize>().ok(), "input {:?}", s);
    }
}

#[test]
fn conversation_limit_defaults_to_fifty() {
    assert_eq!(conversation_limit(None), 50);
    assert_eq!(conversation_limit(Some("2")), 2);
    assert_eq!(conversation_limit(Some("many")), 50);
}

#[test]
fn favorite_toggles() {
    assert_eq!(toggled_favorite(0), 1);
    assert_eq!(toggled_favorite(1), 0);
    assert_eq!(toggled_favorite(7), 0);
}

#[test]
fn auto_save_preference() {
    assert!(saves_on_exit(None));
    assert!(saves_on_exit(Some("on_exit")));
    assert!(saves_on_exit(Some("always")));
    assert!(!saves_on_exit(Some("never")));
}
