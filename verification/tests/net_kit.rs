use shopping_apis::net_kit::jwt::{claim_str, expiry_ms, fresh_at_exec};
use shopping_apis::net_kit::password::{decode, encode, Source};
use shopping_apis::net_kit::secrets::{as_read, safe, Backend, Memo, Secrets};

fn store() -> Secrets {
    Secrets::new("net-kit-test", Backend::File, "/tmp/state")
}

// ---- secrets ----

#[test]
fn the_fallback_is_named_honestly() {
    assert!(Backend::File.describe().contains("no system credential store"));
}

#[test]
fn account_names_cannot_escape_the_directory() {
    let s = Secrets::new("net_kit_test", Backend::File, "/tmp/state");
    let inside = "/tmp/state/secrets/net_kit_test";
    let escaped = s.path("../../etc/passwd");
    assert_eq!(escaped.rsplit_once('/').map(|(dir, _)| dir), Some(inside));
    assert_eq!(escaped, "/tmp/state/secrets/net_kit_test/______etc_passwd");
    assert_eq!(s.path("a/b").rsplit_once('/').map(|(dir, _)| dir), Some(inside));
}

#[test]
fn two_tools_sharing_a_state_directory_file_apart() {
    let a = Secrets::new("tool-a", Backend::File, "/tmp/state");
    let b = Secrets::new("tool-b", Backend::File, "/tmp/state");
    assert_ne!(a.path("session"), b.path("session"));
    assert_eq!(a.path("session"), "/tmp/state/secrets/tool_a/session");
}

#[test]
fn a_name_is_made_of_letters_digits_and_underscores_only() {
    assert_eq!(safe("Ab9-x.y/z é"), "Ab9_x_y_z__");
    assert_eq!(safe(""), "");
}

#[test]
fn a_store_remembers_how_it_was_made() {
    let s = store();
    assert_eq!(s.service(), "net-kit-test");
    assert_eq!(s.backend(), Backend::File);
    assert_eq!(s.dir(), "/tmp/state/secrets");
    assert_eq!(Backend::Keyring.describe(), "the system credential store");
}

#[test]
fn a_stored_value_reads_back_trimmed_from_a_file_and_as_is_from_the_keyring() {
    assert_eq!(as_read(Backend::File, "  padded  ").as_deref(), Some("padded"));
    assert_eq!(as_read(Backend::Keyring, "  padded  ").as_deref(), Some("  padded  "));
    assert_eq!(as_read(Backend::File, "   "), None);
    assert_eq!(as_read(Backend::Keyring, ""), None);
}

// ---- password ----

#[test]
fn a_password_survives_its_filed_form() {
    let raw = encode("hunter2");
    assert_eq!(raw, "\"hunter2\"");
    assert_eq!(decode(&raw).as_deref(), Some("hunter2"));
}

#[test]
fn surrounding_space_survives_the_filed_form() {
    let raw = encode("  spaced  ");
    assert_eq!(decode(&raw).as_deref(), Some("  spaced  "));
}

#[test]
fn an_empty_or_unreadable_password_is_none() {
    assert_eq!(decode(&encode("")), None);
    assert_eq!(decode("not json"), None);
}

#[test]
fn a_configured_command_beats_the_stored_copy() {
    let s = store();
    let filed = encode("stored");
    assert!(matches!(
        Source::resolve(Some("pass show clubplus"), &s, Some(&filed)),
        Some(Source::Command(_))
    ));
    // Blank is not configured.
    assert!(matches!(Source::resolve(Some("   "), &s, Some(&filed)), Some(Source::Stored(_))));
}

#[test]
fn nothing_stored_and_no_command_is_no_source() {
    assert!(Source::resolve(None, &store(), None).is_none());
    assert!(Source::resolve(None, &store(), Some("not json")).is_none());
    assert!(Source::resolve(None, &store(), Some(&encode(""))).is_none(), "an empty one is none");
}

#[test]
fn a_named_source_trims_its_command_and_says_where_it_reads_from() {
    let s = store();
    match Source::named(Some("  pass show clubplus "), &s) {
        Source::Command(c) => assert_eq!(c, "pass show clubplus"),
        other => panic!("{other:?}"),
    }
    assert!(matches!(Source::named(None, &s), Source::Stored(_)));
    assert_eq!(Source::named(None, &s).describe(), "the stored password");
    assert_eq!(Source::named(Some("x"), &s).describe(), "the configured password_command");
    assert!(Source::named(Some("x"), &s).has_password(None), "a command is taken at its word");
    assert!(!Source::named(None, &s).has_password(None));
    assert!(Source::named(None, &s).has_password(Some(&encode("hunter2"))));
}

// ---- jwt ----

#[test]
fn a_token_that_is_not_a_jwt_has_no_expiry_or_claims() {
    assert_eq!(expiry_ms("not.a.jwt"), None);
    assert_eq!(expiry_ms("x"), None);
    assert_eq!(claim_str("x", "sub"), None);
}

#[test]
fn a_jwt_expiry_is_read_in_milliseconds_and_its_claims_by_name() {
    // {"alg":"none"} . {"exp":1700000000,"sub":"shopper@example.invalid"}
    let token = "eyJhbGciOiJub25lIn0.eyJleHAiOjE3MDAwMDAwMDAsInN1YiI6InNob3BwZXJAZXhhbXBsZS5pbnZhbGlkIn0.sig";
    assert_eq!(expiry_ms(token), Some(1_700_000_000_000));
    assert_eq!(claim_str(token, "sub").as_deref(), Some("shopper@example.invalid"));
    assert_eq!(claim_str(token, "missing"), None);
}

#[test]
fn freshness_keeps_a_margin_before_the_expiry() {
    assert!(fresh_at_exec(1_000, 100, 899));
    assert!(!fresh_at_exec(1_000, 100, 900));
    assert!(!fresh_at_exec(0, 0, u64::MAX));
}

// ---- what a process remembers of a store ----

/// The memo after writing `secret` to `account`, as the store's writer keeps it.
fn written(m: &mut Memo, backend: Backend, account: &str, secret: &str) {
    assert!(m.needs_write(backend, account, secret));
    m.remember(account, as_read(backend, secret));
}

#[test]
fn what_is_remembered_is_what_a_read_would_give_back() {
    let mut m = Memo::new();
    written(&mut m, Backend::File, "session", " spaced ");
    assert_eq!(m.remembered("session"), Some(Some("spaced".to_string())));
    let mut k = Memo::new();
    written(&mut k, Backend::Keyring, "session", " spaced ");
    assert_eq!(k.remembered("session"), Some(Some(" spaced ".to_string())));
}

#[test]
fn writing_the_same_value_again_does_not_write() {
    let mut m = Memo::new();
    written(&mut m, Backend::File, "session", "a-stored-session");
    assert!(!m.needs_write(Backend::File, "session", "a-stored-session"));
    assert!(!m.needs_write(Backend::File, "session", " a-stored-session\n"), "it reads back the same");
}

#[test]
fn writing_a_different_value_does() {
    let mut m = Memo::new();
    written(&mut m, Backend::File, "session", "the-first");
    assert!(m.needs_write(Backend::File, "session", "the-second"));
    written(&mut m, Backend::File, "session", "the-second");
    assert_eq!(m.remembered("session"), Some(Some("the-second".to_string())));
}

#[test]
fn deleting_something_known_absent_does_not_reach_the_store() {
    let mut m = Memo::new();
    assert!(m.needs_delete("absent"), "nothing is known yet");
    m.remember("absent", None);
    assert!(!m.needs_delete("absent"));
}

#[test]
fn a_deleted_value_is_gone_from_memory_too() {
    let mut m = Memo::new();
    written(&mut m, Backend::File, "session", "a-stored-session");
    assert!(m.needs_delete("session"));
    m.remember("session", None);
    assert_eq!(m.remembered("session"), Some(None));
    assert!(m.needs_write(Backend::File, "session", "a-stored-session"));
}

#[test]
fn a_value_already_read_is_not_fetched_twice() {
    let mut m = Memo::new();
    assert_eq!(m.remembered("session"), None, "not looked at yet");
    m.remember("session", as_read(Backend::File, "a-stored-session\n"));
    assert_eq!(m.remembered("session"), Some(Some("a-stored-session".to_string())));
    assert_eq!(m.remembered("other"), None, "one account says nothing of another");
}

#[test]
fn the_stored_source_is_the_store_it_was_named_with() {
    let s = store();
    match Source::named(Some("   "), &s) {
        Source::Stored(t) => {
            assert_eq!(t.service(), s.service());
            assert_eq!(t.dir(), s.dir());
            assert_eq!(t.backend(), s.backend());
        }
        other => panic!("{other:?}"),
    }
    let copy = s.duplicate();
    assert_eq!(copy.path("account"), s.path("account"));
}
