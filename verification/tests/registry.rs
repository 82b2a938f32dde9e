use rconc::errors::{exit_code, Failure};
use rconc::persist::saved_then_reloaded;
use rconc::router::{cmd_add, cmd_remove, list_lines};
use rconc::store::Config;

#[test]
fn add_then_get_returns_the_stored_pair() {
    let mut cfg = Config::new();
    assert!(cmd_add(&mut cfg, "alpha", "1.2.3.4:25575", "secret").is_ok());
    let got = cfg.get("alpha");
    assert_eq!(got, Some(("1.2.3.4:25575".to_string(), "secret".to_string())));
}

#[test]
fn second_add_of_same_name_fails_and_keeps_the_first_profile() {
    let mut cfg = Config::new();
    assert!(cmd_add(&mut cfg, "alpha", "1.2.3.4:25575", "secret").is_ok());
    let second = cmd_add(&mut cfg, "alpha", "5.6.7.8:25575", "other");
    assert_eq!(second, Err(Failure::DuplicateServer));
    assert_eq!(exit_code(&Failure::DuplicateServer), 20);
    assert_eq!(
        cfg.get("alpha"),
        Some(("1.2.3.4:25575".to_string(), "secret".to_string()))
    );
}

#[test]
fn add_with_colon_in_name_always_fails_with_invalid_name() {
    let mut cfg = Config::new();
    let r = cmd_add(&mut cfg, "host:1234", "1.2.3.4:25575", "secret");
    assert_eq!(r, Err(Failure::InvalidName));
    assert_eq!(exit_code(&Failure::InvalidName), 24);
    assert_eq!(cfg.len(), 0);
    let r2 = cmd_add(&mut cfg, "a:b", "other", "other");
    assert_eq!(r2, Err(Failure::InvalidName));
    assert_eq!(cfg.len(), 0);
}

#[test]
fn remove_unknown_name_fails_and_leaves_registry_unchanged() {
    let mut cfg = Config::new();
    assert!(cmd_add(&mut cfg, "alpha", "addr", "pw").is_ok());
    let r = cmd_remove(&mut cfg, "beta");
    assert_eq!(r, Err(Failure::RemoveUnknown));
    assert_eq!(exit_code(&Failure::RemoveUnknown), 22);
    assert_eq!(cfg.len(), 1);
    assert_eq!(cfg.get("alpha"), Some(("addr".to_string(), "pw".to_string())));
}

#[test]
fn remove_known_name_makes_get_return_none() {
    let mut cfg = Config::new();
    assert!(cmd_add(&mut cfg, "alpha", "addr", "pw").is_ok());
    assert!(cmd_remove(&mut cfg, "alpha").is_ok());
    assert_eq!(cfg.get("alpha"), None);
    assert_eq!(cfg.len(), 0);
}

#[test]
fn set_updates_an_existing_entry_in_place() {
    let mut cfg = Config::new();
    cfg.set("a", "addr1", "pw1");
    cfg.set("b", "addr2", "pw2");
    cfg.set("a", "addr3", "pw3");
    assert_eq!(cfg.get("a"), Some(("addr3".to_string(), "pw3".to_string())));
    assert_eq!(cfg.get("b"), Some(("addr2".to_string(), "pw2".to_string())));
    assert_eq!(cfg.servers(), vec!["a".to_string(), "b".to_string()]);
}

#[test]
fn servers_enumerates_each_name_exactly_once_in_order() {
    let mut cfg = Config::new();
    cfg.set("one", "a1", "p1");
    cfg.set("two", "a2", "p2");
    cfg.set("three", "a3", "p3");
    assert_eq!(
        cfg.servers(),
        vec!["one".to_string(), "two".to_string(), "three".to_string()]
    );
}

#[test]
fn empty_registry_lists_nothing() {
    let cfg = Config::new();
    let lines = list_lines(&cfg, false);
    assert!(lines.is_empty());
    let lines = list_lines(&cfg, true);
    assert!(lines.is_empty());
}

#[test]
fn listing_shows_addresses_and_optionally_passwords() {
    let mut cfg = Config::new();
    cfg.set("alpha", "1.2.3.4:25575", "secret");
    cfg.set("beta", "example.test:25575", "pw");
    assert_eq!(
        list_lines(&cfg, false),
        vec![
            "alpha: 1.2.3.4:25575".to_string(),
            "beta: example.test:25575".to_string()
        ]
    );
    assert_eq!(
        list_lines(&cfg, true),
        vec![
            "alpha: 1.2.3.4:25575 (secret)".to_string(),
            "beta: example.test:25575 (pw)".to_string()
        ]
    );
}

#[test]
fn round_trip_preserves_every_profile() {
    let mut cfg = Config::new();
    assert!(cmd_add(&mut cfg, "one", "1.1.1.1:1", "pw1").is_ok());
    assert!(cmd_add(&mut cfg, "two", "2.2.2.2:2", "pw2").is_ok());
    assert!(cmd_add(&mut cfg, "three", "3.3.3.3:3", "pw3").is_ok());
    let text = cfg.to_text();
    let reloaded = Config::from_text(&text).expect("the saved text parses");
    let mut names = reloaded.servers();
    names.sort();
    assert_eq!(
        names,
        vec!["one".to_string(), "three".to_string(), "two".to_string()]
    );
    for (name, addr, pw) in [
        ("one", "1.1.1.1:1", "pw1"),
        ("two", "2.2.2.2:2", "pw2"),
        ("three", "3.3.3.3:3", "pw3"),
    ] {
        assert_eq!(
            reloaded.get(name),
            Some((addr.to_string(), pw.to_string())),
            "profile {name} survives the round trip"
        );
    }
}

#[test]
fn saved_then_reloaded_is_identity_on_readable_profiles() {
    let mut cfg = Config::new();
    assert!(cmd_add(&mut cfg, "alpha", "1.2.3.4:25575", "secret").is_ok());
    let reloaded = saved_then_reloaded(&cfg);
    assert_eq!(
        reloaded.get("alpha"),
        Some(("1.2.3.4:25575".to_string(), "secret".to_string()))
    );
    assert_eq!(reloaded.len(), 1);
}

#[test]
fn loading_a_handwritten_document_reads_both_fields() {
    let text = "[alpha]\naddress=1.2.3.4:25575\npassword=secret\n";
    let cfg = Config::from_text(text).expect("valid document");
    assert_eq!(
        cfg.get("alpha"),
        Some(("1.2.3.4:25575".to_string(), "secret".to_string()))
    );
}

#[test]
fn a_partial_record_is_enumerated_but_does_not_resolve() {
    let text = "[half]\naddress=somewhere:1\n";
    let cfg = Config::from_text(text).expect("valid document");
    assert_eq!(cfg.servers(), vec!["half".to_string()]);
    assert_eq!(cfg.get("half"), None);
    assert!(list_lines(&cfg, false).is_empty());
}

#[test]
fn an_unparsable_document_is_a_config_failure() {
    let r = Config::from_text("=5\n");
    assert_eq!(r.err(), Some(Failure::ConfigLoad));
    assert_eq!(exit_code(&Failure::ConfigLoad), 2);
}

#[test]
fn an_empty_document_is_an_empty_registry() {
    let cfg = Config::from_text("").expect("empty text parses");
    assert_eq!(cfg.len(), 0);
    assert!(cfg.servers().is_empty());
}
