use rconc::creds::{credential_from_prompt, credential_plan, CredentialPlan, EnvCredential};
use rconc::errors::{exit_code, message, CredentialError, Failure};
use rconc::router::{cmd_add, resolve_selector, SessionTarget};
use rconc::session::{interactive_step, plan_session, prompt_for, ExecMode, LineRead};
use rconc::store::Config;
use rconc::text::{contains_colon, is_dash_token, str_eq};

fn ready_value(plan: CredentialPlan) -> Option<String> {
    match plan {
        CredentialPlan::Ready(v) => Some(v),
        _ => None,
    }
}

#[test]
fn environment_value_overrides_the_prompt_for_the_dash_token() {
    let env = EnvCredential::Value("from-env".to_string());
    let plan = credential_plan("-", false, &env);
    assert_eq!(ready_value(plan), Some("from-env".to_string()));
}

#[test]
fn a_literal_token_is_used_verbatim_without_resolution() {
    let plan = credential_plan("hunter2", false, &EnvCredential::Unset);
    assert_eq!(ready_value(plan), Some("hunter2".to_string()));
}

#[test]
fn ad_hoc_addressing_skips_the_literal_token_branch() {
    let env = EnvCredential::Value("from-env".to_string());
    let plan = credential_plan("ignored-literal", true, &env);
    assert_eq!(ready_value(plan), Some("from-env".to_string()));
}

#[test]
fn dash_token_without_environment_asks_for_a_prompt() {
    let plan = credential_plan("-", false, &EnvCredential::Unset);
    assert!(matches!(plan, CredentialPlan::Prompt));
}

#[test]
fn a_non_text_environment_value_is_an_encoding_failure() {
    let plan = credential_plan("-", false, &EnvCredential::NotText);
    assert!(matches!(
        plan,
        CredentialPlan::Reject(CredentialError::Encoding)
    ));
    assert_eq!(exit_code(&Failure::Credential(CredentialError::Encoding)), 23);
}

#[test]
fn prompt_end_of_stream_is_a_no_input_failure() {
    let r = credential_from_prompt(None);
    assert_eq!(r, Err(CredentialError::NoInput));
    assert_eq!(exit_code(&Failure::Credential(CredentialError::NoInput)), 23);
}

#[test]
fn prompt_line_is_the_secret() {
    let r = credential_from_prompt(Some("typed".to_string()));
    assert_eq!(r, Ok("typed".to_string()));
}

#[test]
fn colon_selector_bypasses_the_registry() {
    let empty = Config::new();
    let mut populated = Config::new();
    assert!(cmd_add(&mut populated, "alpha", "realaddr:1", "pw").is_ok());
    for cfg in [&empty, &populated] {
        match resolve_selector(cfg, "host:1234") {
            Ok(SessionTarget::AdHoc(a)) => assert_eq!(a, "host:1234"),
            other => panic!("expected ad-hoc target, got {other:?}"),
        }
    }
}

#[test]
fn registered_selector_resolves_to_its_stored_pair() {
    let mut cfg = Config::new();
    assert!(cmd_add(&mut cfg, "alpha", "1.2.3.4:25575", "secret").is_ok());
    match resolve_selector(&cfg, "alpha") {
        Ok(SessionTarget::Stored(a, w)) => {
            assert_eq!(a, "1.2.3.4:25575");
            assert_eq!(w, "secret");
        }
        other => panic!("expected stored target, got {other:?}"),
    }
}

#[test]
fn unregistered_selector_is_fatal_with_exit_code_3() {
    let cfg = Config::new();
    let r = resolve_selector(&cfg, "alpha");
    assert_eq!(r.err(), Some(Failure::UnknownServer));
    assert_eq!(exit_code(&Failure::UnknownServer), 3);
}

#[test]
fn command_words_are_joined_with_single_spaces() {
    let words = vec!["say".to_string(), "hello".to_string(), "world".to_string()];
    match plan_session(&words) {
        ExecMode::Single(c) => assert_eq!(c, "say hello world"),
        ExecMode::Interactive => panic!("words given, single-shot expected"),
    }
}

#[test]
fn one_command_word_is_executed_as_is() {
    let words = vec!["status".to_string()];
    match plan_session(&words) {
        ExecMode::Single(c) => assert_eq!(c, "status"),
        ExecMode::Interactive => panic!("a word given, single-shot expected"),
    }
}

#[test]
fn no_command_words_means_the_interactive_loop() {
    let words: Vec<String> = Vec::new();
    assert!(matches!(plan_session(&words), ExecMode::Interactive));
}

#[test]
fn an_interactive_line_is_trimmed_of_trailing_whitespace_only() {
    let r = interactive_step(LineRead::Line("  status \r\n".to_string()));
    assert_eq!(r, Ok("  status".to_string()));
}

#[test]
fn end_of_input_in_the_loop_is_a_read_failure_not_a_clean_exit() {
    let r = interactive_step(LineRead::EndOfInput);
    assert_eq!(r, Err(Failure::LoopInput));
    assert_eq!(exit_code(&Failure::LoopInput), 15);
    let r = interactive_step(LineRead::Failed);
    assert_eq!(r, Err(Failure::LoopInput));
}

#[test]
fn the_prompt_names_the_selector() {
    assert_eq!(prompt_for("alpha"), "alpha > ");
}

#[test]
fn the_exit_code_table_is_stable() {
    assert_eq!(exit_code(&Failure::ConfigLoad), 2);
    assert_eq!(exit_code(&Failure::UnknownServer), 3);
    assert_eq!(exit_code(&Failure::ConnectTransport), 10);
    assert_eq!(exit_code(&Failure::ConnectAuth), 11);
    assert_eq!(exit_code(&Failure::ExecFailed), 12);
    assert_eq!(exit_code(&Failure::CommandTooLong), 13);
    assert_eq!(exit_code(&Failure::LoopInput), 15);
    assert_eq!(exit_code(&Failure::DuplicateServer), 20);
    assert_eq!(exit_code(&Failure::SaveFailed), 21);
    assert_eq!(exit_code(&Failure::RemoveUnknown), 22);
    assert_eq!(exit_code(&Failure::Credential(CredentialError::NoInput)), 23);
    assert_eq!(exit_code(&Failure::InvalidName), 24);
}

#[test]
fn auth_rejection_is_distinct_from_a_transport_failure() {
    assert_ne!(
        exit_code(&Failure::ConnectAuth),
        exit_code(&Failure::ConnectTransport)
    );
    assert_eq!(
        message(&Failure::ConnectAuth, "1.2.3.4:25575"),
        "The server rejected our password"
    );
    assert_eq!(
        message(&Failure::ConnectTransport, "1.2.3.4:25575"),
        "Could not connect to 1.2.3.4:25575"
    );
}

#[test]
fn too_long_commands_are_reported_distinctly() {
    assert_ne!(
        exit_code(&Failure::CommandTooLong),
        exit_code(&Failure::ExecFailed)
    );
    assert_eq!(
        message(&Failure::CommandTooLong, "cmd"),
        "The given command is too long"
    );
    assert_eq!(
        message(&Failure::ExecFailed, "cmd"),
        "Could not execute command cmd"
    );
}

#[test]
fn messages_name_their_subject() {
    assert_eq!(
        message(&Failure::UnknownServer, "alpha"),
        "Server alpha is not configured"
    );
    assert_eq!(
        message(&Failure::DuplicateServer, "alpha"),
        "Server alpha already exists"
    );
    assert_eq!(
        message(&Failure::RemoveUnknown, "alpha"),
        "Server alpha does not exist"
    );
    assert_eq!(
        message(&Failure::InvalidName, "a:b"),
        "Short names must not contain colons"
    );
}

#[test]
fn character_helpers_decide_exactly() {
    assert!(contains_colon("host:1234"));
    assert!(!contains_colon("alpha"));
    assert!(contains_colon(":"));
    assert!(is_dash_token("-"));
    assert!(!is_dash_token("--"));
    assert!(!is_dash_token(""));
    assert!(str_eq("abc", "abc"));
    assert!(!str_eq("abc", "abd"));
    assert!(!str_eq("abc", "ab"));
}
