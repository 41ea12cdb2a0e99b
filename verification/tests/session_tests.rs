use sakura_tui::session::{error_status_line, store_result};
use sakura_tui::state::Loadable;
use sakura_tui::dialogs::{line_count_u16, message_key, ConfirmPrompt, ConfirmStep};
use sakura_tui::keys::Key;
use sakura_tui::session::{accepts_message, MessageKind, Session};

fn chars(s: &str) -> Vec<char> {
    s.chars().collect()
}

#[test]
fn old_results_are_dropped() {
    let mut session = Session::new();
    // The request in flight carries the generation at the time it was sent.
    let in_flight = session.request_sent();
    // Here the credentials change.
    session.credentials_changed();
    assert_ne!(in_flight, session.epoch);
    assert!(!session.result_arrived(in_flight, MessageKind::Other));
    assert_eq!(session.inflight, 0);
}

#[test]
fn credential_messages_survive_epoch_change() {
    let loaded = MessageKind::CredentialsLoaded;
    assert!(loaded.ignores_epoch());
    assert!(!MessageKind::Other.ignores_epoch());
    assert!(accepts_message(1, 0, loaded));
    assert!(accepts_message(1, 0, MessageKind::ProfileVerified));
    assert!(accepts_message(1, 0, MessageKind::LoginVerified));
    assert!(accepts_message(1, 0, MessageKind::SavedLogin));
}

#[test]
fn results_of_the_current_credentials_enter() {
    let mut session = Session::new();
    let sent = session.request_sent();
    assert_eq!(session.inflight, 1);
    assert!(session.result_arrived(sent, MessageKind::Other));
    assert_eq!(session.inflight, 0);
    // A result nobody waited for does not make the count negative.
    assert!(session.result_arrived(sent, MessageKind::Other));
    assert_eq!(session.inflight, 0);
}

#[test]
fn lines_are_counted_as_str_lines_does() {
    for text in ["", "a", "a\n", "a\nb", "\n", "\n\n", "a\r\nb\r\n", "x\ny\nz"] {
        assert_eq!(line_count_u16(&chars(text)) as usize, text.lines().count(), "{:?}", text);
    }
}

#[test]
fn message_scrolls_and_closes() {
    let body = chars("1\n2\n3\n4");
    assert_eq!(message_key(0, &body, Key::Down), Some(1));
    assert_eq!(message_key(0, &body, Key::Char('j')), Some(1));
    assert_eq!(message_key(0, &body, Key::Up), Some(0));
    assert_eq!(message_key(5, &body, Key::Char('k')), Some(4));
    assert_eq!(message_key(3, &body, Key::PageDown), Some(13));
    assert_eq!(message_key(13, &body, Key::PageUp), Some(3));
    assert_eq!(message_key(3, &body, Key::PageUp), Some(0));
    assert_eq!(message_key(u16::MAX - 2, &body, Key::PageDown), Some(u16::MAX));
    assert_eq!(message_key(7, &body, Key::Home), Some(0));
    assert_eq!(message_key(0, &body, Key::End), Some(4));
    assert_eq!(message_key(0, &body, Key::Char('G')), Some(4));
    assert_eq!(message_key(2, &body, Key::Char('x')), Some(2));
    assert_eq!(message_key(2, &body, Key::Esc), None);
    assert_eq!(message_key(2, &body, Key::Enter), None);
    assert_eq!(message_key(2, &body, Key::Char('q')), None);
}

#[test]
fn plain_confirmation_runs_on_yes() {
    let mut prompt = ConfirmPrompt { verify: None, typed: Vec::new() };
    assert_eq!(prompt.key(Key::Char('a')), ConfirmStep::Keep);
    assert_eq!(prompt.typed, Vec::<char>::new());
    assert_eq!(prompt.key(Key::Char('y')), ConfirmStep::Run);
    assert_eq!(prompt.key(Key::Char('Y')), ConfirmStep::Run);
    assert_eq!(prompt.key(Key::Enter), ConfirmStep::Run);
    assert_eq!(prompt.key(Key::Char('n')), ConfirmStep::Cancel);
    assert_eq!(prompt.key(Key::Char('q')), ConfirmStep::Cancel);
    assert_eq!(prompt.key(Key::Esc), ConfirmStep::Cancel);
}

#[test]
fn typed_confirmation_runs_only_on_the_name() {
    let mut prompt = ConfirmPrompt { verify: Some(chars("web1")), typed: Vec::new() };
    assert_eq!(prompt.key(Key::Char('y')), ConfirmStep::Keep);
    assert_eq!(prompt.key(Key::Enter), ConfirmStep::Mismatch);
    assert_eq!(prompt.key(Key::Backspace), ConfirmStep::Keep);
    assert_eq!(prompt.typed, Vec::<char>::new());
    assert_eq!(prompt.key(Key::Backspace), ConfirmStep::Keep);
    for c in "web1".chars() {
        assert_eq!(prompt.key(Key::Char(c)), ConfirmStep::Keep);
    }
    assert_eq!(prompt.typed, chars("web1"));
    assert_eq!(prompt.key(Key::Enter), ConfirmStep::Run);
    assert_eq!(prompt.key(Key::Esc), ConfirmStep::Cancel);
}

#[test]
fn pasted_text_goes_into_the_typed_name() {
    let mut prompt = ConfirmPrompt { verify: Some(chars("web1")), typed: chars("we") };
    prompt.paste(&chars("b1"));
    assert_eq!(prompt.typed, chars("web1"));
    let mut plain = ConfirmPrompt { verify: None, typed: Vec::new() };
    plain.paste(&chars("b1"));
    assert_eq!(plain.typed, Vec::<char>::new());
}

#[test]
fn failed_results_are_kept_and_reported() {
    let (state, status) = store_result::<Vec<u32>>(Ok(vec![1, 2]));
    assert!(matches!(state, Loadable::Ready(ref v) if v == &vec![1, 2]));
    assert_eq!(status, None);
    let (state, status) = store_result::<Vec<u32>>(Err("boom".to_string()));
    assert!(matches!(state, Loadable::Failed(ref e) if e == "boom"));
    assert_eq!(status, Some("boom".to_string()));
    assert_eq!(error_status_line("a\nb\n"), "a b ");
    assert_eq!(error_status_line("plain"), "plain");
}
