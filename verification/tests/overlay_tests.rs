use sakura_tui::account_forms::IamCredentialForm;
use sakura_tui::ai_engine_tokens::{AiEngineTokenForm, TokenEntry};
use sakura_tui::keys::Key;
use sakura_tui::overlay::{overlay_key, overlay_paste, Effect, Overlay};
use sakura_tui::service::Service;
use sakura_tui::state::StatusKind;

fn chars(s: &str) -> Vec<char> {
    s.chars().collect()
}

fn confirm(verify: Option<&str>, typed: &str) -> Overlay<&'static str> {
    Overlay::Confirm {
        title: "削除".to_string(),
        body: "web1 を削除します".to_string(),
        verify: verify.map(chars),
        typed: chars(typed),
        action: "delete web1",
    }
}

#[test]
fn typed_confirmation_reports_a_mismatch() {
    let step = overlay_key(confirm(Some("web1"), "web"), Key::Enter);
    assert!(matches!(step.effect, Effect::Nothing));
    assert_eq!(step.status, Some(("「web1」と一致していません".to_string(), StatusKind::Error)));
    match step.next {
        Some(Overlay::Confirm { typed, verify, .. }) => {
            assert_eq!(typed, chars("web"));
            assert_eq!(verify, Some(chars("web1")));
        },
        _ => panic!("unexpected dialog"),
    }
}

#[test]
fn typed_confirmation_runs_when_the_name_matches() {
    let step = overlay_key(confirm(Some("web1"), "web"), Key::Char('1'));
    assert!(step.status.is_none());
    let step = overlay_key(step.next.unwrap(), Key::Enter);
    assert!(matches!(step.effect, Effect::Run("delete web1")));
    assert!(step.next.is_none());
    assert!(step.status.is_none());
}

#[test]
fn plain_confirmation_runs_on_yes_and_closes_on_no() {
    assert!(matches!(overlay_key(confirm(None, ""), Key::Char('y')).effect, Effect::Run(_)));
    let no = overlay_key(confirm(None, ""), Key::Char('n'));
    assert!(no.next.is_none() && matches!(no.effect, Effect::Nothing));
    let other = overlay_key(confirm(None, ""), Key::Char('x'));
    assert!(matches!(other.next, Some(Overlay::Confirm { .. })));
}

#[test]
fn paste_goes_into_the_typed_name() {
    match overlay_paste(confirm(Some("web1"), "we"), " b1\n") {
        (Overlay::Confirm { typed, .. }, taken) => {
            assert_eq!(typed, chars("web1"));
            assert!(taken);
        },
        _ => panic!("unexpected dialog"),
    }
    match overlay_paste(confirm(None, ""), "b1") {
        (Overlay::Confirm { typed, .. }, taken) => {
            assert!(typed.is_empty());
            assert!(!taken);
        },
        _ => panic!("unexpected dialog"),
    }
    let (_, taken) = overlay_paste(Overlay::<&str>::Help, "  \n ");
    assert!(taken);
}

#[test]
fn message_scrolls_and_restores_the_pending_form_on_close() {
    let message: Overlay<&str> =
        Overlay::Message { title: "エラー".to_string(), body: chars("a\nb"), kind: StatusKind::Error, scroll: 0 };
    let step = overlay_key(message, Key::PageDown);
    match step.next {
        Some(Overlay::Message { scroll, .. }) => assert_eq!(scroll, 10),
        _ => panic!("unexpected dialog"),
    }
    let closed = overlay_key(
        Overlay::<&str>::Message { title: String::new(), body: Vec::new(), kind: StatusKind::Info, scroll: 3 },
        Key::Esc,
    );
    assert!(closed.next.is_none());
    assert!(matches!(closed.effect, Effect::RestorePendingForm));
    let help = overlay_key(Overlay::<&str>::Help, Key::Char('x'));
    assert!(help.next.is_none());
}

#[test]
fn pickers_switch_what_they_show() {
    let server = Service::ALL.iter().position(|s| *s == Service::Server).unwrap();
    let step = overlay_key(Overlay::<&str>::ServicePicker { index: server, initial: false }, Key::Enter);
    assert!(matches!(step.effect, Effect::SwitchService(Service::Server)));
    let step = overlay_key(Overlay::<&str>::ServicePicker { index: server, initial: true }, Key::Esc);
    assert!(matches!(step.effect, Effect::Quit));
    let zones = vec!["is1a".to_string(), "tk1a".to_string()];
    let step = overlay_key(Overlay::<&str>::ZonePicker { zones: zones.clone(), index: 1 }, Key::Enter);
    assert!(matches!(step.effect, Effect::SwitchZone(ref z) if z == "tk1a"));
    let step = overlay_key(Overlay::<&str>::ZonePicker { zones, index: 1 }, Key::Down);
    assert!(matches!(step.next, Some(Overlay::ZonePicker { index: 0, .. })));
}

#[test]
fn login_and_profile_pickers() {
    let accounts = vec!["alice".to_string()];
    let step = overlay_key(
        Overlay::<&str>::LoginPicker { host: "r.example".to_string(), accounts: accounts.clone(), index: 0 },
        Key::Enter,
    );
    assert!(matches!(step.effect, Effect::LoginWithSaved { ref host, ref username } if host == "r.example" && username == "alice"));
    let step = overlay_key(
        Overlay::<&str>::LoginPicker { host: "r.example".to_string(), accounts, index: 1 },
        Key::Enter,
    );
    assert!(matches!(step.effect, Effect::OpenLoginForm { ref host } if host == "r.example"));
    let sources = vec!["env".to_string(), "default".to_string()];
    let step = overlay_key(Overlay::<&str>::ProfilePicker { sources: sources.clone(), index: 1 }, Key::Char('c'));
    assert!(matches!(step.effect, Effect::CycleProfileColor(1)));
    assert!(matches!(step.next, Some(Overlay::ProfilePicker { index: 1, .. })));
    let step = overlay_key(Overlay::<&str>::ProfilePicker { sources, index: 2 }, Key::Enter);
    assert!(matches!(step.effect, Effect::OpenProfileForm));
}

fn credential_form(field: usize) -> IamCredentialForm {
    IamCredentialForm {
        service_principal_id: chars("sp-1"),
        key_id: chars("key-1"),
        private_key: Vec::new(),
        field,
        verifying: false,
    }
}

#[test]
fn iam_credential_form_debug_redacts_private_key() {
    let form = IamCredentialForm {
        service_principal_id: chars("sp-1"),
        key_id: chars("key-1"),
        private_key: chars("must-not-appear"),
        field: 2,
        verifying: false,
    };
    let debug = form.redacted_debug();
    assert!(debug.contains("<redacted>"));
    assert!(!debug.contains("must-not-appear"));
}

#[test]
fn private_key_paste_keeps_line_breaks() {
    let pem = "  -----BEGIN KEY-----\nabc\n-----END KEY-----\n ";
    match overlay_paste(Overlay::<&str>::IamCredentialForm(credential_form(2)), pem) {
        (Overlay::IamCredentialForm(f), true) => {
            assert_eq!(f.private_key, chars("-----BEGIN KEY-----\nabc\n-----END KEY-----"));
        },
        _ => panic!("unexpected dialog"),
    }
    match overlay_paste(Overlay::<&str>::IamCredentialForm(credential_form(1)), " ab\r\nc\t ") {
        (Overlay::IamCredentialForm(f), true) => assert_eq!(f.key_id, chars("key-1abc")),
        _ => panic!("unexpected dialog"),
    }
}

#[test]
fn credential_form_keys() {
    let step = overlay_key(Overlay::<&str>::IamCredentialForm(credential_form(0)), Key::Char('x'));
    let form = match step.next {
        Some(Overlay::IamCredentialForm(f)) => f,
        _ => panic!("unexpected dialog"),
    };
    assert_eq!(form.service_principal_id, chars("sp-1x"));
    let step = overlay_key(Overlay::<&str>::IamCredentialForm(form), Key::Up);
    let form = match step.next {
        Some(Overlay::IamCredentialForm(f)) => f,
        _ => panic!("unexpected dialog"),
    };
    assert_eq!(form.field, 2);
    let step = overlay_key(Overlay::<&str>::IamCredentialForm(form), Key::Char('y'));
    let form = match step.next {
        Some(Overlay::IamCredentialForm(f)) => f,
        _ => panic!("unexpected dialog"),
    };
    assert!(form.private_key.is_empty());
    let step = overlay_key(Overlay::<&str>::IamCredentialForm(form), Key::Enter);
    assert!(step.next.is_none());
    assert!(matches!(step.effect, Effect::SubmitIamCredentials(_)));
    let mut waiting = credential_form(0);
    waiting.verifying = true;
    let step = overlay_key(Overlay::<&str>::IamCredentialForm(waiting), Key::Esc);
    assert!(matches!(step.next, Some(Overlay::IamCredentialForm(_))));
}

#[test]
fn ai_engine_token_form_debug_redacts_token() {
    let form = AiEngineTokenForm { token: chars("uuid:must-not-appear"), ..AiEngineTokenForm::default() };
    let debug = form.redacted_debug();
    assert!(debug.contains("<redacted>"));
    assert!(!debug.contains("must-not-appear"));
}

fn tokens() -> AiEngineTokenForm {
    AiEngineTokenForm {
        entries: vec![
            TokenEntry { name: "env".to_string(), from_env: true },
            TokenEntry { name: "mine".to_string(), from_env: false },
        ],
        ..AiEngineTokenForm::default()
    }
}

#[test]
fn environment_tokens_cannot_be_deleted() {
    let step = overlay_key(Overlay::<&str>::AiEngineTokenForm(tokens()), Key::Char('d'));
    assert!(matches!(step.next, Some(Overlay::AiEngineTokenForm(_))));
    assert_eq!(step.status, Some(("環境変数のトークンはアプリから削除できません".to_string(), StatusKind::Info)));
    let mut second = tokens();
    second.index = 1;
    let step = overlay_key(Overlay::<&str>::AiEngineTokenForm(second), Key::Char('d'));
    assert!(step.next.is_none());
    assert!(matches!(step.effect, Effect::DeleteAiEngineToken(ref n) if n == "mine"));
}

#[test]
fn tokens_are_chosen_copied_and_added() {
    let step = overlay_key(Overlay::<&str>::AiEngineTokenForm(tokens()), Key::Enter);
    assert!(matches!(step.effect, Effect::SelectAiEngineToken(ref n) if n == "env"));
    let step = overlay_key(Overlay::<&str>::AiEngineTokenForm(tokens()), Key::Char('y'));
    assert!(matches!(step.effect, Effect::CopyAiEngineToken { ref name, .. } if name == "env"));
    let step = overlay_key(Overlay::<&str>::AiEngineTokenForm(tokens()), Key::Up);
    let form = match step.next {
        Some(Overlay::AiEngineTokenForm(f)) => f,
        _ => panic!("unexpected dialog"),
    };
    assert_eq!(form.index, 1);
    let step = overlay_key(Overlay::<&str>::AiEngineTokenForm(form), Key::Char('e'));
    let form = match step.next {
        Some(Overlay::AiEngineTokenForm(f)) => f,
        _ => panic!("unexpected dialog"),
    };
    assert!(form.adding);
    assert_eq!(form.name, chars("mine"));
    assert_eq!(form.field, 1);
    let (pasted, taken) = overlay_paste(Overlay::<&str>::AiEngineTokenForm(form), " uuid:1\n");
    assert!(taken);
    let form = match pasted {
        Overlay::AiEngineTokenForm(f) => f,
        _ => panic!("unexpected dialog"),
    };
    assert_eq!(form.token, chars("uuid:1"));
    let step = overlay_key(Overlay::<&str>::AiEngineTokenForm(form), Key::Enter);
    assert!(matches!(step.effect, Effect::SubmitAiEngineToken(_)));
    let step = overlay_key(Overlay::<&str>::AiEngineTokenForm(tokens()), Key::Char('n'));
    match step.next {
        Some(Overlay::AiEngineTokenForm(f)) => assert!(f.adding && f.field == 0 && f.name.is_empty()),
        _ => panic!("unexpected dialog"),
    }
}
