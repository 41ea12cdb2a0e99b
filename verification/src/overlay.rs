//! The dialogs shown over a screen and what a key does to them: the help, a
//! message, a confirmation, and the pickers of services, zones, registry logins
//! and credentials. The key either keeps the dialog open (changed or not) or
//! closes it, and may ask the client to do something.

use vstd::prelude::*;

use crate::account_forms::{
    credential_key, credential_paste, spec_credential_key, spec_credential_paste, IamCredentialForm,
    IamCredentialFormView,
};
use crate::ai_engine_tokens::{
    spec_env_token_note, spec_token_key, token_form_wf, AiEngineTokenForm, TokenAction, TokenActionView, TokenFormView,
};
use crate::dialogs::{
    line_count, message_key, spec_confirm_step, spec_message_key, spec_typed_after, ConfirmPrompt,
    ConfirmStep,
};
use crate::keys::{
    login_step, picker_step, profile_step, spec_login_step, spec_picker_step, spec_profile_step,
    spec_zone_picker_step, zone_picker_step, Key, LoginStep, PickerStep, ProfileStep,
};
use crate::service::Service;
use crate::state::{sanitize_paste, spec_sanitize_paste, StatusKind};
use crate::text::{chars_of, string_from_chars};

verus! {

/// A dialog over the screen. `A` is the action a confirmation runs. It has no
/// `Debug`: the credential form holds a private key.
pub enum Overlay<A> {
    /// The key help; any key closes it.
    Help,
    /// A message, scrolled to `scroll` lines.
    Message { title: String, body: Vec<char>, kind: StatusKind, scroll: u16 },
    /// A confirmation of `action`; `verify` is the name to be typed for an
    /// irreversible one, and `typed` what has been typed.
    Confirm { title: String, body: String, verify: Option<Vec<char>>, typed: Vec<char>, action: A },
    /// The service picker at catalogue position `index`; `initial` when shown at
    /// start-up.
    ServicePicker { index: usize, initial: bool },
    /// The zone picker over the names of the zones.
    ZonePicker { zones: Vec<String>, index: usize },
    /// The saved logins of a registry, followed by a row for a new login.
    LoginPicker { host: String, accounts: Vec<String>, index: usize },
    /// The credentials to switch to, followed by a row for a new profile.
    ProfilePicker { sources: Vec<String>, index: usize },
    /// The key of an IAM service principal.
    IamCredentialForm(IamCredentialForm),
    /// The saved AI Engine tokens.
    AiEngineTokenForm(AiEngineTokenForm),
}

/// What a dialog is, with its texts as character sequences.
pub enum OverlayView<A> {
    Help,
    Message { title: Seq<char>, body: Seq<char>, kind: StatusKind, scroll: u16 },
    Confirm { title: Seq<char>, body: Seq<char>, verify: Option<Seq<char>>, typed: Seq<char>, action: A },
    ServicePicker { index: usize, initial: bool },
    ZonePicker { zones: Seq<Seq<char>>, index: usize },
    LoginPicker { host: Seq<char>, accounts: Seq<Seq<char>>, index: usize },
    ProfilePicker { sources: Seq<Seq<char>>, index: usize },
    IamCredentialForm(IamCredentialFormView),
    AiEngineTokenForm(TokenFormView),
}

pub open spec fn texts_view(v: Seq<String>) -> Seq<Seq<char>> {
    v.map_values(|s: String| s@)
}

pub open spec fn optional_text_view(v: Option<Vec<char>>) -> Option<Seq<char>> {
    match v {
        Some(t) => Some(t@),
        None => None,
    }
}

impl<A> View for Overlay<A> {
    type V = OverlayView<A>;

    open spec fn view(&self) -> OverlayView<A> {
        match *self {
            Overlay::Help => OverlayView::Help,
            Overlay::Message { title, body, kind, scroll } => OverlayView::Message {
                title: title@,
                body: body@,
                kind,
                scroll,
            },
            Overlay::Confirm { title, body, verify, typed, action } => OverlayView::Confirm {
                title: title@,
                body: body@,
                verify: optional_text_view(verify),
                typed: typed@,
                action,
            },
            Overlay::ServicePicker { index, initial } => OverlayView::ServicePicker { index, initial },
            Overlay::ZonePicker { zones, index } => OverlayView::ZonePicker { zones: texts_view(zones@), index },
            Overlay::LoginPicker { host, accounts, index } => OverlayView::LoginPicker {
                host: host@,
                accounts: texts_view(accounts@),
                index,
            },
            Overlay::ProfilePicker { sources, index } => OverlayView::ProfilePicker {
                sources: texts_view(sources@),
                index,
            },
            Overlay::IamCredentialForm(f) => OverlayView::IamCredentialForm(f@),
            Overlay::AiEngineTokenForm(f) => OverlayView::AiEngineTokenForm(f@),
        }
    }
}

/// Whether the cursor of a picker is on one of its rows.
pub open spec fn overlay_wf<A>(o: OverlayView<A>) -> bool {
    match o {
        OverlayView::ServicePicker { index, .. } => index < 45,
        OverlayView::ZonePicker { zones, index } => index < zones.len(),
        OverlayView::LoginPicker { accounts, index, .. } => index <= accounts.len() < usize::MAX,
        OverlayView::ProfilePicker { sources, index } => index <= sources.len() < usize::MAX,
        OverlayView::IamCredentialForm(f) => f.field < 3,
        OverlayView::AiEngineTokenForm(f) => token_form_wf(f),
        _ => true,
    }
}

/// What a key in a dialog asks the client to do.
pub enum Effect<A> {
    Nothing,
    /// Leave the client.
    Quit,
    /// Reopen the form that was being filled in when the message came.
    RestorePendingForm,
    /// Run the confirmed action.
    Run(A),
    SwitchService(Service),
    SwitchZone(String),
    /// Log in to `host` with the saved account `username`.
    LoginWithSaved { host: String, username: String },
    /// Open an empty login form for `host`.
    OpenLoginForm { host: String },
    OpenProfileForm,
    /// Switch to the credentials of this row.
    SwitchProfile(usize),
    /// Ask whether to delete the credentials of this row.
    DeleteProfile(usize),
    /// Give the credentials of this row their next colour.
    CycleProfileColor(usize),
    /// Check the typed key of a service principal, then register it.
    SubmitIamCredentials(IamCredentialForm),
    /// Check the typed AI Engine token, then save it.
    SubmitAiEngineToken(AiEngineTokenForm),
    /// Use the saved AI Engine token of this name.
    SelectAiEngineToken(String),
    /// Copy the saved AI Engine token of this name; the dialog is handed back.
    CopyAiEngineToken { name: String, form: AiEngineTokenForm },
    /// Ask whether to delete the saved AI Engine token of this name.
    DeleteAiEngineToken(String),
}

pub enum EffectView<A> {
    Nothing,
    Quit,
    RestorePendingForm,
    Run(A),
    SwitchService(Service),
    SwitchZone(Seq<char>),
    LoginWithSaved { host: Seq<char>, username: Seq<char> },
    OpenLoginForm { host: Seq<char> },
    OpenProfileForm,
    SwitchProfile(usize),
    DeleteProfile(usize),
    CycleProfileColor(usize),
    SubmitIamCredentials(IamCredentialFormView),
    SubmitAiEngineToken(TokenFormView),
    SelectAiEngineToken(Seq<char>),
    CopyAiEngineToken { name: Seq<char>, form: TokenFormView },
    DeleteAiEngineToken(Seq<char>),
}

impl<A> View for Effect<A> {
    type V = EffectView<A>;

    open spec fn view(&self) -> EffectView<A> {
        match *self {
            Effect::Nothing => EffectView::Nothing,
            Effect::Quit => EffectView::Quit,
            Effect::RestorePendingForm => EffectView::RestorePendingForm,
            Effect::Run(a) => EffectView::Run(a),
            Effect::SwitchService(s) => EffectView::SwitchService(s),
            Effect::SwitchZone(z) => EffectView::SwitchZone(z@),
            Effect::LoginWithSaved { host, username } => EffectView::LoginWithSaved { host: host@, username: username@ },
            Effect::OpenLoginForm { host } => EffectView::OpenLoginForm { host: host@ },
            Effect::OpenProfileForm => EffectView::OpenProfileForm,
            Effect::SwitchProfile(i) => EffectView::SwitchProfile(i),
            Effect::DeleteProfile(i) => EffectView::DeleteProfile(i),
            Effect::CycleProfileColor(i) => EffectView::CycleProfileColor(i),
            Effect::SubmitIamCredentials(f) => EffectView::SubmitIamCredentials(f@),
            Effect::SubmitAiEngineToken(f) => EffectView::SubmitAiEngineToken(f@),
            Effect::SelectAiEngineToken(n) => EffectView::SelectAiEngineToken(n@),
            Effect::CopyAiEngineToken { name, form } => EffectView::CopyAiEngineToken { name: name@, form: form@ },
            Effect::DeleteAiEngineToken(n) => EffectView::DeleteAiEngineToken(n@),
        }
    }
}

/// The outcome of a key in a dialog: the dialog after it (`None` when closed),
/// what the client is asked to do, and a line for the status bar.
pub struct OverlayStep<A> {
    pub next: Option<Overlay<A>>,
    pub effect: Effect<A>,
    pub status: Option<(String, StatusKind)>,
}

pub struct OverlayStepView<A> {
    pub next: Option<OverlayView<A>>,
    pub effect: EffectView<A>,
    pub status: Option<(Seq<char>, StatusKind)>,
}

impl<A> View for OverlayStep<A> {
    type V = OverlayStepView<A>;

    open spec fn view(&self) -> OverlayStepView<A> {
        OverlayStepView {
            next: match self.next {
                Some(o) => Some(o@),
                None => None,
            },
            effect: self.effect@,
            status: match self.status {
                Some((t, k)) => Some((t@, k)),
                None => None,
            },
        }
    }
}

/// The status line when the typed name differs from the one asked for.
pub open spec fn spec_mismatch_status(expected: Seq<char>) -> Seq<char> {
    "「"@ + expected + "」と一致していません"@
}

pub open spec fn stays<A>(o: OverlayView<A>) -> OverlayStepView<A> {
    OverlayStepView { next: Some(o), effect: EffectView::Nothing, status: None }
}

pub open spec fn closes<A>(effect: EffectView<A>) -> OverlayStepView<A> {
    OverlayStepView { next: None, effect, status: None }
}

/// What `key` does to the dialog `o`.
pub open spec fn spec_overlay_key<A>(o: OverlayView<A>, key: Key) -> OverlayStepView<A> {
    match o {
        OverlayView::Help => closes(EffectView::Nothing),
        OverlayView::Message { title, body, kind, scroll } => match spec_message_key(
            scroll,
            line_count(body) as u16,
            key,
        ) {
            None => closes(EffectView::RestorePendingForm),
            Some(s) => stays(OverlayView::Message { title, body, kind, scroll: s }),
        },
        OverlayView::Confirm { title, body, verify, typed, action } => match spec_confirm_step(verify, typed, key) {
            ConfirmStep::Run => closes(EffectView::Run(action)),
            ConfirmStep::Cancel => closes(EffectView::Nothing),
            ConfirmStep::Keep => stays(
                OverlayView::Confirm { title, body, verify, typed: spec_typed_after(verify, typed, key), action },
            ),
            ConfirmStep::Mismatch => OverlayStepView {
                next: Some(OverlayView::Confirm { title, body, verify, typed, action }),
                effect: EffectView::Nothing,
                status: Some((spec_mismatch_status(verify->0), StatusKind::Error)),
            },
        },
        OverlayView::ServicePicker { index, initial } => match spec_picker_step(index as int, initial, key) {
            PickerStep::Quit => closes(EffectView::Quit),
            PickerStep::Close => closes(EffectView::Nothing),
            PickerStep::Choose(i) => closes(EffectView::SwitchService(Service::ALL@[i as int])),
            PickerStep::Stay(i) => stays(OverlayView::ServicePicker { index: i, initial }),
        },
        OverlayView::ZonePicker { zones, index } => match spec_zone_picker_step(index as int, zones.len() as int, key) {
            None => closes(EffectView::Nothing),
            Some((true, i)) => closes(EffectView::SwitchZone(zones[i])),
            Some((false, i)) => stays(OverlayView::ZonePicker { zones, index: i as usize }),
        },
        OverlayView::LoginPicker { host, accounts, index } => match spec_login_step(
            index as int,
            accounts.len() as int,
            key,
        ) {
            LoginStep::Close => closes(EffectView::Nothing),
            LoginStep::UseSaved(i) => closes(EffectView::LoginWithSaved { host, username: accounts[i as int] }),
            LoginStep::NewLogin => closes(EffectView::OpenLoginForm { host }),
            LoginStep::Stay(i) => stays(OverlayView::LoginPicker { host, accounts, index: i }),
        },
        OverlayView::ProfilePicker { sources, index } => match spec_profile_step(
            index as int,
            sources.len() as int,
            key,
        ) {
            ProfileStep::Close => closes(EffectView::Nothing),
            ProfileStep::NewProfile => closes(EffectView::OpenProfileForm),
            ProfileStep::Switch(i) => closes(EffectView::SwitchProfile(i)),
            ProfileStep::Delete(i) => closes(EffectView::DeleteProfile(i)),
            ProfileStep::CycleColor(i) => OverlayStepView {
                next: Some(OverlayView::ProfilePicker { sources, index: i }),
                effect: EffectView::CycleProfileColor(i),
                status: None,
            },
            ProfileStep::Stay(i) => stays(OverlayView::ProfilePicker { sources, index: i }),
        },
        OverlayView::IamCredentialForm(f) => match spec_credential_key(f, key) {
            None => closes(EffectView::Nothing),
            Some((g, true)) => closes(EffectView::SubmitIamCredentials(g)),
            Some((g, false)) => stays(OverlayView::IamCredentialForm(g)),
        },
        OverlayView::AiEngineTokenForm(f) => {
            let (g, action) = spec_token_key(f, key);
            match action {
                TokenActionView::Nothing => stays(OverlayView::AiEngineTokenForm(g)),
                TokenActionView::Close => closes(EffectView::Nothing),
                TokenActionView::Submit => closes(EffectView::SubmitAiEngineToken(g)),
                TokenActionView::Select(n) => closes(EffectView::SelectAiEngineToken(n)),
                TokenActionView::Copy(n) => closes(EffectView::CopyAiEngineToken { name: n, form: g }),
                TokenActionView::Delete(n) => closes(EffectView::DeleteAiEngineToken(n)),
                TokenActionView::CannotDeleteFromEnv => OverlayStepView {
                    next: Some(OverlayView::AiEngineTokenForm(g)),
                    effect: EffectView::Nothing,
                    status: Some((spec_env_token_note(), StatusKind::Info)),
                },
            }
        },
    }
}

fn clone_text(s: &String) -> (r: String)
    ensures
        r@ == s@,
{
    s.clone()
}

/// The status line for a typed name that differs from `expected`.
pub fn mismatch_status(expected: &Vec<char>) -> (r: String)
    ensures
        r@ == spec_mismatch_status(expected@),
{
    let mut out: Vec<char> = Vec::new();
    out.push('「');
    let mut i: usize = 0;
    while i < expected.len()
        invariant
            i <= expected.len(),
            out@ == seq!['「'] + expected@.subrange(0, i as int),
        decreases expected.len() - i,
    {
        out.push(expected[i]);
        i = i + 1;
        assert(out@ =~= seq!['「'] + expected@.subrange(0, i as int));
    }
    let tail = crate::text::chars_of("」と一致していません");
    let ghost head = out@;
    let mut j: usize = 0;
    while j < tail.len()
        invariant
            j <= tail.len(),
            tail@ == "」と一致していません"@,
            out@ == head + tail@.subrange(0, j as int),
        decreases tail.len() - j,
    {
        out.push(tail[j]);
        j = j + 1;
        assert(out@ =~= head + tail@.subrange(0, j as int));
    }
    proof {
        reveal_strlit("「");
        assert(expected@.subrange(0, expected.len() as int) =~= expected@);
        assert(tail@.subrange(0, tail.len() as int) =~= tail@);
        assert(out@ =~= spec_mismatch_status(expected@));
    }
    string_from_chars(&out)
}

/// Applies a key to a dialog.
pub fn overlay_key<A>(o: Overlay<A>, key: Key) -> (r: OverlayStep<A>)
    requires
        overlay_wf(o@),
    ensures
        r@ == spec_overlay_key(o@, key),
        r.next matches Some(n) ==> overlay_wf(n@),
{
    match o {
        Overlay::Help => OverlayStep { next: None, effect: Effect::Nothing, status: None },
        Overlay::Message { title, body, kind, scroll } => match message_key(scroll, &body, key) {
            None => OverlayStep { next: None, effect: Effect::RestorePendingForm, status: None },
            Some(s) => OverlayStep {
                next: Some(Overlay::Message { title, body, kind, scroll: s }),
                effect: Effect::Nothing,
                status: None,
            },
        },
        Overlay::Confirm { title, body, verify, typed, action } => {
            let mut prompt = ConfirmPrompt { verify, typed };
            let step = prompt.key(key);
            let ConfirmPrompt { verify, typed } = prompt;
            match step {
                ConfirmStep::Run => OverlayStep { next: None, effect: Effect::Run(action), status: None },
                ConfirmStep::Cancel => OverlayStep { next: None, effect: Effect::Nothing, status: None },
                ConfirmStep::Keep => OverlayStep {
                    next: Some(Overlay::Confirm { title, body, verify, typed, action }),
                    effect: Effect::Nothing,
                    status: None,
                },
                ConfirmStep::Mismatch => {
                    let text = match &verify {
                        Some(expected) => mismatch_status(expected),
                        None => String::new(),
                    };
                    OverlayStep {
                        next: Some(Overlay::Confirm { title, body, verify, typed, action }),
                        effect: Effect::Nothing,
                        status: Some((text, StatusKind::Error)),
                    }
                },
            }
        },
        Overlay::ServicePicker { index, initial } => match picker_step(index, initial, key) {
            PickerStep::Quit => OverlayStep { next: None, effect: Effect::Quit, status: None },
            PickerStep::Close => OverlayStep { next: None, effect: Effect::Nothing, status: None },
            PickerStep::Choose(i) => OverlayStep {
                next: None,
                effect: Effect::SwitchService(Service::ALL[i]),
                status: None,
            },
            PickerStep::Stay(i) => {
                proof { crate::service::law_move_within_category_keeps_category(index as int, 1); }
                proof { crate::service::law_move_within_category_keeps_category(index as int, -1); }
                proof { crate::service::law_move_category_target(index as int, 1); }
                proof { crate::service::law_move_category_target(index as int, -1); }
                proof { lemma_block_ends_in_catalogue(index as int); }
                OverlayStep { next: Some(Overlay::ServicePicker { index: i, initial }), effect: Effect::Nothing, status: None }
            },
        },
        Overlay::ZonePicker { zones, index } => match zone_picker_step(index, zones.len(), key) {
            None => OverlayStep { next: None, effect: Effect::Nothing, status: None },
            Some((true, i)) => {
                let zone = clone_text(&zones[i]);
                OverlayStep { next: None, effect: Effect::SwitchZone(zone), status: None }
            },
            Some((false, i)) => {
                proof {
                    assert(0 <= (index + 1) % (zones.len() as int) < zones.len()) by (nonlinear_arith)
                        requires index < zones.len();
                    assert(0 <= (index + zones.len() - 1) % (zones.len() as int) < zones.len()) by (nonlinear_arith)
                        requires index < zones.len();
                }
                OverlayStep { next: Some(Overlay::ZonePicker { zones, index: i }), effect: Effect::Nothing, status: None }
            },
        },
        Overlay::LoginPicker { host, accounts, index } => match login_step(index, accounts.len(), key) {
            LoginStep::Close => OverlayStep { next: None, effect: Effect::Nothing, status: None },
            LoginStep::UseSaved(i) => {
                let username = clone_text(&accounts[i]);
                OverlayStep { next: None, effect: Effect::LoginWithSaved { host, username }, status: None }
            },
            LoginStep::NewLogin => OverlayStep { next: None, effect: Effect::OpenLoginForm { host }, status: None },
            LoginStep::Stay(i) => {
                proof { lemma_row_moves_stay(index as int, accounts.len() + 1); }
                OverlayStep {
                    next: Some(Overlay::LoginPicker { host, accounts, index: i }),
                    effect: Effect::Nothing,
                    status: None,
                }
            },
        },
        Overlay::ProfilePicker { sources, index } => match profile_step(index, sources.len(), key) {
            ProfileStep::Close => OverlayStep { next: None, effect: Effect::Nothing, status: None },
            ProfileStep::NewProfile => OverlayStep { next: None, effect: Effect::OpenProfileForm, status: None },
            ProfileStep::Switch(i) => OverlayStep { next: None, effect: Effect::SwitchProfile(i), status: None },
            ProfileStep::Delete(i) => OverlayStep { next: None, effect: Effect::DeleteProfile(i), status: None },
            ProfileStep::CycleColor(i) => OverlayStep {
                next: Some(Overlay::ProfilePicker { sources, index: i }),
                effect: Effect::CycleProfileColor(i),
                status: None,
            },
            ProfileStep::Stay(i) => {
                proof { lemma_row_moves_stay(index as int, sources.len() + 1); }
                OverlayStep {
                    next: Some(Overlay::ProfilePicker { sources, index: i }),
                    effect: Effect::Nothing,
                    status: None,
                }
            },
        },
        Overlay::IamCredentialForm(f) => {
            let mut f = f;
            let (open, submit) = credential_key(&mut f, key);
            if !open {
                OverlayStep { next: None, effect: Effect::Nothing, status: None }
            } else if submit {
                OverlayStep { next: None, effect: Effect::SubmitIamCredentials(f), status: None }
            } else {
                OverlayStep { next: Some(Overlay::IamCredentialForm(f)), effect: Effect::Nothing, status: None }
            }
        },
        Overlay::AiEngineTokenForm(f) => {
            let mut f = f;
            match f.key(key) {
                TokenAction::Nothing => OverlayStep {
                    next: Some(Overlay::AiEngineTokenForm(f)),
                    effect: Effect::Nothing,
                    status: None,
                },
                TokenAction::Close => OverlayStep { next: None, effect: Effect::Nothing, status: None },
                TokenAction::Submit => OverlayStep { next: None, effect: Effect::SubmitAiEngineToken(f), status: None },
                TokenAction::Select(n) => OverlayStep { next: None, effect: Effect::SelectAiEngineToken(n), status: None },
                TokenAction::Copy(n) => OverlayStep {
                    next: None,
                    effect: Effect::CopyAiEngineToken { name: n, form: f },
                    status: None,
                },
                TokenAction::Delete(n) => OverlayStep { next: None, effect: Effect::DeleteAiEngineToken(n), status: None },
                TokenAction::CannotDeleteFromEnv => {
                    let note = string_from_chars(&chars_of("環境変数のトークンはアプリから削除できません"));
                    OverlayStep {
                        next: Some(Overlay::AiEngineTokenForm(f)),
                        effect: Effect::Nothing,
                        status: Some((note, StatusKind::Info)),
                    }
                },
            }
        },
    }
}

/// What pasted text does to a dialog, and whether the dialog takes it (text it
/// does not take goes to the filter being typed, if any). The credential form
/// takes the text as it is, keeping the line breaks of a private key; the other
/// dialogs take it with control characters turned into spaces and the
/// surrounding whitespace removed, and an empty text is dropped. A confirmation
/// that asks for a name takes it into the name.
pub open spec fn spec_overlay_paste<A>(o: OverlayView<A>, raw: Seq<char>) -> (OverlayView<A>, bool) {
    let text = spec_sanitize_paste(raw);
    match o {
        OverlayView::IamCredentialForm(f) => if !f.verifying {
            (OverlayView::IamCredentialForm(spec_credential_paste(f, raw)), true)
        } else {
            (o, text.len() == 0)
        },
        OverlayView::Confirm { title, body, verify: Some(expected), typed, action } => (
            OverlayView::Confirm { title, body, verify: Some(expected), typed: typed + text, action },
            true,
        ),
        OverlayView::AiEngineTokenForm(f) => if text.len() == 0 {
            (o, true)
        } else if f.adding && !f.verifying {
            (OverlayView::AiEngineTokenForm(if f.field == 0 {
                TokenFormView { name: f.name + text, ..f }
            } else {
                TokenFormView { token: f.token + text, ..f }
            }), true)
        } else {
            (o, false)
        },
        _ => (o, text.len() == 0),
    }
}

/// Pastes text into a dialog; the result says whether the dialog took it.
pub fn overlay_paste<A>(o: Overlay<A>, raw: &str) -> (r: (Overlay<A>, bool))
    ensures
        (r.0@, r.1) == spec_overlay_paste(o@, raw@),
{
    match o {
        Overlay::IamCredentialForm(f) => {
            if !f.verifying {
                let mut f = f;
                credential_paste(&mut f, raw);
                return (Overlay::IamCredentialForm(f), true);
            }
            let text = sanitize_paste(raw);
            let empty = chars_of(text.as_str()).len() == 0;
            (Overlay::IamCredentialForm(f), empty)
        },
        Overlay::Confirm { title, body, verify, typed, action } => {
            let text = chars_of(sanitize_paste(raw).as_str());
            if verify.is_some() {
                let mut prompt = ConfirmPrompt { verify, typed };
                prompt.paste(&text);
                let ConfirmPrompt { verify, typed } = prompt;
                (Overlay::Confirm { title, body, verify, typed, action }, true)
            } else {
                let empty = text.len() == 0;
                (Overlay::Confirm { title, body, verify, typed, action }, empty)
            }
        },
        Overlay::AiEngineTokenForm(f) => {
            let text = chars_of(sanitize_paste(raw).as_str());
            if text.len() == 0 {
                return (Overlay::AiEngineTokenForm(f), true);
            }
            if f.adding && !f.verifying {
                let mut f = f;
                if f.field == 0 {
                    append_chars(&mut f.name, &text);
                } else {
                    append_chars(&mut f.token, &text);
                }
                (Overlay::AiEngineTokenForm(f), true)
            } else {
                (Overlay::AiEngineTokenForm(f), false)
            }
        },
        other => {
            let empty = chars_of(sanitize_paste(raw).as_str()).len() == 0;
            (other, empty)
        },
    }
}

fn append_chars(out: &mut Vec<char>, s: &Vec<char>)
    ensures
        final(out)@ == old(out)@ + s@,
{
    let mut i: usize = 0;
    while i < s.len()
        invariant
            i <= s.len(),
            out@ == old(out)@ + s@.subrange(0, i as int),
        decreases s.len() - i,
    {
        out.push(s[i]);
        i = i + 1;
        assert(out@ =~= old(out)@ + s@.subrange(0, i as int));
    }
    assert(s@.subrange(0, s.len() as int) =~= s@);
}

/// Moving a row up or down among `rows` stays among them.
proof fn lemma_row_moves_stay(index: int, rows: int)
    requires
        0 <= index < rows,
    ensures
        0 <= (index + 1) % rows < rows,
        0 <= (index + rows - 1) % rows < rows,
{
    assert(0 <= (index + 1) % rows < rows) by (nonlinear_arith)
        requires
            0 <= index < rows,
    ;
    assert(0 <= (index + rows - 1) % rows < rows) by (nonlinear_arith)
        requires
            0 <= index < rows,
    ;
}

/// The first and last services of a category are in the catalogue.
proof fn lemma_block_ends_in_catalogue(index: int)
    requires
        0 <= index < 45,
    ensures
        ({
            let block = crate::service::category_indices(crate::service::category_at(index));
            block.len() > 0 && block[0] < 45 && block[block.len() - 1] < 45
        }),
{
    let c = crate::service::category_at(index);
    crate::service::law_every_category_has_a_service(c);
    crate::service::lemma_indices_below(c, 45);
}

/// A confirmation that asks for a name runs its action only on Enter with the
/// name typed; Enter with anything else keeps the dialog as it was and reports
/// the mismatch in the status bar.
pub proof fn law_typed_confirmation<A>(
    title: Seq<char>,
    body: Seq<char>,
    expected: Seq<char>,
    typed: Seq<char>,
    action: A,
    key: Key,
)
    ensures
        ({
            let o = OverlayView::Confirm { title, body, verify: Some(expected), typed, action };
            let r = spec_overlay_key(o, key);
            &&& (r.effect == EffectView::Run(action)) <==> (key == Key::Enter && typed == expected)
            &&& (key == Key::Enter && typed != expected) ==> (r.next == Some(o) && r.status == Some(
                (spec_mismatch_status(expected), StatusKind::Error),
            ))
        }),
{
}

} // verus!
