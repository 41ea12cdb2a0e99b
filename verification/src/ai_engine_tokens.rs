//! The dialog of AI Engine tokens: the saved tokens, one of which is used, and a
//! form to add one. Tokens read from the environment can be used and copied but
//! neither edited nor deleted.

use vstd::prelude::*;

use crate::account_forms::{drop_last_char, push_str, quoted};
use crate::keys::Key;
use crate::text::{decimal, string_from_chars, u64_to_decimal};

verus! {

/// A saved token, by its name.
#[derive(Clone)]
pub struct TokenEntry {
    pub name: String,
    /// Read from the environment rather than saved by the client.
    pub from_env: bool,
}

/// The token dialog. No `Debug`: its text for logs is
/// [`AiEngineTokenForm::redacted_debug`], which leaves the token out.
#[derive(Clone)]
pub struct AiEngineTokenForm {
    pub entries: Vec<TokenEntry>,
    /// The row of the cursor in `entries`.
    pub index: usize,
    /// A token is being added (or a saved one given a new value).
    pub adding: bool,
    pub name: Vec<char>,
    pub token: Vec<char>,
    /// 0 for the name, 1 for the token.
    pub field: usize,
    /// The token is being checked; keys wait.
    pub verifying: bool,
}

impl Default for AiEngineTokenForm {
    fn default() -> (f: AiEngineTokenForm)
        ensures
            f.entries@.len() == 0,
            f.index == 0,
            !f.adding,
            f.name@.len() == 0,
            f.token@.len() == 0,
            f.field == 0,
            !f.verifying,
    {
        AiEngineTokenForm {
            entries: Vec::new(),
            index: 0,
            adding: false,
            name: Vec::new(),
            token: Vec::new(),
            field: 0,
            verifying: false,
        }
    }
}

pub struct TokenFormView {
    /// The names of the entries and whether each comes from the environment.
    pub entries: Seq<(Seq<char>, bool)>,
    pub index: usize,
    pub adding: bool,
    pub name: Seq<char>,
    pub token: Seq<char>,
    pub field: usize,
    pub verifying: bool,
}

impl View for AiEngineTokenForm {
    type V = TokenFormView;

    open spec fn view(&self) -> TokenFormView {
        TokenFormView {
            entries: self.entries@.map_values(|e: TokenEntry| (e.name@, e.from_env)),
            index: self.index,
            adding: self.adding,
            name: self.name@,
            token: self.token@,
            field: self.field,
            verifying: self.verifying,
        }
    }
}

/// The cursor is on a row, or on the place after the last one, and one of the
/// two fields is typed in.
pub open spec fn token_form_wf(f: TokenFormView) -> bool {
    f.index <= f.entries.len() < usize::MAX && f.field < 2
}

/// What a key asks the client to do.
pub enum TokenAction {
    Nothing,
    /// Close the dialog.
    Close,
    /// Check the typed token and save it; the dialog closes meanwhile.
    Submit,
    /// Use the saved token of this name; the dialog closes.
    Select(String),
    /// Copy the saved token of this name; the dialog closes.
    Copy(String),
    /// Ask whether to delete the saved token of this name; the dialog closes.
    Delete(String),
    /// Tell that a token of the environment cannot be deleted; the dialog stays.
    CannotDeleteFromEnv,
}

pub enum TokenActionView {
    Nothing,
    Close,
    Submit,
    Select(Seq<char>),
    Copy(Seq<char>),
    Delete(Seq<char>),
    CannotDeleteFromEnv,
}

impl View for TokenAction {
    type V = TokenActionView;

    open spec fn view(&self) -> TokenActionView {
        match *self {
            TokenAction::Nothing => TokenActionView::Nothing,
            TokenAction::Close => TokenActionView::Close,
            TokenAction::Submit => TokenActionView::Submit,
            TokenAction::Select(n) => TokenActionView::Select(n@),
            TokenAction::Copy(n) => TokenActionView::Copy(n@),
            TokenAction::Delete(n) => TokenActionView::Delete(n@),
            TokenAction::CannotDeleteFromEnv => TokenActionView::CannotDeleteFromEnv,
        }
    }
}

/// The status line when a token of the environment is to be deleted.
pub open spec fn spec_env_token_note() -> Seq<char> {
    "環境変数のトークンはアプリから削除できません"@
}

/// The form after starting to add a token: empty fields, the name typed first.
pub open spec fn start_adding(f: TokenFormView) -> TokenFormView {
    TokenFormView { adding: true, name: Seq::empty(), token: Seq::empty(), field: 0, ..f }
}

/// What a key does to the token dialog: the dialog after it, and the action.
pub open spec fn spec_token_key(f: TokenFormView, key: Key) -> (TokenFormView, TokenActionView) {
    let has_entry = f.index < f.entries.len();
    let entry = f.entries[f.index as int];
    if f.verifying {
        (f, TokenActionView::Nothing)
    } else if f.adding {
        match key {
            Key::Esc => (TokenFormView { adding: false, name: Seq::empty(), token: Seq::empty(), ..f }, TokenActionView::Nothing),
            Key::Enter => (f, TokenActionView::Submit),
            Key::Tab | Key::Down | Key::Up => (TokenFormView { field: ((f.field + 1) % 2) as usize, ..f }, TokenActionView::Nothing),
            Key::Backspace => (if f.field == 0 {
                TokenFormView { name: drop_last_char(f.name), ..f }
            } else {
                TokenFormView { token: drop_last_char(f.token), ..f }
            }, TokenActionView::Nothing),
            Key::Char(c) => (if f.field == 0 {
                TokenFormView { name: f.name.push(c), ..f }
            } else {
                TokenFormView { token: f.token.push(c), ..f }
            }, TokenActionView::Nothing),
            _ => (f, TokenActionView::Nothing),
        }
    } else {
        match key {
            Key::Esc => (f, TokenActionView::Close),
            Key::Char('n') => (start_adding(f), TokenActionView::Nothing),
            Key::Char('e') => if has_entry && !entry.1 {
                (TokenFormView { adding: true, name: entry.0, token: Seq::empty(), field: 1, ..f }, TokenActionView::Nothing)
            } else {
                (f, TokenActionView::Nothing)
            },
            Key::Enter => if has_entry {
                (f, TokenActionView::Select(entry.0))
            } else {
                (TokenFormView { adding: true, ..f }, TokenActionView::Nothing)
            },
            Key::Char('y') => if has_entry { (f, TokenActionView::Copy(entry.0)) } else { (f, TokenActionView::Nothing) },
            Key::Char('d') => if !has_entry {
                (f, TokenActionView::Nothing)
            } else if entry.1 {
                (f, TokenActionView::CannotDeleteFromEnv)
            } else {
                (f, TokenActionView::Delete(entry.0))
            },
            Key::Down | Key::Char('j') => if f.entries.len() > 0 {
                (TokenFormView { index: ((f.index + 1) % (f.entries.len() as int)) as usize, ..f }, TokenActionView::Nothing)
            } else {
                (f, TokenActionView::Nothing)
            },
            Key::Up | Key::Char('k') => if f.entries.len() > 0 {
                (
                    TokenFormView { index: ((f.index + f.entries.len() - 1) % (f.entries.len() as int)) as usize, ..f },
                    TokenActionView::Nothing,
                )
            } else {
                (f, TokenActionView::Nothing)
            },
            _ => (f, TokenActionView::Nothing),
        }
    }
}

fn clone_chars(v: &String) -> (r: Vec<char>)
    ensures
        r@ == v@,
{
    crate::text::chars_of(v.as_str())
}

fn pop_char(v: &mut Vec<char>)
    ensures
        final(v)@ == drop_last_char(old(v)@),
{
    if v.len() > 0 {
        v.pop();
    }
}

impl AiEngineTokenForm {
    /// Applies a key to the dialog.
    pub fn key(&mut self, key: Key) -> (r: TokenAction)
        requires
            token_form_wf(old(self)@),
        ensures
            token_form_wf(final(self)@),
            (final(self)@, r@) == spec_token_key(old(self)@, key),
    {
        let has_entry = self.index < self.entries.len();
        if self.verifying {
            return TokenAction::Nothing;
        }
        if self.adding {
            match key {
                Key::Esc => {
                    self.adding = false;
                    self.name = Vec::new();
                    self.token = Vec::new();
                    TokenAction::Nothing
                },
                Key::Enter => TokenAction::Submit,
                Key::Tab | Key::Down | Key::Up => {
                    self.field = if self.field == 0 { 1 } else { 0 };
                    TokenAction::Nothing
                },
                Key::Backspace => {
                    if self.field == 0 {
                        pop_char(&mut self.name);
                    } else {
                        pop_char(&mut self.token);
                    }
                    TokenAction::Nothing
                },
                Key::Char(c) => {
                    if self.field == 0 {
                        self.name.push(c);
                    } else {
                        self.token.push(c);
                    }
                    TokenAction::Nothing
                },
                _ => TokenAction::Nothing,
            }
        } else {
            match key {
                Key::Esc => TokenAction::Close,
                Key::Char('n') => {
                    self.adding = true;
                    self.name = Vec::new();
                    self.token = Vec::new();
                    self.field = 0;
                    TokenAction::Nothing
                },
                Key::Char('e') => {
                    if has_entry && !self.entries[self.index].from_env {
                        let name = clone_chars(&self.entries[self.index].name);
                        self.adding = true;
                        self.name = name;
                        self.token = Vec::new();
                        self.field = 1;
                    }
                    TokenAction::Nothing
                },
                Key::Enter => {
                    if has_entry {
                        TokenAction::Select(self.entries[self.index].name.clone())
                    } else {
                        self.adding = true;
                        TokenAction::Nothing
                    }
                },
                Key::Char('y') => {
                    if has_entry {
                        TokenAction::Copy(self.entries[self.index].name.clone())
                    } else {
                        TokenAction::Nothing
                    }
                },
                Key::Char('d') => {
                    if !has_entry {
                        TokenAction::Nothing
                    } else if self.entries[self.index].from_env {
                        TokenAction::CannotDeleteFromEnv
                    } else {
                        TokenAction::Delete(self.entries[self.index].name.clone())
                    }
                },
                Key::Down | Key::Char('j') => {
                    let len = self.entries.len();
                    if len > 0 {
                        let next = (self.index + 1) % len;
                        self.index = next;
                    }
                    TokenAction::Nothing
                },
                Key::Up | Key::Char('k') => {
                    let len = self.entries.len();
                    if len > 0 {
                        let previous = if self.index == 0 { len - 1 } else { (self.index - 1) % len };
                        assert(previous == (self.index + len - 1) % (len as int)) by (nonlinear_arith)
                            requires
                                self.index <= len,
                                len > 0,
                                previous == if self.index == 0 { len - 1 } else { (self.index - 1) % (len as int) },
                        {
                            if self.index > 0 {
                                vstd::arithmetic::div_mod::lemma_mod_add_multiples_vanish((self.index - 1) as int, len as int);
                            }
                        }
                        self.index = previous;
                    }
                    TokenAction::Nothing
                },
                _ => TokenAction::Nothing,
            }
        }
    }
}

/// The text of a token dialog for logs: everything but the token, which shows
/// as `<redacted>`.
pub open spec fn spec_token_form_debug(f: TokenFormView) -> Seq<char> {
    "AiEngineTokenForm { entries: "@ + decimal(f.entries.len()) + ", index: "@ + decimal(f.index as nat) + ", adding: "@
        + bool_text(f.adding) + ", name: "@ + quoted(f.name) + ", token: <redacted>, field: "@ + decimal(f.field as nat)
        + ", verifying: "@ + bool_text(f.verifying) + " }"@
}

pub open spec fn bool_text(b: bool) -> Seq<char> {
    if b {
        "true"@
    } else {
        "false"@
    }
}

fn push_chars(out: &mut Vec<char>, s: &Vec<char>)
    ensures
        final(out)@ == old(out)@ + s@,
{
    let mut i: usize = 0;
    while i < s.len()
        invariant
            i <= s.len(),
            out@ == old(out)@ + s@.subrange(0, i as int),
        decreases s.len() - i,
    {
        out.push(s[i]);
        i = i + 1;
        assert(out@ =~= old(out)@ + s@.subrange(0, i as int));
    }
    assert(s@.subrange(0, s.len() as int) =~= s@);
}

fn push_bool(out: &mut Vec<char>, b: bool)
    ensures
        final(out)@ == old(out)@ + bool_text(b),
{
    if b {
        push_str(out, "true");
    } else {
        push_str(out, "false");
    }
}

/// The text of a dialog never depends on its token.
pub proof fn law_token_debug_ignores_token(f: TokenFormView, g: TokenFormView)
    requires
        f.entries.len() == g.entries.len(),
        f.index == g.index,
        f.adding == g.adding,
        f.name == g.name,
        f.field == g.field,
        f.verifying == g.verifying,
    ensures
        spec_token_form_debug(f) == spec_token_form_debug(g),
{
}

impl AiEngineTokenForm {
    /// The text of the dialog for logs, with the token left out.
    #[verifier::rlimit(40)]
    pub fn redacted_debug(&self) -> (r: String)
        ensures
            r@ == spec_token_form_debug(self@),
    {
        let mut out: Vec<char> = Vec::new();
        push_str(&mut out, "AiEngineTokenForm { entries: ");
        assert(out@ =~= "AiEngineTokenForm { entries: "@);
        push_chars(&mut out, &u64_to_decimal(self.entries.len() as u64));
        push_str(&mut out, ", index: ");
        push_chars(&mut out, &u64_to_decimal(self.index as u64));
        push_str(&mut out, ", adding: ");
        push_bool(&mut out, self.adding);
        push_str(&mut out, ", name: ");
        push_str(&mut out, "\"");
        push_chars(&mut out, &self.name);
        push_str(&mut out, "\"");
        push_str(&mut out, ", token: <redacted>, field: ");
        push_chars(&mut out, &u64_to_decimal(self.field as u64));
        push_str(&mut out, ", verifying: ");
        push_bool(&mut out, self.verifying);
        push_str(&mut out, " }");
        assert(out@ =~= spec_token_form_debug(self@));
        string_from_chars(&out)
    }
}

} // verus!
