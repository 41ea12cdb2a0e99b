//! The forms for registry users and IAM resources: what they check before
//! anything is sent, which call a form turns into, and the label of the action.

use vstd::prelude::*;

use crate::keys::Key;
use crate::state::{paste_identifier, spec_paste_identifier};
use crate::text::{
    all_digits, all_digits_exec, chars_of, decimal, digits_value, u64_to_decimal, parse_decimal_u64, parse_unsigned,
    parse_unsigned_exec, str_eq, string_from_chars, trim, trim_str,
};

verus! {

/// `str::parse::<i64>`: an optional sign, then one or more decimal digits, within
/// the range of `i64`.
pub open spec fn parse_i64(s: Seq<char>) -> Option<int> {
    if s.len() > 0 && s[0] == '-' {
        let body = s.drop_first();
        if body.len() == 0 || !all_digits(body) || digits_value(body) > 0x8000_0000_0000_0000 {
            None
        } else {
            Some(-digits_value(body))
        }
    } else {
        match parse_unsigned(s, i64::MAX as nat) {
            Some(n) => Some(n as int),
            None => None,
        }
    }
}

/// Reads an `i64` as `str::parse` does.
pub fn parse_i64_text(s: &str) -> (r: Option<i64>)
    ensures
        r is Some <==> parse_i64(s@) is Some,
        r is Some ==> r->0 == parse_i64(s@)->0,
{
    let v = chars_of(s);
    if v.len() > 0 && v[0] == '-' {
        let mut body: Vec<char> = Vec::new();
        let mut i: usize = 1;
        while i < v.len()
            invariant
                1 <= i <= v.len(),
                body@ == v@.subrange(1, i as int),
            decreases v.len() - i,
        {
            body.push(v[i]);
            i = i + 1;
            assert(body@ =~= v@.subrange(1, i as int));
        }
        assert(body@ =~= v@.drop_first());
        if body.len() == 0 || !all_digits_exec(&body) {
            return None;
        }
        match parse_decimal_u64(&body, 0x8000_0000_0000_0000) {
            None => None,
            Some(n) => {
                if n == 0x8000_0000_0000_0000 {
                    Some(i64::MIN)
                } else {
                    Some(-(n as i64))
                }
            },
        }
    } else {
        match parse_unsigned_exec(&v, i64::MAX as u64) {
            Some(n) => Some(n as i64),
            None => None,
        }
    }
}

pub(crate) fn push_str(out: &mut Vec<char>, s: &str)
    ensures
        final(out)@ == old(out)@ + s@,
{
    let v = chars_of(s);
    let mut i: usize = 0;
    while i < v.len()
        invariant
            i <= v.len(),
            v@ == s@,
            out@ == old(out)@ + v@.subrange(0, i as int),
        decreases v.len() - i,
    {
        out.push(v[i]);
        i = i + 1;
        assert(out@ =~= old(out)@ + v@.subrange(0, i as int));
    }
    assert(v@.subrange(0, v.len() as int) =~= v@);
}

/// Adding a registry user, or editing one.
#[derive(Debug, Clone, Copy, PartialEq, Eq, Structural)]
pub enum UserFormMode {
    Add,
    Edit,
}

/// What a registry user form sends. The permission chosen in the form goes with
/// either call.
#[derive(Debug, Clone, Copy, PartialEq, Eq, Structural)]
pub enum UserCall {
    /// Add the user with its name and password.
    Add,
    /// Update the user; the password is sent only when one was typed, otherwise
    /// only the permission changes.
    Update { change_password: bool },
}

/// What a registry user form sends, with the label of the action and whether the
/// login may be saved afterwards (only when a password was given).
#[derive(Debug, Clone, PartialEq, Eq)]
pub struct UserRequest {
    pub call: UserCall,
    pub label: String,
    pub offer_login: bool,
}

pub open spec fn spec_user_form_error(mode: UserFormMode, username: Seq<char>, password: Seq<char>) -> Option<Seq<char>> {
    if mode == UserFormMode::Add && (username.len() == 0 || password.len() == 0) {
        Some("ユーザー名とパスワードを入力してください"@)
    } else {
        None
    }
}

pub open spec fn spec_user_call(mode: UserFormMode, password: Seq<char>) -> UserCall {
    match mode {
        UserFormMode::Add => UserCall::Add,
        UserFormMode::Edit => UserCall::Update { change_password: password.len() > 0 },
    }
}

pub open spec fn spec_user_label(mode: UserFormMode, username: Seq<char>) -> Seq<char> {
    "ユーザー「"@ + username + match mode {
        UserFormMode::Add => "」を追加"@,
        UserFormMode::Edit => "」を更新"@,
    }
}

/// Checks a registry user form and tells what it sends: adding needs a name and a
/// password; an edit with an empty password changes only the permission.
pub fn user_request(mode: UserFormMode, username: &str, password: &str) -> (r: Result<UserRequest, &'static str>)
    ensures
        r is Err <==> spec_user_form_error(mode, username@, password@) is Some,
        r matches Err(e) ==> e@ == spec_user_form_error(mode, username@, password@)->0,
        r matches Ok(req) ==> req.call == spec_user_call(mode, password@) && req.label@ == spec_user_label(
            mode,
            username@,
        ) && req.offer_login == (password@.len() > 0),
{
    let name_len = chars_of(username).len();
    let password_len = chars_of(password).len();
    if mode == UserFormMode::Add && (name_len == 0 || password_len == 0) {
        return Err("ユーザー名とパスワードを入力してください");
    }
    let mut label: Vec<char> = Vec::new();
    push_str(&mut label, "ユーザー「");
    push_str(&mut label, username);
    match mode {
        UserFormMode::Add => push_str(&mut label, "」を追加"),
        UserFormMode::Edit => push_str(&mut label, "」を更新"),
    }
    let call = match mode {
        UserFormMode::Add => UserCall::Add,
        UserFormMode::Edit => UserCall::Update { change_password: password_len > 0 },
    };
    Ok(UserRequest { call, label: string_from_chars(&label), offer_login: password_len > 0 })
}

/// Editing a user with an empty password changes only its permission, and does
/// not offer to save a login.
pub proof fn law_empty_password_changes_only_permissions(username: Seq<char>)
    ensures
        spec_user_form_error(UserFormMode::Edit, username, Seq::empty()) is None,
        spec_user_call(UserFormMode::Edit, Seq::empty()) == (UserCall::Update { change_password: false }),
{
}

/// Creating an IAM resource, or editing one.
#[derive(Debug, Clone, Copy, PartialEq, Eq, Structural)]
pub enum IamResourceFormMode {
    Create,
    Edit,
}

/// The IAM resource form as typed. It has no `Debug`: its text for logs is
/// [`IamResourceForm::redacted_debug`], which never shows the password.
#[derive(Clone)]
pub struct IamResourceForm {
    pub mode: IamResourceFormMode,
    /// One of ユーザー, プロジェクト, グループ, サービスプリンシパル.
    pub resource_type: String,
    pub name: String,
    pub code: String,
    pub password: String,
    pub description: String,
    /// The e-mail of a user, the parent project of a project, or the project ID of
    /// a service principal.
    pub extra: String,
    pub target_id: Option<String>,
    /// The field being typed in.
    pub field: usize,
}

/// A text in double quotes.
pub open spec fn quoted(s: Seq<char>) -> Seq<char> {
    "\""@ + s + "\""@
}

/// The text of an IAM resource form for logs: every field but the password,
/// which shows as `<redacted>`.
pub open spec fn spec_redacted_debug(f: IamResourceForm) -> Seq<char> {
    "IamResourceForm { mode: "@ + match f.mode {
        IamResourceFormMode::Create => "Create"@,
        IamResourceFormMode::Edit => "Edit"@,
    } + ", resource_type: "@ + quoted(f.resource_type@) + ", target_id: "@ + match f.target_id {
        Some(id) => "Some("@ + quoted(id@) + ")"@,
        None => "None"@,
    } + ", name: "@ + quoted(f.name@) + ", code: "@ + quoted(f.code@) + ", password: <redacted>, description: "@
        + quoted(f.description@) + ", extra: "@ + quoted(f.extra@) + ", field: "@ + decimal(f.field as nat) + " }"@
}

/// The text of a form never depends on its password.
pub proof fn law_redacted_debug_ignores_password(f: IamResourceForm, g: IamResourceForm)
    requires
        f.mode == g.mode,
        f.resource_type@ == g.resource_type@,
        f.name@ == g.name@,
        f.code@ == g.code@,
        f.description@ == g.description@,
        f.extra@ == g.extra@,
        f.field == g.field,
        (f.target_id is Some) == (g.target_id is Some),
        f.target_id is Some ==> f.target_id->0@ == g.target_id->0@,
    ensures
        spec_redacted_debug(f) == spec_redacted_debug(g),
{
}

fn push_quoted(out: &mut Vec<char>, s: &str)
    ensures
        final(out)@ == old(out)@ + quoted(s@),
{
    push_str(out, "\"");
    push_str(out, s);
    push_str(out, "\"");
    assert(final(out)@ =~= old(out)@ + quoted(s@));
}

impl IamResourceForm {
    /// The text of the form for logs, with the password left out.
    #[verifier::rlimit(40)]
    pub fn redacted_debug(&self) -> (r: String)
        ensures
            r@ == spec_redacted_debug(*self),
    {
        let mut out: Vec<char> = Vec::new();
        push_str(&mut out, "IamResourceForm { mode: ");
        assert(out@ =~= "IamResourceForm { mode: "@);
        match self.mode {
            IamResourceFormMode::Create => push_str(&mut out, "Create"),
            IamResourceFormMode::Edit => push_str(&mut out, "Edit"),
        }
        push_str(&mut out, ", resource_type: ");
        push_quoted(&mut out, self.resource_type.as_str());
        push_str(&mut out, ", target_id: ");
        match &self.target_id {
            Some(id) => {
                push_str(&mut out, "Some(");
                push_quoted(&mut out, id.as_str());
                push_str(&mut out, ")");
            },
            None => push_str(&mut out, "None"),
        }
        push_str(&mut out, ", name: ");
        push_quoted(&mut out, self.name.as_str());
        push_str(&mut out, ", code: ");
        push_quoted(&mut out, self.code.as_str());
        push_str(&mut out, ", password: <redacted>, description: ");
        push_quoted(&mut out, self.description.as_str());
        push_str(&mut out, ", extra: ");
        push_quoted(&mut out, self.extra.as_str());
        push_str(&mut out, ", field: ");
        let digits = u64_to_decimal(self.field as u64);
        let mut i: usize = 0;
        let ghost start = out@;
        while i < digits.len()
            invariant
                i <= digits.len(),
                out@ == start + digits@.subrange(0, i as int),
            decreases digits.len() - i,
        {
            out.push(digits[i]);
            i = i + 1;
            assert(out@ =~= start + digits@.subrange(0, i as int));
        }
        assert(digits@.subrange(0, digits.len() as int) =~= digits@);
        push_str(&mut out, " }");
        string_from_chars(&out)
    }
}

/// Which call an IAM resource form turns into. Names, codes and descriptions go
/// as typed; the target of an edit is the form's `target_id`.
#[derive(Debug, Clone, Copy, PartialEq, Eq, Structural)]
pub enum IamCall {
    CreateUser,
    /// The parent project, when one was given and reads as a number.
    CreateProject { parent: Option<i64> },
    CreateGroup,
    CreateServicePrincipal { project_id: i64 },
    /// The password goes only when one was typed.
    UpdateUser { change_password: bool },
    UpdateProject,
    UpdateGroup,
    UpdateServicePrincipal,
    /// No call exists for this kind of resource; the action fails.
    Unsupported,
}

/// A checked IAM resource form: the call and the label of the action.
#[derive(Debug, Clone, PartialEq, Eq)]
pub struct IamResourceInput {
    pub call: IamCall,
    pub label: String,
}

/// Why an IAM resource form cannot be sent, if it cannot.
pub open spec fn spec_iam_resource_error(f: IamResourceForm) -> Option<Seq<char>> {
    let create = f.mode == IamResourceFormMode::Create;
    if trim(f.name@).len() == 0 {
        Some("名前を入力してください"@)
    } else if create && f.resource_type@ == "ユーザー"@ && (f.code@.len() == 0 || f.password@.len() == 0) {
        Some("ユーザーコードとパスワードを入力してください"@)
    } else if create && f.resource_type@ == "プロジェクト"@ && f.code@.len() == 0 {
        Some("プロジェクトコードを入力してください"@)
    } else if create && f.resource_type@ == "サービスプリンシパル"@ && parse_i64(f.extra@) is None {
        Some("プロジェクトIDを数値で入力してください"@)
    } else {
        None
    }
}

/// The call an IAM resource form turns into.
pub open spec fn spec_iam_call(f: IamResourceForm) -> IamCall {
    let t = f.resource_type@;
    match f.mode {
        IamResourceFormMode::Create => if t == "ユーザー"@ {
            IamCall::CreateUser
        } else if t == "プロジェクト"@ {
            IamCall::CreateProject {
                parent: if f.extra@.len() == 0 {
                    None
                } else {
                    match parse_i64(f.extra@) {
                        Some(n) => Some(n as i64),
                        None => None,
                    }
                },
            }
        } else if t == "グループ"@ {
            IamCall::CreateGroup
        } else if t == "サービスプリンシパル"@ {
            IamCall::CreateServicePrincipal {
                project_id: match parse_i64(f.extra@) {
                    Some(n) => n as i64,
                    None => 0,
                },
            }
        } else {
            IamCall::Unsupported
        },
        IamResourceFormMode::Edit => if t == "ユーザー"@ {
            IamCall::UpdateUser { change_password: f.password@.len() > 0 }
        } else if t == "プロジェクト"@ {
            IamCall::UpdateProject
        } else if t == "グループ"@ {
            IamCall::UpdateGroup
        } else if t == "サービスプリンシパル"@ {
            IamCall::UpdateServicePrincipal
        } else {
            IamCall::Unsupported
        },
    }
}

/// The label of the action: the kind, the name in brackets, and what is done.
pub open spec fn spec_iam_label(f: IamResourceForm) -> Seq<char> {
    f.resource_type@ + "「"@ + f.name@ + "」を"@ + match f.mode {
        IamResourceFormMode::Create => "作成"@,
        IamResourceFormMode::Edit => "更新"@,
    }
}

/// Checks an IAM resource form and tells what it sends.
pub fn iam_resource_input(f: &IamResourceForm) -> (r: Result<IamResourceInput, &'static str>)
    ensures
        r is Ok <==> spec_iam_resource_error(*f) is None,
        r matches Err(e) ==> e@ == spec_iam_resource_error(*f)->0,
        r matches Ok(input) ==> input.call == spec_iam_call(*f) && input.label@ == spec_iam_label(*f),
{
    let create = f.mode == IamResourceFormMode::Create;
    let t = f.resource_type.as_str();
    let is_user = str_eq(t, "ユーザー");
    let is_project = str_eq(t, "プロジェクト");
    let is_group = str_eq(t, "グループ");
    let is_principal = str_eq(t, "サービスプリンシパル");
    let code_empty = chars_of(f.code.as_str()).len() == 0;
    let password_empty = chars_of(f.password.as_str()).len() == 0;
    let extra_empty = chars_of(f.extra.as_str()).len() == 0;
    let extra_number = parse_i64_text(f.extra.as_str());
    if trim_str(f.name.as_str()).len() == 0 {
        return Err("名前を入力してください");
    }
    if create && is_user && (code_empty || password_empty) {
        return Err("ユーザーコードとパスワードを入力してください");
    }
    if create && is_project && code_empty {
        return Err("プロジェクトコードを入力してください");
    }
    if create && is_principal && extra_number.is_none() {
        return Err("プロジェクトIDを数値で入力してください");
    }
    let call = if create {
        if is_user {
            IamCall::CreateUser
        } else if is_project {
            IamCall::CreateProject { parent: if extra_empty { None } else { extra_number } }
        } else if is_group {
            IamCall::CreateGroup
        } else if is_principal {
            IamCall::CreateServicePrincipal {
                project_id: match extra_number {
                    Some(n) => n,
                    None => 0,
                },
            }
        } else {
            IamCall::Unsupported
        }
    } else {
        if is_user {
            IamCall::UpdateUser { change_password: !password_empty }
        } else if is_project {
            IamCall::UpdateProject
        } else if is_group {
            IamCall::UpdateGroup
        } else if is_principal {
            IamCall::UpdateServicePrincipal
        } else {
            IamCall::Unsupported
        }
    };
    let mut label: Vec<char> = Vec::new();
    push_str(&mut label, t);
    push_str(&mut label, "「");
    push_str(&mut label, f.name.as_str());
    push_str(&mut label, "」を");
    if create {
        push_str(&mut label, "作成");
    } else {
        push_str(&mut label, "更新");
    }
    Ok(IamResourceInput { call, label: string_from_chars(&label) })
}

fn push_chars(out: &mut Vec<char>, s: &Vec<char>)
    ensures
        final(out)@ == old(out)@ + s@,
{
    let mut i: usize = 0;
    while i < s.len()
        invariant
            i <= s.len(),
            out@ == old(out)@ + s@.subrange(0, i as int),
        decreases s.len() - i,
    {
        out.push(s[i]);
        i = i + 1;
        assert(out@ =~= old(out)@ + s@.subrange(0, i as int));
    }
    assert(s@.subrange(0, s.len() as int) =~= s@);
}

/// The form that registers the key of an IAM service principal: its ID, the key
/// ID, and the private key in PEM, one field typed at a time. No `Debug`: its
/// text for logs is [`IamCredentialForm::redacted_debug`].
#[derive(Clone)]
pub struct IamCredentialForm {
    pub service_principal_id: Vec<char>,
    pub key_id: Vec<char>,
    pub private_key: Vec<char>,
    /// 0, 1 or 2: the ID, the key ID or the private key.
    pub field: usize,
    /// The credentials are being checked; keys wait.
    pub verifying: bool,
}

/// The form with its texts as character sequences.
pub struct IamCredentialFormView {
    pub service_principal_id: Seq<char>,
    pub key_id: Seq<char>,
    pub private_key: Seq<char>,
    pub field: usize,
    pub verifying: bool,
}

impl View for IamCredentialForm {
    type V = IamCredentialFormView;

    open spec fn view(&self) -> IamCredentialFormView {
        IamCredentialFormView {
            service_principal_id: self.service_principal_id@,
            key_id: self.key_id@,
            private_key: self.private_key@,
            field: self.field,
            verifying: self.verifying,
        }
    }
}

/// The text of a credential form for logs: the private key shows as
/// `<redacted>`.
pub open spec fn spec_credential_debug(f: IamCredentialFormView) -> Seq<char> {
    "IamCredentialForm { service_principal_id: "@ + quoted(f.service_principal_id) + ", key_id: "@ + quoted(f.key_id)
        + ", private_key: <redacted>, field: "@ + decimal(f.field as nat) + ", verifying: "@ + if f.verifying {
        "true"@
    } else {
        "false"@
    } + " }"@
}

/// The text of a credential form never depends on its private key.
pub proof fn law_credential_debug_ignores_private_key(f: IamCredentialFormView, g: IamCredentialFormView)
    requires
        f.service_principal_id == g.service_principal_id,
        f.key_id == g.key_id,
        f.field == g.field,
        f.verifying == g.verifying,
    ensures
        spec_credential_debug(f) == spec_credential_debug(g),
{
}

impl IamCredentialForm {
    /// The text of the form for logs, with the private key left out.
    #[verifier::rlimit(40)]
    pub fn redacted_debug(&self) -> (r: String)
        ensures
            r@ == spec_credential_debug(self@),
    {
        let mut out: Vec<char> = Vec::new();
        push_str(&mut out, "IamCredentialForm { service_principal_id: ");
        assert(out@ =~= "IamCredentialForm { service_principal_id: "@);
        push_str(&mut out, "\"");
        push_chars(&mut out, &self.service_principal_id);
        push_str(&mut out, "\"");
        push_str(&mut out, ", key_id: ");
        push_str(&mut out, "\"");
        push_chars(&mut out, &self.key_id);
        push_str(&mut out, "\"");
        push_str(&mut out, ", private_key: <redacted>, field: ");
        let digits = u64_to_decimal(self.field as u64);
        push_chars(&mut out, &digits);
        push_str(&mut out, ", verifying: ");
        if self.verifying {
            push_str(&mut out, "true");
        } else {
            push_str(&mut out, "false");
        }
        push_str(&mut out, " }");
        assert(out@ =~= spec_credential_debug(self@));
        string_from_chars(&out)
    }
}

/// What a key does to the credential form: `None` closes it without sending,
/// `Some((f, submit))` leaves it as `f`, sent for checking when `submit`. Keys
/// wait while the credentials are checked; Tab and the vertical keys move
/// between the fields, wrapping around; characters are typed into the two ID
/// fields only, the private key being pasted.
pub open spec fn spec_credential_key(f: IamCredentialFormView, key: Key) -> Option<(IamCredentialFormView, bool)> {
    if f.verifying {
        Some((f, false))
    } else {
        match key {
            Key::Esc => None,
            Key::Enter => Some((f, true)),
            Key::Tab | Key::Down => Some((IamCredentialFormView { field: ((f.field + 1) % 3) as usize, ..f }, false)),
            Key::BackTab | Key::Up => Some((IamCredentialFormView { field: ((f.field + 2) % 3) as usize, ..f }, false)),
            Key::Backspace => Some((
                if f.field == 0 {
                    IamCredentialFormView { service_principal_id: drop_last_char(f.service_principal_id), ..f }
                } else if f.field == 1 {
                    IamCredentialFormView { key_id: drop_last_char(f.key_id), ..f }
                } else {
                    IamCredentialFormView { private_key: drop_last_char(f.private_key), ..f }
                },
                false,
            )),
            Key::Char(c) => Some((
                if f.field == 0 {
                    IamCredentialFormView { service_principal_id: f.service_principal_id.push(c), ..f }
                } else if f.field == 1 {
                    IamCredentialFormView { key_id: f.key_id.push(c), ..f }
                } else {
                    f
                },
                false,
            )),
            _ => Some((f, false)),
        }
    }
}

/// The text without its last character (`String::pop`).
pub open spec fn drop_last_char(s: Seq<char>) -> Seq<char> {
    if s.len() == 0 {
        s
    } else {
        s.drop_last()
    }
}

fn pop_char(v: &mut Vec<char>)
    ensures
        final(v)@ == drop_last_char(old(v)@),
{
    if v.len() > 0 {
        v.pop();
    }
}

/// Applies a key to the credential form; the result says whether to close it
/// (`false`) and whether to send it.
pub fn credential_key(f: &mut IamCredentialForm, key: Key) -> (r: (bool, bool))
    requires
        old(f).field < 3,
    ensures
        final(f).field < 3,
        spec_credential_key(old(f)@, key) is None ==> !r.0 && final(f)@ == old(f)@,
        spec_credential_key(old(f)@, key) matches Some((g, submit)) ==> r.0 && final(f)@ == g && r.1 == submit,
{
    if f.verifying {
        return (true, false);
    }
    match key {
        Key::Esc => (false, false),
        Key::Enter => (true, true),
        Key::Tab | Key::Down => {
            f.field = if f.field == 2 { 0 } else { f.field + 1 };
            (true, false)
        },
        Key::BackTab | Key::Up => {
            f.field = if f.field == 0 { 2 } else { f.field - 1 };
            (true, false)
        },
        Key::Backspace => {
            if f.field == 0 {
                pop_char(&mut f.service_principal_id);
            } else if f.field == 1 {
                pop_char(&mut f.key_id);
            } else {
                pop_char(&mut f.private_key);
            }
            (true, false)
        },
        Key::Char(c) => {
            if f.field == 0 {
                f.service_principal_id.push(c);
            } else if f.field == 1 {
                f.key_id.push(c);
            }
            (true, false)
        },
        _ => (true, false),
    }
}

/// What pasted text does to the credential form: the private key keeps its line
/// breaks, with the surrounding whitespace removed; an ID loses its line breaks
/// and tabs too. Nothing is pasted while the credentials are checked.
pub open spec fn spec_credential_paste(f: IamCredentialFormView, text: Seq<char>) -> IamCredentialFormView {
    if f.verifying {
        f
    } else if f.field == 2 {
        IamCredentialFormView { private_key: f.private_key + trim(text), ..f }
    } else if f.field == 0 {
        IamCredentialFormView { service_principal_id: f.service_principal_id + spec_paste_identifier(text), ..f }
    } else {
        IamCredentialFormView { key_id: f.key_id + spec_paste_identifier(text), ..f }
    }
}

pub fn credential_paste(f: &mut IamCredentialForm, text: &str)
    ensures
        final(f)@ == spec_credential_paste(old(f)@, text@),
{
    if f.verifying {
        return;
    }
    if f.field == 2 {
        let t = trim_str(text);
        push_chars(&mut f.private_key, &t);
    } else {
        let v = paste_identifier(text);
        let t = chars_of(v.as_str());
        if f.field == 0 {
            push_chars(&mut f.service_principal_id, &t);
        } else {
            push_chars(&mut f.key_id, &t);
        }
    }
}

} // verus!
