use sakura_tui::account_forms::{
    iam_resource_input, parse_i64_text, user_request, IamCall, IamResourceForm, IamResourceFormMode, UserCall,
    UserFormMode,
};

fn form(mode: IamResourceFormMode, resource_type: &str, name: &str) -> IamResourceForm {
    IamResourceForm {
        mode,
        resource_type: resource_type.to_string(),
        name: name.to_string(),
        code: String::new(),
        password: String::new(),
        description: String::new(),
        extra: String::new(),
        target_id: None,
        field: 0,
    }
}

#[test]
fn adding_a_user_needs_a_name_and_a_password() {
    assert_eq!(user_request(UserFormMode::Add, "", "pw"), Err("ユーザー名とパスワードを入力してください"));
    assert_eq!(user_request(UserFormMode::Add, "alice", ""), Err("ユーザー名とパスワードを入力してください"));
    let ok = user_request(UserFormMode::Add, "alice", "pw").unwrap();
    assert_eq!(ok.call, UserCall::Add);
    assert_eq!(ok.label, "ユーザー「alice」を追加");
    assert!(ok.offer_login);
}

#[test]
fn editing_a_user_with_an_empty_password_changes_only_the_permission() {
    let only_permission = user_request(UserFormMode::Edit, "alice", "").unwrap();
    assert_eq!(only_permission.call, UserCall::Update { change_password: false });
    assert!(!only_permission.offer_login);
    assert_eq!(only_permission.label, "ユーザー「alice」を更新");
    let with_password = user_request(UserFormMode::Edit, "alice", "new").unwrap();
    assert_eq!(with_password.call, UserCall::Update { change_password: true });
    assert!(with_password.offer_login);
}

#[test]
fn iam_forms_need_a_name() {
    let f = form(IamResourceFormMode::Create, "グループ", "  ");
    assert_eq!(iam_resource_input(&f), Err("名前を入力してください"));
    let ok = iam_resource_input(&form(IamResourceFormMode::Create, "グループ", "dev")).unwrap();
    assert_eq!(ok.call, IamCall::CreateGroup);
    assert_eq!(ok.label, "グループ「dev」を作成");
}

#[test]
fn iam_user_creation_needs_code_and_password() {
    let mut f = form(IamResourceFormMode::Create, "ユーザー", "alice");
    f.code = "alice01".to_string();
    assert_eq!(iam_resource_input(&f), Err("ユーザーコードとパスワードを入力してください"));
    f.password = "secret".to_string();
    assert_eq!(iam_resource_input(&f).unwrap().call, IamCall::CreateUser);
    let mut edit = form(IamResourceFormMode::Edit, "ユーザー", "alice");
    assert_eq!(iam_resource_input(&edit).unwrap().call, IamCall::UpdateUser { change_password: false });
    edit.password = "secret".to_string();
    let input = iam_resource_input(&edit).unwrap();
    assert_eq!(input.call, IamCall::UpdateUser { change_password: true });
    assert_eq!(input.label, "ユーザー「alice」を更新");
}

#[test]
fn iam_projects_need_a_code_and_read_their_parent() {
    let mut f = form(IamResourceFormMode::Create, "プロジェクト", "web");
    assert_eq!(iam_resource_input(&f), Err("プロジェクトコードを入力してください"));
    f.code = "web".to_string();
    assert_eq!(iam_resource_input(&f).unwrap().call, IamCall::CreateProject { parent: None });
    f.extra = "42".to_string();
    assert_eq!(iam_resource_input(&f).unwrap().call, IamCall::CreateProject { parent: Some(42) });
    f.extra = "x".to_string();
    assert_eq!(iam_resource_input(&f).unwrap().call, IamCall::CreateProject { parent: None });
}

#[test]
fn iam_service_principals_need_a_numeric_project() {
    let mut f = form(IamResourceFormMode::Create, "サービスプリンシパル", "bot");
    assert_eq!(iam_resource_input(&f), Err("プロジェクトIDを数値で入力してください"));
    f.extra = "12a".to_string();
    assert_eq!(iam_resource_input(&f), Err("プロジェクトIDを数値で入力してください"));
    f.extra = "-7".to_string();
    assert_eq!(iam_resource_input(&f).unwrap().call, IamCall::CreateServicePrincipal { project_id: -7 });
    let edit = form(IamResourceFormMode::Edit, "サービスプリンシパル", "bot");
    assert_eq!(iam_resource_input(&edit).unwrap().call, IamCall::UpdateServicePrincipal);
}

#[test]
fn unknown_iam_kinds_have_no_call() {
    let f = form(IamResourceFormMode::Create, "ロール", "admin");
    assert_eq!(iam_resource_input(&f).unwrap().call, IamCall::Unsupported);
}

#[test]
fn i64_text_reads_as_str_parse_does() {
    for text in ["0", "42", "+42", "-42", "-0", "9223372036854775807", "-9223372036854775808"] {
        assert_eq!(parse_i64_text(text), text.parse::<i64>().ok(), "{}", text);
    }
    for text in ["", "-", "+", "+-1", "-+1", " 1", "1 ", "9223372036854775808", "-9223372036854775809", "1e3"] {
        assert_eq!(parse_i64_text(text), None, "{}", text);
        assert!(text.parse::<i64>().is_err());
    }
}

#[test]
fn iam_user_form_debug_redacts_password() {
    let form = IamResourceForm {
        mode: IamResourceFormMode::Create,
        resource_type: "ユーザー".to_string(),
        target_id: None,
        name: "alice".to_string(),
        code: "alice".to_string(),
        password: "must-not-appear".to_string(),
        description: String::new(),
        extra: String::new(),
        field: 0,
    };
    let debug = form.redacted_debug();
    assert!(debug.contains("<redacted>"));
    assert!(!debug.contains("must-not-appear"));
    assert_eq!(
        debug,
        "IamResourceForm { mode: Create, resource_type: \"ユーザー\", target_id: None, name: \"alice\", code: \"alice\", password: <redacted>, description: \"\", extra: \"\", field: 0 }"
    );
}
