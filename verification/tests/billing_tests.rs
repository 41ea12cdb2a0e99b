use sakura_tui::billing::{
    bills_from_response, details_from_response, identity_from_auth_status, summarize, summarize_keyed, BillDetail,
    IdentityError,
};
use sakura_tui::json::{JsonNumber, JsonValue};

fn convert(v: &serde_json::Value) -> JsonValue {
    match v {
        serde_json::Value::Null => JsonValue::Null,
        serde_json::Value::Bool(b) => JsonValue::Bool(*b),
        serde_json::Value::Number(n) => JsonValue::Number(if let Some(u) = n.as_u64() {
            JsonNumber::Unsigned(u)
        } else if let Some(i) = n.as_i64() {
            JsonNumber::Negative(i)
        } else {
            JsonNumber::Float(n.to_string())
        }),
        serde_json::Value::String(s) => JsonValue::Str(s.clone()),
        serde_json::Value::Array(items) => JsonValue::Array(items.iter().map(convert).collect()),
        serde_json::Value::Object(members) => {
            JsonValue::Object(members.iter().map(|(k, v)| (k.clone(), convert(v))).collect())
        }
    }
}

fn json(text: &str) -> JsonValue {
    convert(&serde_json::from_str::<serde_json::Value>(text).unwrap())
}

fn detail(amount: i64, zone: &str, path: &str) -> BillDetail {
    BillDetail {
        description: String::new(),
        amount,
        zone: zone.to_string(),
        service_class_path: path.to_string(),
        usage: String::new(),
        contract_end_at: None,
    }
}

#[test]
fn parses_auth_status() {
    let body = r#"{
        "Account": {"ID": "113600000000", "Name": "さくら太郎", "Code": "acc",
                    "Class": "account", "Tags": [], "UsedServers": 3},
        "Member": {"Class": "member", "Code": "ixt15226", "Errors": []},
        "AuthClass": "account", "IsAPIKey": true, "is_ok": true
    }"#;
    let identity = identity_from_auth_status(&json(body)).unwrap();
    assert_eq!(identity.account_id, "113600000000");
    assert_eq!(identity.member_code, "ixt15226");
    assert_eq!(identity.account_name, "さくら太郎");
}

#[test]
fn accepts_numeric_ids() {
    let body = r#"{"Account": {"ID": 113600000000}, "Member": {"Code": "m"}}"#;
    let identity = identity_from_auth_status(&json(body)).unwrap();
    assert_eq!(identity.account_id, "113600000000");
}

#[test]
fn parses_bills_newest_first() {
    let body = r#"{"Total": 2, "Bills": [
        {"BillID": 1, "Amount": 129800, "Date": "2026-06-30T00:00:00+09:00", "Paid": true},
        {"BillID": 2, "Amount": 128400, "Date": "2026-08-31T00:00:00+09:00", "Paid": false}
    ]}"#;
    let bills = bills_from_response(&json(body)).unwrap();
    assert_eq!(bills[0].id, "2", "新しい請求が先頭");
    assert_eq!(bills[0].amount, 128_400);
    assert!(!bills[0].paid);
}

#[test]
fn parses_bill_details() {
    let body = r#"{"Total": 1, "BillDetails": [
        {"ContractID": 1, "Amount": 5280, "Description": "web-01",
         "ServiceClassPath": "cloud/server/plan/2core-4gb", "Zone": "is1b",
         "Usage": 2678400, "FormattedUsage": "744時間", "ContractEndAt": null}
    ]}"#;
    let details = details_from_response(&json(body)).unwrap();
    let detail = &details[0];
    assert_eq!(detail.description, "web-01");
    assert_eq!(detail.service_label(), "server/plan/2core-4gb");
    assert_eq!(detail.category(), "server");
    assert_eq!(detail.usage, "744時間");
}

#[test]
fn service_label_handles_odd_paths() {
    let make = |path: &str| detail(0, "", path);
    assert_eq!(make("").service_label(), "(不明)");
    assert_eq!(make("cloud").service_label(), "cloud");
    assert_eq!(make("cloud/disk/ssd/100gb").category(), "disk");
    assert_eq!(make("other/thing").service_label(), "other/thing");
}

#[test]
fn summarizes_by_key() {
    let details = vec![
        detail(100, "is1b", "cloud/server/plan/a"),
        detail(300, "tk1a", "cloud/disk/ssd"),
        detail(200, "is1b", "cloud/server/plan/b"),
    ];

    let by_zone = summarize(&details, |d| d.zone.clone());
    assert_eq!(by_zone[0], ("is1b".to_string(), 300, 2));
    assert_eq!(by_zone[1], ("tk1a".to_string(), 300, 1));

    let by_category = summarize(&details, |d| d.category());
    assert_eq!(by_category[0], ("disk".to_string(), 300, 1));
    assert_eq!(by_category[1], ("server".to_string(), 300, 2));
}

#[test]
fn empty_details_summarize_to_nothing() {
    assert!(summarize(&[], |d| d.zone.clone()).is_empty());
}

// --- further checks ---

#[test]
fn missing_account_or_member_is_reported() {
    let no_account = identity_from_auth_status(&json(r#"{"Member": {"Code": "m"}}"#)).unwrap_err();
    assert_eq!(no_account, IdentityError::NoAccount);
    assert_eq!(no_account.message().unwrap(), "アカウント情報が含まれていません");
    let no_member = identity_from_auth_status(&json(r#"{"Account": {"ID": "1"}, "Member": null}"#)).unwrap_err();
    assert_eq!(no_member, IdentityError::NoMember);
    assert_eq!(no_member.message().unwrap(), "会員情報が含まれていません");
    let malformed = identity_from_auth_status(&json(r#"{"Account": {"Name": 5}}"#)).unwrap_err();
    assert_eq!(malformed, IdentityError::Malformed);
    assert_eq!(malformed.message(), None);
}

#[test]
fn undated_bills_come_last_and_order_is_stable() {
    let body = r#"{"Bills": [
        {"BillID": "a", "Amount": "10", "Date": null},
        {"BillID": "b", "Amount": 20, "Date": "2026-01-31"},
        {"BillID": "c", "Amount": 30},
        {"BillID": "d", "Amount": 40, "Date": "2026-01-31"}
    ]}"#;
    let bills = bills_from_response(&json(body)).unwrap();
    let ids: Vec<&str> = bills.iter().map(|b| b.id.as_str()).collect();
    assert_eq!(ids, ["b", "d", "a", "c"]);
    assert_eq!(bills[2].amount, 10);
}

#[test]
fn details_come_largest_first() {
    let body = r#"{"BillDetails": [
        {"Amount": 5, "Description": "x"},
        {"Amount": 50, "Description": "y"},
        {"Amount": 5, "Description": "z"}
    ]}"#;
    let details = details_from_response(&json(body)).unwrap();
    let names: Vec<&str> = details.iter().map(|d| d.description.as_str()).collect();
    assert_eq!(names, ["y", "x", "z"]);
}

#[test]
fn a_bad_bill_fails_the_whole_list() {
    assert!(bills_from_response(&json(r#"{"Bills": [{"Paid": null}]}"#)).is_none());
    assert!(bills_from_response(&json(r#"{"Bills": null}"#)).unwrap().is_empty());
}

#[test]
fn summary_lines_are_unique_and_add_up() {
    let details = vec![detail(-5, "a", ""), detail(7, "b", ""), detail(3, "a", ""), detail(2, "b", "")];
    let keys: Vec<String> = details.iter().map(|d| d.zone.clone()).collect();
    let lines = summarize_keyed(&details, &keys);
    assert_eq!(lines, vec![("b".to_string(), 9, 2), ("a".to_string(), -2, 2)]);
    let total: i64 = lines.iter().map(|l| l.1).sum();
    let count: usize = lines.iter().map(|l| l.2).sum();
    assert_eq!(total, details.iter().map(|d| d.amount).sum::<i64>());
    assert_eq!(count, details.len());
}
