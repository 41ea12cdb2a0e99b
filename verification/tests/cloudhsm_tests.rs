use sakura_tui::cloud_resources::{find_items, parse_resource, value_usize, CloudResourceKind, ResourceId};
use sakura_tui::cloudhsm::{
    availability_label, parse_clients, parse_documents, parse_hsms, parse_licenses, CloudHsm, CloudHsmClient,
};
use sakura_tui::json::{get, JsonNumber, JsonValue};

fn convert(v: &serde_json::Value) -> JsonValue {
    match v {
        serde_json::Value::Null => JsonValue::Null,
        serde_json::Value::Bool(b) => JsonValue::Bool(*b),
        serde_json::Value::Number(n) => JsonValue::Number(if let Some(u) = n.as_u64() {
            JsonNumber::Unsigned(u)
        } else if let Some(i) = n.as_i64() {
            JsonNumber::Negative(i)
        } else {
            JsonNumber::Float(n.to_string())
        }),
        serde_json::Value::String(s) => JsonValue::Str(s.clone()),
        serde_json::Value::Array(items) => JsonValue::Array(items.iter().map(convert).collect()),
        serde_json::Value::Object(members) => {
            JsonValue::Object(members.iter().map(|(k, v)| (k.clone(), convert(v))).collect())
        }
    }
}

fn json(text: &str) -> JsonValue {
    convert(&serde_json::from_str::<serde_json::Value>(text).unwrap())
}

#[test]
fn parses_hsm_list() {
    let body = r#"{
        "Count": 1, "From": 0, "Total": 1,
        "CloudHSMs": [{
            "ID": "110000000000",
            "CreatedAt": "2025-02-05T12:19:22.551827+09:00",
            "ModifiedAt": "2025-02-05T12:19:22.551827+09:00",
            "ServiceClass": "cloud/cloudhsm/partition",
            "Availability": "available",
            "Name": "名前",
            "Description": "説明",
            "Tags": ["tag1"],
            "IPv4NetworkAddress": "192.168.100.0",
            "IPv4PrefixLength": 24,
            "IPv4Address": "192.168.100.11",
            "LocalRouter": "lr-1",
            "InitialData": "x"
        }]
    }"#;
    let (items, total) = parse_hsms(&json(body)).unwrap();
    assert_eq!(total, 1);
    let hsm = &items[0];
    assert_eq!(hsm.id, "110000000000");
    assert_eq!(hsm.ipv4_address, "192.168.100.11");
    assert_eq!(hsm.network_label(), "192.168.100.0/24");
    assert_eq!(availability_label(&hsm.availability), "利用可能");
    assert_eq!(hsm.tags, vec!["tag1"]);
}

#[test]
fn parses_client_list_with_ulid_ids() {
    let body = r#"{
        "Count": 1, "From": 0, "Total": 1,
        "Clients": [{
            "ID": "01JP9500000000000000000000",
            "CreatedAt": "2025-02-05T12:19:22.551827+09:00",
            "ModifiedAt": "2025-02-05T12:19:22.551827+09:00",
            "Availability": "precreate",
            "Name": "client-1",
            "Certificate": "-----BEGIN CERTIFICATE-----\nMII\n-----END CERTIFICATE-----"
        }]
    }"#;
    let (items, _) = parse_clients(&json(body)).unwrap();
    let client = &items[0];
    assert_eq!(client.id, "01JP9500000000000000000000");
    assert_eq!(availability_label(&client.availability), "準備中");
    assert_eq!(client.certificate_label(), "あり");

    let empty = CloudHsmClient::default();
    assert_eq!(empty.certificate_label(), "");
}

#[test]
fn parses_license_list() {
    let body = r#"{
        "Total": 1,
        "Licenses": [{
            "ID": "110000000000",
            "ServiceClass": "cloud/cloudhsm/license/l7",
            "Name": "ライセンス",
            "Description": "説明",
            "Tags": ["a"],
            "CreatedAt": "2025-02-05T12:19:22.551827+09:00"
        }]
    }"#;
    let (items, _) = parse_licenses(&json(body)).unwrap();
    assert_eq!(items[0].service_class, "cloud/cloudhsm/license/l7");
    assert_eq!(items[0].name, "ライセンス");
}

#[test]
fn parses_document_list_and_keeps_the_parent_license() {
    let body = r#"{
        "Total": 1,
        "CloudHSMDocuments": [{
            "ID": "110000000001",
            "Name": "ドキュメント名",
            "CreatedAt": "2025-02-05T12:19:22.551827+09:00",
            "ModifiedAt": "2025-02-05T12:19:22.551827+09:00"
        }]
    }"#;
    let (items, total) = parse_documents(&json(body), "lic-9").unwrap();
    assert_eq!(total, 1);
    assert_eq!(items[0].id, "110000000001");
    assert_eq!(items[0].name, "ドキュメント名");
    assert_eq!(items[0].license_id, "lic-9");
}

#[test]
fn does_not_confuse_the_four_list_keys() {
    let (items, _) = parse_hsms(&json(r#"{"Total": 1, "Licenses": [{"ID": "1"}]}"#)).unwrap();
    assert!(items.is_empty());

    let (items, _) = parse_licenses(&json(r#"{"Total": 1, "Clients": [{"ID": "1"}]}"#)).unwrap();
    assert!(items.is_empty());
}

#[test]
fn tolerates_nulls_and_missing_fields() {
    let body = r#"{"Total": 2, "CloudHSMs": [null, {"ID": "1", "Tags": null,
                   "Name": null, "IPv4PrefixLength": null}]}"#;
    let (items, _) = parse_hsms(&json(body)).unwrap();
    assert_eq!(items.len(), 1);
    assert!(items[0].tags.is_empty());
    assert_eq!(items[0].ipv4_prefix_length, 0);
    assert_eq!(items[0].network_label(), "");

    let (items, total) = parse_hsms(&json("{}")).unwrap();
    assert!(items.is_empty());
    assert_eq!(total, 0);
}

#[test]
fn network_label_without_prefix_shows_the_address_alone() {
    let hsm = CloudHsm {
        ipv4_network_address: "192.168.100.0".to_string(),
        ..CloudHsm::default()
    };
    assert_eq!(hsm.network_label(), "192.168.100.0");
}

#[test]
fn parses_disk_and_appliance_details() {
    let disk = json(r#"{"ID":"1","Name":"data","SizeMB":"102400","Plan":{"Name":"SSD"},"Server":{"Name":"web"},"Availability":"available"}"#);
    let parsed = parse_resource(&disk, CloudResourceKind::Disk).unwrap();
    assert_eq!(parsed.id, ResourceId(1));
    assert_eq!(parsed.plan, "SSD");
    assert_eq!(parsed.connection, "web");
    let appliance = json(r#"{"ID":2,"Name":"lb","Class":"loadbalancer","Instance":{"Status":"up"},"ServiceClass":"cloud/appliance/loadbalancer/1"}"#);
    assert_eq!(parse_resource(&appliance, CloudResourceKind::LoadBalancer).unwrap().status, "up");
}

#[test]
fn finds_singular_internet_array() {
    let value = json(r#"{"Total":"1","Internet":[{"ID":"1"}]}"#);
    assert_eq!(find_items(&value, "internet").len(), 1);
    assert_eq!(value_usize(get(&value, "Total").unwrap()), Some(1));
}

// --- further checks ---

#[test]
fn a_bad_record_fails_the_page() {
    let err = parse_hsms(&json(r#"{"CloudHSMs": [{"Name": 3}]}"#)).unwrap_err();
    assert_eq!(err, "クラウドHSMのCloudHSMsの解析に失敗しました");
}
