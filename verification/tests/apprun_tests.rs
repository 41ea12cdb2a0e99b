use sakura_tui::api_error::{compose_error_message, ApiError};
use sakura_tui::apprun::{self, application_detail, applications_page, should_fetch_next_page, traffics_page, versions_page};
use sakura_tui::apprun_dedicated::{
    self as dedicated, advance_cursor, asg_page, certificates_page, cluster_detail, clusters_page, page_query,
    worker_nodes_page,
};
use sakura_tui::json::{JsonNumber, JsonValue};

fn convert(v: &serde_json::Value) -> JsonValue {
    match v {
        serde_json::Value::Null => JsonValue::Null,
        serde_json::Value::Bool(b) => JsonValue::Bool(*b),
        serde_json::Value::Number(n) => JsonValue::Number(if let Some(u) = n.as_u64() {
            JsonNumber::Unsigned(u)
        } else if let Some(i) = n.as_i64() {
            JsonNumber::Negative(i)
        } else {
            JsonNumber::Float(n.to_string())
        }),
        serde_json::Value::String(s) => JsonValue::Str(s.clone()),
        serde_json::Value::Array(items) => JsonValue::Array(items.iter().map(convert).collect()),
        serde_json::Value::Object(members) => {
            JsonValue::Object(members.iter().map(|(k, v)| (k.clone(), convert(v))).collect())
        }
    }
}

fn json(text: &str) -> JsonValue {
    convert(&serde_json::from_str::<serde_json::Value>(text).unwrap())
}

fn parsed(body: &str) -> Option<JsonValue> {
    serde_json::from_str::<serde_json::Value>(body).ok().map(|v| convert(&v))
}

#[test]
fn parses_application_list() {
    let body = r#"{
        "meta": {"page_num": 1, "page_size": 100, "object_total": 1,
                 "sort_field": "created_at", "sort_order": "asc"},
        "data": [{
            "id": "abc-123",
            "name": "my-app",
            "status": "Success",
            "public_url": "https://my-app.apprun.sakura.ne.jp",
            "created_at": "2026-01-02T03:04:05Z"
        }]
    }"#;
    let res = applications_page(&json(body)).unwrap();
    assert_eq!(res.total(), 1);
    let items = res.items();
    assert_eq!(items.len(), 1);
    assert_eq!(items[0].name, "my-app");
}

#[test]
fn extracts_container_images_from_components() {
    let body = r#"{
        "port": 8080, "timeout_seconds": 60, "min_scale": 0, "max_scale": 10,
        "components": [{
            "name": "main",
            "deploy_source": {
                "container_registry": {
                    "image": "example.sakuracr.jp/app:v1",
                    "server": "example.sakuracr.jp"
                }
            }
        }]
    }"#;
    let detail = application_detail(&json(body)).unwrap();
    assert_eq!(detail.images, vec!["example.sakuracr.jp/app:v1"]);
}

#[test]
fn tolerates_components_without_registry_source() {
    let body = r#"{"components": [{"name": "main", "deploy_source": {}}]}"#;
    let detail = application_detail(&json(body)).unwrap();
    assert!(detail.images.is_empty());
}

#[test]
fn parses_traffics() {
    let body = r#"{"data": [
        {"version_name": "v2", "is_latest_version": true, "percent": 80},
        {"version_name": "v1", "is_latest_version": false, "percent": 20}
    ]}"#;
    let res = traffics_page(&json(body)).unwrap();
    let items = res.items();
    assert_eq!(items.len(), 2);
    assert!(items[0].is_latest);
    assert_eq!(items[1].percent, 20);
}

#[test]
fn formats_api_error() {
    let body = r#"{"message": "not found", "detail": "application does not exist"}"#;
    let message = apprun::format_api_error(404, body, parsed(body).as_ref());
    assert!(message.contains("not found"), "{message}");
    assert!(message.contains("does not exist"), "{message}");
}

#[test]
fn forbidden_includes_setup_hint() {
    let body = r#"{"message": "要求された操作は許可されていません。権限エラー。",
        "detail": "forbidden"}"#;
    let message = apprun::format_api_error(403, body, parsed(body).as_ref());
    assert!(message.contains("権限エラー"), "{message}");
    assert!(message.contains("AppRun のユーザーが作成済み"), "{message}");
    assert!(message.contains("apprun/api/user"), "{message}");
}

#[test]
fn other_errors_have_no_setup_hint() {
    let body = r#"{"message": "not found"}"#;
    let message = apprun::format_api_error(404, body, parsed(body).as_ref());
    assert!(!message.contains("apprun/api/user"), "{message}");
}

#[test]
fn formats_iaas_style_auth_error() {
    let body = r#"{"is_fatal":true,"serial":"abc","status":"401 Unauthorized",
        "error_code":"unauthorized","error_msg":"error-unauthorized"}"#;
    let message = apprun::format_api_error(401, body, parsed(body).as_ref());
    assert!(message.contains("error-unauthorized"), "{message}");
    assert!(!message.contains("is_fatal"), "生JSONが混ざっている: {message}");
}

#[test]
fn parses_cluster_list() {
    let body = r#"{"clusters": [
        {"clusterID": "13B9EA83-DDB0-4385-9533-3D693A6A310F",
         "name": "prod", "created": 1767225845}
    ], "nextCursor": null}"#;
    let (clusters, next) = clusters_page(&json(body)).unwrap();
    let cluster = &clusters[0];
    assert_eq!(cluster.name, "prod");
    assert_eq!(cluster.created, Some(1_767_225_845));
    assert!(cluster.ports.is_empty());
    assert!(next.is_none());
}

#[test]
fn parses_cluster_detail_with_ports() {
    let body = r#"{"cluster": {
        "clusterID": "abc", "name": "prod", "created": 1767225845,
        "ports": [{"port": 443, "protocol": "https"}, {"port": 80, "protocol": "http"}],
        "servicePrincipalID": "sp-1", "hasLetsEncryptEmail": true
    }}"#;
    let cluster = cluster_detail(&json(body)).unwrap();
    assert_eq!(cluster.ports.len(), 2);
    assert_eq!(cluster.ports[0].to_string(), "443/https");
    assert!(cluster.has_lets_encrypt_email);
    assert_eq!(cluster.service_principal_id, "sp-1");
}

#[test]
fn parses_worker_nodes() {
    let body = r#"{"workerNodes": [
        {"workerNodeID": "wn-1", "status": "healthy", "draining": false,
         "archiveVersion": "2026.01", "created": 1767225845, "createErrorMessage": ""}
    ], "nextCursor": null}"#;
    let (nodes, _) = worker_nodes_page(&json(body)).unwrap();
    let node = &nodes[0];
    assert_eq!(node.status, "healthy");
    assert!(!node.draining);
}

#[test]
fn parses_certificates() {
    let body = r#"{"certificates": [
        {"certificateID": "c-1", "name": "web", "commonName": "example.jp",
         "subjectAlternativeNames": ["www.example.jp"], "notAfterSec": 1790000000}
    ]}"#;
    let (certificates, _) = certificates_page(&json(body)).unwrap();
    let cert = &certificates[0];
    assert_eq!(cert.common_name, "example.jp");
    assert_eq!(cert.alternative_names, vec!["www.example.jp"]);
    assert_eq!(cert.not_after, Some(1_790_000_000));
}

#[test]
fn tolerates_nulls() {
    let body = r#"{"autoScalingGroups": [
        {"autoScalingGroupID": "asg-1", "name": null, "zone": null,
         "workerServiceClassPath": null, "minNodes": null, "maxNodes": null,
         "workerNodeCount": null}
    ], "nextCursor": null}"#;
    let (groups, _) = asg_page(&json(body)).unwrap();
    let asg = &groups[0];
    assert_eq!(asg.name, "");
    assert!(asg.min_nodes.is_none());
}

#[test]
fn forbidden_includes_hint() {
    let body = r#"{"message": "forbidden"}"#;
    let message = dedicated::format_api_error(403, body, parsed(body).as_ref());
    assert!(message.contains("サービスプリンシパル"), "{message}");
}

// --- further checks ---

#[test]
fn error_message_shows_status_and_falls_back_to_the_body() {
    let body = "  upstream failed  ";
    let message = apprun::format_api_error(502, body, parsed(body).as_ref());
    assert_eq!(message, "AppRun APIエラー (502 Bad Gateway): upstream failed");
    let message = dedicated::format_api_error(500, "", None);
    assert_eq!(message, "AppRun専有型APIエラー (500 Internal Server Error)");
    let body = r#"{"message": "boom"}"#;
    let message = dedicated::format_api_error(400, body, parsed(body).as_ref());
    assert_eq!(message, "AppRun専有型APIエラー (400 Bad Request): boom");
    let long = "x".repeat(300);
    let message = apprun::format_api_error(500, &long, None);
    assert_eq!(message.chars().filter(|c| *c == 'x').count(), 200);
}

#[test]
fn unauthorized_answers_get_the_setup_hint() {
    let message = dedicated::format_api_error(401, "", None);
    assert!(message.contains("AppRun 側のユーザーが未作成"), "{message}");
}

#[test]
fn api_roots_drop_the_zone_suffix() {
    assert_eq!(
        apprun::api_root("https://secure.sakura.ad.jp/cloud/zone"),
        "https://secure.sakura.ad.jp/cloud/api/apprun/1.0/apprun/api"
    );
    assert_eq!(
        dedicated::api_root("https://example.jp/cloud/zone/zone"),
        "https://example.jp/cloud/api/apprun-dedicated/1.0"
    );
    assert_eq!(dedicated::api_root("https://example.jp"), "https://example.jp/api/apprun-dedicated/1.0");
}

#[test]
fn paging_stops_when_done() {
    assert!(should_fetch_next_page(1, 100, 100, 250));
    assert!(!should_fetch_next_page(1, 0, 0, 250));
    assert!(!should_fetch_next_page(3, 50, 250, 250));
    assert!(!should_fetch_next_page(apprun::MAX_PAGES, 100, 100, 100_000));
    let current = Some("c1".to_string());
    assert_eq!(advance_cursor(&current, 10, Some("c2".to_string()), 1), Some("c2".to_string()));
    assert_eq!(advance_cursor(&current, 10, Some("c1".to_string()), 1), None);
    assert_eq!(advance_cursor(&current, 0, Some("c2".to_string()), 1), None);
    assert_eq!(advance_cursor(&None, 5, None, 1), None);
    assert_eq!(advance_cursor(&None, 5, Some("c".to_string()), dedicated::MAX_PAGES), None);
}

#[test]
fn page_queries_carry_the_cursor() {
    let query = page_query(None);
    assert_eq!(query, vec![("maxItems", "100".to_string())]);
    let query = page_query(Some("abc".to_string()));
    assert_eq!(query, vec![("maxItems", "100".to_string()), ("cursor", "abc".to_string())]);
}

#[test]
fn versions_and_totals_read() {
    let body = r#"{"data": null, "meta": null}"#;
    assert!(versions_page(&json(body)).unwrap().items().is_empty());
    let res = applications_page(&json(r#"{"meta": {"object_total": 7}}"#)).unwrap();
    assert_eq!(res.total(), 7);
    assert!(res.items().is_empty());
    assert!(applications_page(&json(r#"{"meta": {"object_total": -1}}"#)).is_none());
}

#[test]
fn error_records_give_their_parts() {
    let own = ApiError::from_body(Some(&json(r#"{"message": "m", "detail": "d"}"#)));
    assert_eq!(own.parts(), Some(("m", "d")));
    let iaas = ApiError::from_body(Some(&json(r#"{"error_msg": "e", "error_code": "c"}"#)));
    assert_eq!(iaas.parts(), Some(("e", "c")));
    let other = ApiError::from_body(Some(&json(r#"{"message": 5}"#)));
    assert_eq!(other.parts(), None);
    assert_eq!(ApiError::from_body(None).parts(), None);
}

#[test]
fn composed_message_holds_status_summary_detail_and_hint() {
    let body = r#"{"message": "not found", "detail": "no such app"}"#;
    let hint: Vec<char> = "\n\nhint".chars().collect();
    let message = compose_error_message("AppRun ", 404, "404 Not Found", body, parsed(body).as_ref(), &hint);
    assert_eq!(message, "AppRun APIエラー (404 Not Found): not found [no such app]");
    let forbidden = compose_error_message("AppRun ", 403, "403 Forbidden", body, parsed(body).as_ref(), &hint);
    assert_eq!(forbidden, "AppRun APIエラー (403 Forbidden): not found [no such app]\n\nhint");
    let plain = compose_error_message("AppRun ", 500, "500 Internal Server Error", "  oops  ", None, &hint);
    assert_eq!(plain, "AppRun APIエラー (500 Internal Server Error): oops");
    assert!(!plain.contains("hint"));
}
