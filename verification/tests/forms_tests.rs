use sakura_tui::forms::{switch_nic, SwitchNic};
use sakura_tui::cloud_resources::ResourceId;
use sakura_tui::forms::{
    dns_record_from_form, format_match_labels, notification_service_label, parse_match_labels,
    simple_monitor_input, validate_dns_zone_form, validate_switch_form, DnsRecordForm, DnsZoneForm, DnsZoneFormMode,
    SimpleMonitorForm, SimpleMonitorFormMode, SwitchForm, SwitchFormMode,
};

fn form(name: &str, description: &str) -> SwitchForm {
    SwitchForm {
        mode: SwitchFormMode::Create,
        target: None,
        name: name.to_string(),
        description: description.to_string(),
        field: 0,
    }
}

#[test]
fn validates_switch_form() {
    assert!(validate_switch_form(&form("private", "internal network")).is_ok());
    assert_eq!(validate_switch_form(&form("   ", "")), Err("名前を入力してください"));
    assert_eq!(
        validate_switch_form(&form(&"あ".repeat(65), "")),
        Err("名前は64文字以内で入力してください")
    );
    assert_eq!(
        validate_switch_form(&form("private", &"あ".repeat(513))),
        Err("説明は512文字以内で入力してください")
    );
}

fn dns_form(name: &str, record_type: &str, data: &str, ttl: &str) -> DnsRecordForm {
    DnsRecordForm {
        name: name.to_string(),
        record_type: record_type.to_string(),
        data: data.to_string(),
        ttl: ttl.to_string(),
    }
}

#[test]
fn normalizes_dns_record_form() {
    let record = dns_record_from_form(&dns_form("", " a ", " 192.0.2.1 ", "300")).expect("valid record");
    assert_eq!(record.name, "@");
    assert_eq!(record.record_type, "A");
    assert_eq!(record.data, "192.0.2.1");
    assert_eq!(record.ttl, 300);
}

#[test]
fn rejects_invalid_dns_record_form() {
    assert_eq!(
        dns_record_from_form(&dns_form("bad name", "A", "192.0.2.1", "300")),
        Err("名前に空白は使用できません")
    );
    assert_eq!(dns_record_from_form(&dns_form("www", "A", "", "300")), Err("値を入力してください"));
    assert_eq!(
        dns_record_from_form(&dns_form("www", "A", "192.0.2.1", "x")),
        Err("TTLは0以上の整数で入力してください")
    );
}

fn zone_form(name: &str) -> DnsZoneForm {
    DnsZoneForm {
        mode: DnsZoneFormMode::Create,
        target: None,
        name: name.to_string(),
        description: String::new(),
        field: 0,
    }
}

#[test]
fn validates_and_normalizes_dns_zone_form() {
    assert_eq!(validate_dns_zone_form(&zone_form(" Example.JP ")), Ok("example.jp".to_string()));
}

#[test]
fn rejects_invalid_dns_zone_names() {
    for name in ["", "-example.jp", "example..jp", "exa_mple.jp"] {
        assert!(validate_dns_zone_form(&zone_form(name)).is_err(), "{name}");
    }
}

/// The protocols of the form's choice list, by position.
const PROTOCOLS: [&str; 3] = ["ping", "tcp", "http"];

fn monitor_form(protocol: usize) -> SimpleMonitorForm {
    SimpleMonitorForm {
        mode: SimpleMonitorFormMode::Create,
        target_monitor: None,
        target: "example.jp".to_string(),
        description: String::new(),
        protocol: PROTOCOLS[protocol].to_string(),
        port: String::new(),
        path: "/".to_string(),
        expected_status: "200".to_string(),
        delay_loop: "60".to_string(),
        timeout: "10".to_string(),
        enabled: true,
        notify_email: true,
    }
}

#[test]
fn validates_simple_monitor_protocol_fields() {
    let ping = simple_monitor_input(&monitor_form(0)).expect("valid ping");
    assert_eq!(ping.protocol, "ping");
    assert_eq!(ping.port, None);

    let mut tcp = monitor_form(1);
    assert_eq!(simple_monitor_input(&tcp), Err("TCP監視ではポートを入力してください"));
    tcp.port = "443".to_string();
    assert_eq!(simple_monitor_input(&tcp).unwrap().port, Some(443));
}

#[test]
fn requires_sixty_second_monitor_interval() {
    let mut form = monitor_form(2);
    form.delay_loop = "90".to_string();
    assert_eq!(simple_monitor_input(&form), Err("監視間隔は60秒単位の整数で入力してください"));
}

#[test]
fn parses_notification_match_labels() {
    assert_eq!(
        parse_match_labels("severity=critical, instance=web-01"),
        Ok(vec![
            ("severity".to_string(), "critical".to_string()),
            ("instance".to_string(), "web-01".to_string()),
        ])
    );
    assert_eq!(parse_match_labels(""), Ok(Vec::new()));
    assert!(parse_match_labels("severity").is_err());
    assert!(parse_match_labels("=critical").is_err());
}

// --- further checks ---

#[test]
fn match_labels_read_back_what_they_show() {
    let labels = vec![
        ("severity".to_string(), "critical".to_string()),
        ("instance".to_string(), "web=01".to_string()),
    ];
    let shown = format_match_labels(&labels);
    assert_eq!(shown, "severity=critical, instance=web=01");
    assert_eq!(parse_match_labels(&shown), Ok(labels));
    assert_eq!(format_match_labels(&[]), "");
}

#[test]
fn the_first_bad_label_decides_the_error() {
    assert_eq!(
        parse_match_labels("a=1, b, =c"),
        Err("ラベル条件は name=value をカンマ区切りで入力してください")
    );
    assert_eq!(parse_match_labels("a=1, =c, b"), Err("ラベル条件の名前と値は空にできません"));
}

#[test]
fn zone_names_are_checked_label_by_label() {
    assert_eq!(validate_dns_zone_form(&zone_form("a.b-c.jp")), Ok("a.b-c.jp".to_string()));
    let long_label = format!("{}.jp", "a".repeat(64));
    assert_eq!(
        validate_dns_zone_form(&zone_form(&long_label)),
        Err("ゾーン名は英小文字・数字・ハイフンで構成されたラベルを指定してください")
    );
    let long_name = vec!["abc"; 64].join(".");
    assert_eq!(validate_dns_zone_form(&zone_form(&long_name)), Err("ゾーン名は253文字以内で入力してください"));
    assert_eq!(
        validate_dns_zone_form(&zone_form("a.-b.jp")),
        Err("ゾーン名に連続したピリオドや不正な区切りは使用できません")
    );
    assert_eq!(
        validate_dns_zone_form(&zone_form("example.jp.")),
        Err("ゾーン名の先頭と末尾にピリオドやハイフンは使用できません")
    );
}

#[test]
fn monitor_fields_follow_the_protocol() {
    let mut http = monitor_form(2);
    http.port = "8080".to_string();
    http.path = "  ".to_string();
    http.description = " note ".to_string();
    let input = simple_monitor_input(&http).unwrap();
    assert_eq!(input.port, Some(8080));
    assert_eq!(input.path, "/");
    assert_eq!(input.expected_status, Some(200));
    assert_eq!(input.description, "note");

    let mut ping = monitor_form(0);
    ping.port = "22".to_string();
    let input = simple_monitor_input(&ping).unwrap();
    assert_eq!(input.port, None);
    assert_eq!(input.expected_status, None);

    let mut bad = monitor_form(2);
    bad.expected_status = "700".to_string();
    assert_eq!(simple_monitor_input(&bad), Err("期待ステータスは100〜599で入力してください"));
    bad.expected_status = String::new();
    bad.port = "0".to_string();
    assert_eq!(simple_monitor_input(&bad), Err("ポートは1〜65535の整数で入力してください"));
    let mut slow = monitor_form(0);
    slow.timeout = "0".to_string();
    assert_eq!(simple_monitor_input(&slow), Err("タイムアウトは1以上の整数で入力してください"));
}

#[test]
fn notification_services_have_readable_names() {
    assert_eq!(notification_service_label("SAKURA_SIMPLE_NOTICE"), "シンプル通知");
    assert_eq!(notification_service_label("SAKURA_EVENT_BUS"), "EventBus");
    assert_eq!(notification_service_label("OTHER"), "OTHER");
}

#[test]
fn switch_nics_need_an_address_and_a_mask() {
    assert_eq!(
        switch_nic(ResourceId(7), " 192.168.0.10 ", "24", " 192.168.0.1 "),
        Some(SwitchNic {
            id: ResourceId(7),
            ip_address: "192.168.0.10".to_string(),
            mask_len: 24,
            gateway: "192.168.0.1".to_string(),
        })
    );
    assert_eq!(switch_nic(ResourceId(7), "", "24", ""), None);
    assert_eq!(switch_nic(ResourceId(7), "10.0.0.1", "33", ""), None);
    assert_eq!(switch_nic(ResourceId(7), "10.0.0.1", "x", ""), None);
}
