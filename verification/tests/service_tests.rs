use sakura_tui::state::{child_id_to_load, move_item, Loadable};
use sakura_tui::service::{
    availability_reason, move_service_category, move_service_within_category, Category, Service,
};
use sakura_tui::state::{sanitize_paste, ListFocus, Mode};
use sakura_tui::tabs::{NetworkingSuiteTab, NoSqlTab, SecurityControlTab, SegTab};
use sakura_tui::view::{AiEngineTab, ViewState};
use sakura_tui::state::Pane;

fn sanitize(text: &str) -> String {
    sanitize_paste(text)
}

#[test]
fn empty_filter_matches_everything() {
    assert!(sakura_tui::state::matches("", &["anything"]));
    assert!(sakura_tui::state::matches("", &[]));
}

#[test]
fn filter_is_case_insensitive_substring() {
    assert!(sakura_tui::state::matches("REG", &["my-registry"]));
    assert!(sakura_tui::state::matches("reg", &["MY-REGISTRY"]));
    assert!(!sakura_tui::state::matches("xyz", &["my-registry"]));
}

#[test]
fn filter_matches_any_field() {
    assert!(sakura_tui::state::matches("sakuracr", &["example", "example.sakuracr.jp"]));
}

#[test]
fn services_are_ordered_by_category() {
    let mut seen: Vec<Category> = Vec::new();
    for service in Service::ALL {
        let category = service.category();
        if seen.last() != Some(&category) {
            assert!(
                !seen.contains(&category),
                "{} の分類 {} が並びの中で分裂している",
                service.title(),
                category.title()
            );
            seen.push(category);
        }
    }
}

#[test]
fn every_category_has_a_service() {
    for category in Category::ALL {
        assert!(
            category.services().first().is_some(),
            "{} に属するサービスが無い",
            category.title()
        );
    }
}

#[test]
fn category_order_matches_service_order() {
    let from_services: Vec<Category> = Category::ALL
        .into_iter()
        .filter(|c| c.services().first().is_some())
        .collect();
    let mut seen: Vec<Category> = Vec::new();
    for service in Service::ALL {
        if seen.last() != Some(&service.category()) {
            seen.push(service.category());
        }
    }
    assert_eq!(seen, from_services);
}

#[test]
fn reads_reason_from_error() {
    assert_eq!(
        availability_reason("APIエラー (403 Forbidden): 要求された操作は許可されていません。"),
        "権限なし"
    );
    assert_eq!(availability_reason("404 Not Found"), "未提供");
    assert_eq!(availability_reason("401 Unauthorized"), "認証エラー");
    assert_eq!(availability_reason("connection closed"), "取得できず");
}

#[test]
fn arg_names_are_unique() {
    let mut names: Vec<&str> = Service::ALL.iter().map(|s| s.arg_name()).collect();
    names.sort_unstable();
    let count = names.len();
    names.dedup();
    assert_eq!(names.len(), count);
}

#[test]
fn zone_scope_is_independent_from_category() {
    assert_eq!(Service::Server.category(), Category::Compute);
    assert!(Service::Server.is_zoned());
    assert_eq!(Service::Switch.category(), Category::Network);
    assert!(Service::Switch.is_zoned());
    assert_eq!(Service::Switch.arg_name(), "switch");
    assert_eq!(Service::Secrets.category(), Category::Security);
    assert!(!Service::Secrets.is_zoned());
    assert_eq!(Service::Registry.category(), Category::Container);
    assert!(!Service::Registry.is_zoned());
    assert!(!Service::Dns.is_zoned());
    assert!(!Service::Billing.is_zoned());
    assert!(!Service::EnhancedLoadBalancer.is_zoned());
    assert!(!Service::LocalRouter.is_zoned());
    assert!(!Service::Gslb.is_zoned());
    assert!(!Service::SimpleNotification.is_zoned());
    assert!(!Service::Kms.is_zoned());
    assert!(!Service::Iam.is_zoned());
    assert!(Service::Archive.is_zoned());
    assert!(Service::IsoImage.is_zoned());
}

#[test]
fn service_picker_moves_within_category() {
    let at = |want: Service| Service::ALL.iter().position(|service| *service == want).unwrap();
    assert_eq!(move_service_within_category(at(Service::Switch), 1), at(Service::Internet));
    let network = Category::Network.services();
    let first = *network.first().unwrap();
    assert_eq!(
        Service::ALL[move_service_within_category(at(first), -1)],
        *network.last().unwrap()
    );
}

#[test]
fn service_picker_moves_between_categories_preserving_row() {
    let server = Service::ALL.iter().position(|service| *service == Service::Server).unwrap();
    assert_eq!(Service::ALL[move_service_category(server, 1)], Service::Registry);
    assert_eq!(Service::ALL[move_service_category(server, -1)], Service::Account);
}

#[test]
fn api_gateway_is_resolvable_from_service_arg() {
    assert_eq!(Service::from_arg("api-gateway"), Some(Service::ApiGateway));
}

#[test]
fn integration_category_lists_api_gateway_after_workflows() {
    let names: Vec<&str> = Category::Integration.services().into_iter().map(Service::arg_name).collect();
    assert_eq!(
        names,
        vec!["simplemq", "simple-notification", "eventbus", "workflows", "api-gateway"]
    );
}

#[test]
fn nosql_is_resolvable_from_service_arg() {
    assert_eq!(Service::from_arg("nosql"), Some(Service::NoSql));
}

#[test]
fn storage_category_lists_nosql_and_auto_backup() {
    let names: Vec<&str> = Category::Storage.services().into_iter().map(Service::arg_name).collect();
    assert_eq!(
        names,
        vec![
            "disk",
            "archive",
            "iso-image",
            "database",
            "nosql",
            "nfs",
            "object-storage",
            "enhanced-db",
            "auto-backup",
        ]
    );
}

#[test]
fn nosql_is_not_zone_scoped() {
    assert!(!Service::NoSql.is_zoned());
    assert_eq!(Service::NoSql.countable_label(), None);
}

#[test]
fn seg_is_resolvable_from_service_arg() {
    assert_eq!(Service::from_arg("seg"), Some(Service::Seg));
}

#[test]
fn networking_suite_is_resolvable_from_service_arg() {
    assert_eq!(Service::from_arg("networking-suite"), Some(Service::NetworkingSuite));
}

#[test]
fn networking_suite_is_not_zone_scoped() {
    assert!(!Service::NetworkingSuite.is_zoned());
    assert_eq!(Service::NetworkingSuite.countable_label(), None);
}

#[test]
fn seg_is_zone_scoped_and_counted_per_zone() {
    assert!(Service::Seg.is_zoned());
    assert_eq!(Service::Seg.countable_label(), Some("ゲートウェイ"));
}

#[test]
fn security_control_is_resolvable_from_service_arg() {
    assert_eq!(Service::from_arg("security-control"), Some(Service::SecurityControl));
}

#[test]
fn security_category_lists_security_control_last() {
    let names: Vec<&str> = Category::Security.services().into_iter().map(Service::arg_name).collect();
    assert_eq!(names, vec!["secrets", "kms", "iam", "security-control", "cloudhsm"]);
}

#[test]
fn cloudhsm_is_resolvable_from_service_arg() {
    assert_eq!(Service::from_arg("cloudhsm"), Some(Service::CloudHsm));
}

#[test]
fn cloudhsm_is_zone_scoped_and_counted_per_zone() {
    assert!(Service::CloudHsm.is_zoned());
    assert_eq!(Service::CloudHsm.countable_label(), Some("HSM"));
}

#[test]
fn auto_backup_is_resolvable_from_service_arg() {
    assert_eq!(Service::from_arg("auto-backup"), Some(Service::AutoBackup));
}

#[test]
fn security_control_is_not_zone_scoped() {
    assert!(!Service::SecurityControl.is_zoned());
    assert_eq!(Service::SecurityControl.countable_label(), None);
}

#[test]
fn strips_surrounding_whitespace() {
    assert_eq!(sanitize("  abc123  "), "abc123");
    assert_eq!(sanitize("\ntoken\n"), "token");
}

#[test]
fn replaces_control_characters() {
    assert_eq!(sanitize("aaa\nbbb"), "aaa bbb");
    assert_eq!(sanitize("aaa\tbbb"), "aaa bbb");
}

#[test]
fn empty_paste_is_ignored() {
    assert!(sanitize("").is_empty());
    assert!(sanitize("   \n  ").is_empty());
}

#[test]
fn keeps_token_characters() {
    let token = "abcDEF012-_3456789";
    assert_eq!(sanitize(token), token);
}

#[test]
fn networking_suite_tabs_cycle_in_order_and_wrap() {
    let titles: Vec<&str> = NetworkingSuiteTab::ALL.iter().map(|tab| tab.title()).collect();
    assert_eq!(titles, vec!["サブネットグループ", "サブネット", "アドレス"]);
    assert_eq!(NetworkingSuiteTab::Groups.cycled(1), NetworkingSuiteTab::Subnets);
    assert_eq!(NetworkingSuiteTab::Addresses.cycled(1), NetworkingSuiteTab::Groups);
    assert_eq!(NetworkingSuiteTab::Groups.cycled(-1), NetworkingSuiteTab::Addresses);
}

#[test]
fn default_tab_is_the_subnet_group_list() {
    assert_eq!(NetworkingSuiteTab::default(), NetworkingSuiteTab::Groups);
}

#[test]
fn nosql_tabs_cycle_in_order_and_wrap() {
    let titles: Vec<&str> = NoSqlTab::ALL.iter().map(|tab| tab.title()).collect();
    assert_eq!(titles, vec!["DB", "ノード", "バックアップ", "パラメータ"]);
    assert_eq!(NoSqlTab::Databases.cycled(1), NoSqlTab::Nodes);
    assert_eq!(NoSqlTab::Parameters.cycled(1), NoSqlTab::Databases);
    assert_eq!(NoSqlTab::Databases.cycled(-1), NoSqlTab::Parameters);
}

#[test]
fn default_tab_is_the_database_list() {
    assert_eq!(NoSqlTab::default(), NoSqlTab::Databases);
}

#[test]
fn security_control_tabs_cycle_in_order_and_wrap() {
    let titles: Vec<&str> = SecurityControlTab::ALL.iter().map(|tab| tab.title()).collect();
    assert_eq!(titles, vec!["評価ルール", "自動アクション"]);
    assert_eq!(SecurityControlTab::Rules.cycled(1), SecurityControlTab::Actions);
    assert_eq!(SecurityControlTab::Actions.cycled(1), SecurityControlTab::Rules);
    assert_eq!(SecurityControlTab::Rules.cycled(-1), SecurityControlTab::Actions);
}

#[test]
fn default_tab_is_the_rule_list() {
    assert_eq!(SecurityControlTab::default(), SecurityControlTab::Rules);
}

#[test]
fn seg_tabs_cycle_in_order_and_wrap() {
    let titles: Vec<&str> = SegTab::ALL.iter().map(|tab| tab.title()).collect();
    assert_eq!(titles, vec!["ゲートウェイ", "接続先サービス"]);
    assert_eq!(SegTab::Gateways.cycled(1), SegTab::Services);
    assert_eq!(SegTab::Services.cycled(1), SegTab::Gateways);
    assert_eq!(SegTab::Gateways.cycled(-1), SegTab::Services);
}

#[test]
fn default_tab_is_the_gateway_list() {
    assert_eq!(SegTab::default(), SegTab::Gateways);
}

// --- further checks of the laws on concrete values ---

#[test]
fn moving_within_a_category_and_back_returns_to_the_row() {
    for index in 0..Service::ALL.len() {
        let there = move_service_within_category(index, 1);
        assert_eq!(Service::ALL[there].category(), Service::ALL[index].category());
        assert_eq!(move_service_within_category(there, -1), index);
    }
}

#[test]
fn every_arg_name_resolves_to_its_service() {
    for service in Service::ALL {
        assert_eq!(Service::from_arg(service.arg_name()), Some(service));
        assert_eq!(Service::from_arg(&service.arg_name().to_uppercase()), Some(service));
    }
    assert_eq!(Service::from_arg("no-such-service"), None);
}

#[test]
fn mode_toggles_back() {
    for mode in [Mode::ReadOnly, Mode::Write] {
        assert_eq!(mode.toggled().toggled(), mode);
        assert_ne!(mode.toggled(), mode);
    }
}

#[test]
fn children_are_loaded_once_per_parent() {
    let cache: Vec<(String, Loadable<Vec<u32>>)> = vec![
        ("a".to_string(), Loadable::Ready(vec![1])),
        ("b".to_string(), Loadable::Idle),
        ("c".to_string(), Loadable::Loading),
    ];
    assert_eq!(child_id_to_load(Some("a".to_string()), &cache), None);
    assert_eq!(child_id_to_load(Some("b".to_string()), &cache), Some("b".to_string()));
    assert_eq!(child_id_to_load(Some("c".to_string()), &cache), None);
    assert_eq!(child_id_to_load(Some("d".to_string()), &cache), Some("d".to_string()));
    assert_eq!(child_id_to_load(None, &cache), None);
}

#[test]
fn rules_move_one_step_and_back() {
    let mut rules = vec!["a", "b", "c"];
    assert_eq!(move_item(&mut rules, 0, true), Some(1));
    assert_eq!(rules, ["b", "a", "c"]);
    assert_eq!(move_item(&mut rules, 1, false), Some(0));
    assert_eq!(rules, ["a", "b", "c"]);
    assert_eq!(move_item(&mut rules, 0, false), None);
    assert_eq!(move_item(&mut rules, 2, true), None);
    assert_eq!(rules, ["a", "b", "c"]);
}

#[test]
fn network_category_lists_seg_after_dns() {
    let names: Vec<&str> = Category::Network.services().into_iter().map(Service::arg_name).collect();
    assert_eq!(
        names,
        vec![
            "network-map",
            "switch",
            "internet",
            "packet-filter",
            "bridge",
            "loadbalancer",
            "enhanced-loadbalancer",
            "vpcrouter",
            "gslb",
            "mobile-gateway",
            "local-router",
            "dns",
            "seg",
            "networking-suite",
            "webaccel",
        ]
    );
}

#[test]
fn ai_category_has_a_single_merged_service() {
    let names: Vec<&str> = Category::Ai.services().into_iter().map(Service::arg_name).collect();
    assert_eq!(names, vec!["ai-engine"]);

    let view = ViewState { service: Service::AiEngine, ai_engine_tab: AiEngineTab::Usage, ..ViewState::default() };
    assert_eq!(view.active_pane(), Pane::NoList);
}

#[test]
fn focus_starts_on_the_left_list() {
    let view = ViewState::default();
    assert_eq!(view.dns_focus, ListFocus::Left);
    assert_eq!(view.secrets_focus, ListFocus::Left);
    assert_eq!(view.monitoring_focus, ListFocus::Left);
    assert_eq!(ListFocus::default(), ListFocus::Left);
}

#[test]
fn only_zoned_services_are_counted_per_zone() {
    for service in Service::ALL {
        if service.countable_label().is_some() {
            assert!(service.is_zoned(), "{:?}", service);
        }
    }
    assert_eq!(Service::SshKey.countable_label(), None);
    assert_eq!(Service::Secrets.countable_label(), None);
}

#[test]
fn unknown_names_resolve_to_nothing() {
    assert_eq!(Service::from_arg(""), None);
    assert_eq!(Service::from_arg("server "), None);
    assert_eq!(Service::from_arg("SeRvEr"), Some(Service::Server));
    assert_eq!(Service::from_arg("WEBACCEL"), Some(Service::WebAccel));
}

#[test]
fn there_are_nine_categories() {
    assert_eq!(Category::ALL.len(), 9);
    assert_eq!(Category::ALL[4], Category::Network);
    assert_eq!(Category::ALL[5], Category::Storage);
}
