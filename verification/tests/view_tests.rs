use sakura_tui::service::Service;
use sakura_tui::state::{Focus, ImagePane, ListFocus, Pane, Tab};
use sakura_tui::tabs::MonitoringTab;
use sakura_tui::view::{AiEngineTab, ApiGatewayTab, CloudHsmTab, ViewState};

fn on(service: Service) -> ViewState {
    ViewState { service, ..ViewState::default() }
}

#[test]
fn registry_pane_follows_focus_tab_and_image_pane() {
    assert_eq!(on(Service::Registry).active_pane(), Pane::Registries);
    let detail = ViewState { registry_focus: Focus::Detail, ..on(Service::Registry) };
    assert_eq!(detail.active_pane(), Pane::NoList);
    assert_eq!(ViewState { registry_tab: Tab::Users, ..detail }.active_pane(), Pane::Users);
    let images = ViewState { registry_tab: Tab::Images, ..detail };
    assert_eq!(images.active_pane(), Pane::Repositories);
    assert_eq!(ViewState { image_pane: ImagePane::Tags, ..images }.active_pane(), Pane::Tags);
}

#[test]
fn resource_services_share_their_lists() {
    for service in [Service::Disk, Service::Internet, Service::LoadBalancer, Service::Nfs] {
        assert_eq!(on(service).active_pane(), Pane::CloudResources);
    }
    for service in [Service::Gslb, Service::WebAccel, Service::Kms, Service::AutoBackup] {
        assert_eq!(on(service).active_pane(), Pane::ManagedResources);
    }
}

#[test]
fn ai_engine_models_fall_back_to_the_resource_list() {
    let view = on(Service::AiEngine);
    assert_eq!(view.active_pane(), Pane::ManagedResources);
    assert_eq!(ViewState { ai_engine_shows_cloud_models: true, ..view }.active_pane(), Pane::AiEngineModels);
    assert_eq!(ViewState { ai_engine_tab: AiEngineTab::Documents, ..view }.active_pane(), Pane::AiEngineDocuments);
    assert_eq!(ViewState { ai_engine_tab: AiEngineTab::Billing, ..view }.active_pane(), Pane::NoList);
}

#[test]
fn tabbed_screens_show_the_list_of_their_tab() {
    let hsm = ViewState { cloudhsm_tab: CloudHsmTab::Licenses, ..on(Service::CloudHsm) };
    assert_eq!(hsm.active_pane(), Pane::CloudHsmLicenses);
    let gateway = ViewState { api_gateway_tab: ApiGatewayTab::Oidc, ..on(Service::ApiGateway) };
    assert_eq!(gateway.active_pane(), Pane::ApiGatewayOidcs);
}

#[test]
fn split_screens_follow_the_focus() {
    let dns = on(Service::Dns);
    assert_eq!(dns.active_pane(), Pane::DnsZones);
    assert_eq!(ViewState { dns_focus: ListFocus::Right, ..dns }.active_pane(), Pane::DnsRecords);
    let secrets = on(Service::Secrets);
    assert_eq!(secrets.active_pane(), Pane::Vaults);
    assert_eq!(ViewState { secrets_focus: ListFocus::Right, ..secrets }.active_pane(), Pane::Secrets);
    let filters = on(Service::PacketFilter);
    assert_eq!(ViewState { packet_filter_focus: ListFocus::Right, ..filters }.active_pane(), Pane::PacketFilterRules);
}

#[test]
fn monitoring_tabs_without_a_split_ignore_the_focus() {
    let view = on(Service::Monitoring);
    assert_eq!(view.active_pane(), Pane::Projects);
    let right = ViewState { monitoring_focus: ListFocus::Right, ..view };
    assert_eq!(right.active_pane(), Pane::Rules);
    assert_eq!(ViewState { monitoring_tab: MonitoringTab::Storages, ..view }.active_pane(), Pane::Storages);
    assert_eq!(ViewState { monitoring_tab: MonitoringTab::Storages, ..right }.active_pane(), Pane::StorageKeys);
    for tab in [MonitoringTab::LogRoutings, MonitoringTab::MetricsRoutings, MonitoringTab::Dashboards] {
        let expected = match tab {
            MonitoringTab::LogRoutings => Pane::LogRoutings,
            MonitoringTab::MetricsRoutings => Pane::MetricsRoutings,
            _ => Pane::Dashboards,
        };
        assert_eq!(ViewState { monitoring_tab: tab, ..view }.active_pane(), expected);
        assert_eq!(ViewState { monitoring_tab: tab, ..right }.active_pane(), expected);
    }
}

#[test]
fn screens_that_decide_their_own_list_are_followed() {
    let view = ViewState { apprun_pane: Pane::Versions, ..on(Service::AppRun) };
    assert_eq!(view.active_pane(), Pane::Versions);
    assert_eq!(on(Service::Billing).active_pane(), Pane::Bills);
    assert_eq!(on(Service::Account).active_pane(), Pane::Account);
}
