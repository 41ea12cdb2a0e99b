//! Which list the keys act on, given the service shown and the tabs and focus of
//! its screen.

use vstd::prelude::*;

use crate::service::Service;
use crate::state::{Focus, ImagePane, ListFocus, Pane, Tab};
use crate::tabs::{MonitoringTab, NetworkingSuiteTab, NoSqlTab, SecurityControlTab, SegTab};

verus! {

/// Tabs of the AI Engine screen.
#[derive(Debug, Clone, Copy, PartialEq, Eq, Structural)]
pub enum AiEngineTab {
    Models,
    Documents,
    Usage,
    Billing,
    Account,
}

/// Tabs of the CloudHSM screen.
#[derive(Debug, Clone, Copy, PartialEq, Eq, Structural)]
pub enum CloudHsmTab {
    Hsms,
    Clients,
    Licenses,
    Documents,
}

/// Tabs of the API gateway screen.
#[derive(Debug, Clone, Copy, PartialEq, Eq, Structural)]
pub enum ApiGatewayTab {
    Subscriptions,
    Services,
    Routes,
    Users,
    Groups,
    Domains,
    Certificates,
    Oidc,
}

/// What decides the list the keys act on: the service shown, and the tabs and
/// focus of the screens. The AppRun, dedicated AppRun, server and billing
/// screens decide their own list; it is held here as they report it.
#[derive(Debug, Clone, Copy, PartialEq, Eq, Structural)]
pub struct ViewState {
    pub service: Service,
    pub registry_focus: Focus,
    pub registry_tab: Tab,
    pub image_pane: ImagePane,
    pub apprun_pane: Pane,
    pub dedicated_pane: Pane,
    pub server_pane: Pane,
    pub billing_pane: Pane,
    pub packet_filter_focus: ListFocus,
    pub ai_engine_tab: AiEngineTab,
    /// Whether the model tab shows the models of the control panel API (it falls
    /// back to the resource list when that API cannot be used).
    pub ai_engine_shows_cloud_models: bool,
    pub networking_suite_tab: NetworkingSuiteTab,
    pub cloudhsm_tab: CloudHsmTab,
    pub security_control_tab: SecurityControlTab,
    pub seg_tab: SegTab,
    pub nosql_tab: NoSqlTab,
    pub api_gateway_tab: ApiGatewayTab,
    pub dns_focus: ListFocus,
    pub secrets_focus: ListFocus,
    pub monitoring_focus: ListFocus,
    pub monitoring_tab: MonitoringTab,
}

/// The list of the registry screen.
pub open spec fn spec_registry_pane(v: ViewState) -> Pane {
    match v.registry_focus {
        Focus::Registries => Pane::Registries,
        Focus::Detail => match v.registry_tab {
            Tab::Overview => Pane::NoList,
            Tab::Users => Pane::Users,
            Tab::Images => match v.image_pane {
                ImagePane::Repositories => Pane::Repositories,
                ImagePane::Tags => Pane::Tags,
            },
        },
    }
}

/// The list of the monitoring suite screen. Tabs without a left/right split
/// show their one list whatever the focus.
pub open spec fn spec_monitoring_pane(focus: ListFocus, tab: MonitoringTab) -> Pane {
    if focus == ListFocus::Left && tab == MonitoringTab::Storages {
        Pane::Storages
    } else if tab == MonitoringTab::LogRoutings {
        Pane::LogRoutings
    } else if tab == MonitoringTab::MetricsRoutings {
        Pane::MetricsRoutings
    } else if tab == MonitoringTab::Dashboards {
        Pane::Dashboards
    } else if focus == ListFocus::Left {
        Pane::Projects
    } else {
        match tab {
            MonitoringTab::Rules => Pane::Rules,
            MonitoringTab::Histories => Pane::Histories,
            MonitoringTab::Storages => Pane::StorageKeys,
            MonitoringTab::NotificationTargets => Pane::NotificationTargets,
            MonitoringTab::NotificationRoutings => Pane::NotificationRoutings,
            MonitoringTab::LogMeasureRules => Pane::LogMeasureRules,
            MonitoringTab::LogRoutings => Pane::LogRoutings,
            MonitoringTab::MetricsRoutings => Pane::MetricsRoutings,
            MonitoringTab::Dashboards => Pane::Dashboards,
        }
    }
}

/// The list the keys act on.
pub open spec fn spec_active_pane(v: ViewState) -> Pane {
    match v.service {
        Service::Registry => spec_registry_pane(v),
        Service::AppRun => v.apprun_pane,
        Service::Dedicated => v.dedicated_pane,
        Service::Server => v.server_pane,
        Service::SshKey => Pane::SshKeys,
        Service::Switch => Pane::Switches,
        Service::NetworkMap => Pane::NetworkMap,
        Service::PacketFilter => match v.packet_filter_focus {
            ListFocus::Left => Pane::PacketFilters,
            ListFocus::Right => Pane::PacketFilterRules,
        },
        Service::Disk | Service::Archive | Service::IsoImage | Service::Internet | Service::Bridge
        | Service::LoadBalancer | Service::VpcRouter | Service::MobileGateway | Service::Database
        | Service::Nfs => Pane::CloudResources,
        Service::ObjectStorage | Service::SimpleMq | Service::SimpleNotification | Service::EventBus
        | Service::Workflows | Service::WebAccel | Service::EnhancedLoadBalancer | Service::LocalRouter
        | Service::Gslb | Service::Kms | Service::Iam | Service::AutoScale | Service::EnhancedDb
        | Service::AutoBackup => Pane::ManagedResources,
        Service::AiEngine => match v.ai_engine_tab {
            AiEngineTab::Models => if v.ai_engine_shows_cloud_models {
                Pane::AiEngineModels
            } else {
                Pane::ManagedResources
            },
            AiEngineTab::Documents => Pane::AiEngineDocuments,
            AiEngineTab::Usage | AiEngineTab::Billing | AiEngineTab::Account => Pane::NoList,
        },
        Service::NetworkingSuite => match v.networking_suite_tab {
            NetworkingSuiteTab::Groups => Pane::NetworkingSuiteGroups,
            NetworkingSuiteTab::Subnets => Pane::NetworkingSuiteSubnets,
            NetworkingSuiteTab::Addresses => Pane::NetworkingSuiteAddresses,
        },
        Service::CloudHsm => match v.cloudhsm_tab {
            CloudHsmTab::Hsms => Pane::CloudHsmHsms,
            CloudHsmTab::Clients => Pane::CloudHsmClients,
            CloudHsmTab::Licenses => Pane::CloudHsmLicenses,
            CloudHsmTab::Documents => Pane::CloudHsmDocuments,
        },
        Service::SecurityControl => match v.security_control_tab {
            SecurityControlTab::Rules => Pane::SecurityControlRules,
            SecurityControlTab::Actions => Pane::SecurityControlActions,
        },
        Service::Seg => match v.seg_tab {
            SegTab::Gateways => Pane::SegGateways,
            SegTab::Services => Pane::SegServices,
        },
        Service::NoSql => match v.nosql_tab {
            NoSqlTab::Databases => Pane::NoSqlDatabases,
            NoSqlTab::Nodes => Pane::NoSqlNodes,
            NoSqlTab::Backups => Pane::NoSqlBackups,
            NoSqlTab::Parameters => Pane::NoSqlParameters,
        },
        Service::ApiGateway => match v.api_gateway_tab {
            ApiGatewayTab::Subscriptions => Pane::ApiGatewaySubscriptions,
            ApiGatewayTab::Services => Pane::ApiGatewayServices,
            ApiGatewayTab::Routes => Pane::ApiGatewayRoutes,
            ApiGatewayTab::Users => Pane::ApiGatewayUsers,
            ApiGatewayTab::Groups => Pane::ApiGatewayGroups,
            ApiGatewayTab::Domains => Pane::ApiGatewayDomains,
            ApiGatewayTab::Certificates => Pane::ApiGatewayCertificates,
            ApiGatewayTab::Oidc => Pane::ApiGatewayOidcs,
        },
        Service::Dns => match v.dns_focus {
            ListFocus::Left => Pane::DnsZones,
            ListFocus::Right => Pane::DnsRecords,
        },
        Service::SimpleMonitor => Pane::Monitors,
        Service::Secrets => match v.secrets_focus {
            ListFocus::Left => Pane::Vaults,
            ListFocus::Right => Pane::Secrets,
        },
        Service::Account => Pane::Account,
        Service::Billing => v.billing_pane,
        Service::Monitoring => spec_monitoring_pane(v.monitoring_focus, v.monitoring_tab),
    }
}

fn registry_pane(v: &ViewState) -> (p: Pane)
    ensures
        p == spec_registry_pane(*v),
{
    match v.registry_focus {
        Focus::Registries => Pane::Registries,
        Focus::Detail => match v.registry_tab {
            Tab::Overview => Pane::NoList,
            Tab::Users => Pane::Users,
            Tab::Images => match v.image_pane {
                ImagePane::Repositories => Pane::Repositories,
                ImagePane::Tags => Pane::Tags,
            },
        },
    }
}

fn monitoring_pane(focus: ListFocus, tab: MonitoringTab) -> (p: Pane)
    ensures
        p == spec_monitoring_pane(focus, tab),
{
    match focus {
        ListFocus::Left if tab == MonitoringTab::Storages => Pane::Storages,
        _ if tab == MonitoringTab::LogRoutings => Pane::LogRoutings,
        _ if tab == MonitoringTab::MetricsRoutings => Pane::MetricsRoutings,
        _ if tab == MonitoringTab::Dashboards => Pane::Dashboards,
        ListFocus::Left => Pane::Projects,
        ListFocus::Right => match tab {
            MonitoringTab::Rules => Pane::Rules,
            MonitoringTab::Histories => Pane::Histories,
            MonitoringTab::Storages => Pane::StorageKeys,
            MonitoringTab::NotificationTargets => Pane::NotificationTargets,
            MonitoringTab::NotificationRoutings => Pane::NotificationRoutings,
            MonitoringTab::LogMeasureRules => Pane::LogMeasureRules,
            MonitoringTab::LogRoutings => Pane::LogRoutings,
            MonitoringTab::MetricsRoutings => Pane::MetricsRoutings,
            MonitoringTab::Dashboards => Pane::Dashboards,
        },
    }
}

impl ViewState {
    /// The list the keys act on.
    pub fn active_pane(&self) -> (p: Pane)
        ensures
            p == spec_active_pane(*self),
    {
        match self.service {
            Service::Registry => registry_pane(self),
            Service::AppRun => self.apprun_pane,
            Service::Dedicated => self.dedicated_pane,
            Service::Server => self.server_pane,
            Service::SshKey => Pane::SshKeys,
            Service::Switch => Pane::Switches,
            Service::NetworkMap => Pane::NetworkMap,
            Service::PacketFilter => match self.packet_filter_focus {
                ListFocus::Left => Pane::PacketFilters,
                ListFocus::Right => Pane::PacketFilterRules,
            },
            Service::Disk | Service::Archive | Service::IsoImage | Service::Internet | Service::Bridge
            | Service::LoadBalancer | Service::VpcRouter | Service::MobileGateway | Service::Database
            | Service::Nfs => Pane::CloudResources,
            Service::ObjectStorage | Service::SimpleMq | Service::SimpleNotification | Service::EventBus
            | Service::Workflows | Service::WebAccel | Service::EnhancedLoadBalancer | Service::LocalRouter
            | Service::Gslb | Service::Kms | Service::Iam | Service::AutoScale | Service::EnhancedDb
            | Service::AutoBackup => Pane::ManagedResources,
            Service::AiEngine => match self.ai_engine_tab {
                AiEngineTab::Models => if self.ai_engine_shows_cloud_models {
                    Pane::AiEngineModels
                } else {
                    Pane::ManagedResources
                },
                AiEngineTab::Documents => Pane::AiEngineDocuments,
                AiEngineTab::Usage | AiEngineTab::Billing | AiEngineTab::Account => Pane::NoList,
            },
            Service::NetworkingSuite => match self.networking_suite_tab {
                NetworkingSuiteTab::Groups => Pane::NetworkingSuiteGroups,
                NetworkingSuiteTab::Subnets => Pane::NetworkingSuiteSubnets,
                NetworkingSuiteTab::Addresses => Pane::NetworkingSuiteAddresses,
            },
            Service::CloudHsm => match self.cloudhsm_tab {
                CloudHsmTab::Hsms => Pane::CloudHsmHsms,
                CloudHsmTab::Clients => Pane::CloudHsmClients,
                CloudHsmTab::Licenses => Pane::CloudHsmLicenses,
                CloudHsmTab::Documents => Pane::CloudHsmDocuments,
            },
            Service::SecurityControl => match self.security_control_tab {
                SecurityControlTab::Rules => Pane::SecurityControlRules,
                SecurityControlTab::Actions => Pane::SecurityControlActions,
            },
            Service::Seg => match self.seg_tab {
                SegTab::Gateways => Pane::SegGateways,
                SegTab::Services => Pane::SegServices,
            },
            Service::NoSql => match self.nosql_tab {
                NoSqlTab::Databases => Pane::NoSqlDatabases,
                NoSqlTab::Nodes => Pane::NoSqlNodes,
                NoSqlTab::Backups => Pane::NoSqlBackups,
                NoSqlTab::Parameters => Pane::NoSqlParameters,
            },
            Service::ApiGateway => match self.api_gateway_tab {
                ApiGatewayTab::Subscriptions => Pane::ApiGatewaySubscriptions,
                ApiGatewayTab::Services => Pane::ApiGatewayServices,
                ApiGatewayTab::Routes => Pane::ApiGatewayRoutes,
                ApiGatewayTab::Users => Pane::ApiGatewayUsers,
                ApiGatewayTab::Groups => Pane::ApiGatewayGroups,
                ApiGatewayTab::Domains => Pane::ApiGatewayDomains,
                ApiGatewayTab::Certificates => Pane::ApiGatewayCertificates,
                ApiGatewayTab::Oidc => Pane::ApiGatewayOidcs,
            },
            Service::Dns => match self.dns_focus {
                ListFocus::Left => Pane::DnsZones,
                ListFocus::Right => Pane::DnsRecords,
            },
            Service::SimpleMonitor => Pane::Monitors,
            Service::Secrets => match self.secrets_focus {
                ListFocus::Left => Pane::Vaults,
                ListFocus::Right => Pane::Secrets,
            },
            Service::Account => Pane::Account,
            Service::Billing => self.billing_pane,
            Service::Monitoring => monitoring_pane(self.monitoring_focus, self.monitoring_tab),
        }
    }
}

impl Default for ViewState {
    /// The registry list, with every screen on its first tab and its left list.
    fn default() -> (v: ViewState)
        ensures
            v.service == Service::Registry,
            v.registry_focus == Focus::Registries,
            v.registry_tab == Tab::Overview,
            v.image_pane == ImagePane::Repositories,
            v.apprun_pane == Pane::Applications,
            v.dedicated_pane == Pane::Clusters,
            v.server_pane == Pane::Servers,
            v.billing_pane == Pane::Bills,
            v.packet_filter_focus == ListFocus::Left,
            v.ai_engine_tab == AiEngineTab::Models,
            !v.ai_engine_shows_cloud_models,
            v.networking_suite_tab == NetworkingSuiteTab::Groups,
            v.cloudhsm_tab == CloudHsmTab::Hsms,
            v.security_control_tab == SecurityControlTab::Rules,
            v.seg_tab == SegTab::Gateways,
            v.nosql_tab == NoSqlTab::Databases,
            v.api_gateway_tab == ApiGatewayTab::Subscriptions,
            v.dns_focus == ListFocus::Left,
            v.secrets_focus == ListFocus::Left,
            v.monitoring_focus == ListFocus::Left,
            v.monitoring_tab == MonitoringTab::Rules,
    {
        ViewState {
            service: Service::Registry,
            registry_focus: Focus::Registries,
            registry_tab: Tab::Overview,
            image_pane: ImagePane::Repositories,
            apprun_pane: Pane::Applications,
            dedicated_pane: Pane::Clusters,
            server_pane: Pane::Servers,
            billing_pane: Pane::Bills,
            packet_filter_focus: ListFocus::Left,
            ai_engine_tab: AiEngineTab::Models,
            ai_engine_shows_cloud_models: false,
            networking_suite_tab: NetworkingSuiteTab::Groups,
            cloudhsm_tab: CloudHsmTab::Hsms,
            security_control_tab: SecurityControlTab::Rules,
            seg_tab: SegTab::Gateways,
            nosql_tab: NoSqlTab::Databases,
            api_gateway_tab: ApiGatewayTab::Subscriptions,
            dns_focus: ListFocus::Left,
            secrets_focus: ListFocus::Left,
            monitoring_focus: ListFocus::Left,
            monitoring_tab: MonitoringTab::Rules,
        }
    }
}

} // verus!
