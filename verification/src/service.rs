//! Service catalogue: categories, per-service metadata, and the moves of the
//! service picker.

use vstd::prelude::*;

use crate::tabs::{lemma_wrap_round_trip, wrap_index};
use crate::text::{ascii_eq_ignore_case, has_substring, seq_ascii_eq_ignore_case, str_contains};

verus! {

/// Whether a service can be used with the current credentials.
#[derive(Debug, Clone, Copy, PartialEq, Eq)]
pub enum Availability {
    /// Nothing to judge from yet.
    Unknown,
    Usable,
    /// Not usable; carries a short reason.
    Unusable(&'static str),
}

/// The short reason derived from an error text.
pub open spec fn spec_availability_reason(error: Seq<char>) -> Seq<char> {
    if has_substring(error, "403"@) || has_substring(error, "許可されていません"@) {
        "権限なし"@
    } else if has_substring(error, "404"@) {
        "未提供"@
    } else if has_substring(error, "401"@) {
        "認証エラー"@
    } else {
        "取得できず"@
    }
}

/// Derives a short reason from an error text, so that it fits in a list row.
pub fn availability_reason(error: &str) -> (r: &'static str)
    ensures
        r@ == spec_availability_reason(error@),
{
    if str_contains(error, "403") || str_contains(error, "許可されていません") {
        "権限なし"
    } else if str_contains(error, "404") {
        "未提供"
    } else if str_contains(error, "401") {
        "認証エラー"
    } else {
        "取得できず"
    }
}

/// The broad grouping of services, in the order the catalogue shows them.
#[derive(Debug, Clone, Copy, PartialEq, Eq, Hash, Structural)]
pub enum Category {
    Compute,
    Container,
    Ai,
    Integration,
    Network,
    Storage,
    Security,
    Ops,
    Account,
}

impl Category {
    /// Display order; the service list follows the same order.
    pub const ALL: [Category; 9] = [
        Category::Compute,
        Category::Container,
        Category::Ai,
        Category::Integration,
        Category::Network,
        Category::Storage,
        Category::Security,
        Category::Ops,
        Category::Account,
    ];

    /// Position of the category in [`Category::ALL`].
    pub open spec fn ordinal(self) -> int {
        match self {
            Category::Compute => 0,
            Category::Container => 1,
            Category::Ai => 2,
            Category::Integration => 3,
            Category::Network => 4,
            Category::Storage => 5,
            Category::Security => 6,
            Category::Ops => 7,
            Category::Account => 8,
        }
    }

    pub open spec fn spec_title(self) -> Seq<char> {
        match self {
            Category::Compute => "コンピュート"@,
            Category::Container => "コンテナ・アプリ実行"@,
            Category::Ai => "AI"@,
            Category::Integration => "アプリケーション連携"@,
            Category::Network => "ネットワーク"@,
            Category::Storage => "ストレージ・データ"@,
            Category::Security => "セキュリティ"@,
            Category::Ops => "運用・監視"@,
            Category::Account => "アカウント"@,
        }
    }

    pub fn title(self) -> (t: &'static str)
        ensures
            t@ == self.spec_title(),
    {
        match self {
            Category::Compute => "コンピュート",
            Category::Container => "コンテナ・アプリ実行",
            Category::Ai => "AI",
            Category::Integration => "アプリケーション連携",
            Category::Network => "ネットワーク",
            Category::Storage => "ストレージ・データ",
            Category::Security => "セキュリティ",
            Category::Ops => "運用・監視",
            Category::Account => "アカウント",
        }
    }

    /// The services of this category, in catalogue order.
    pub fn services(self) -> (r: Vec<Service>)
        ensures
            r@ == services_of(self),
    {
        let indices = category_service_indices(self);
        proof { lemma_indices_below(self, 45); }
        let mut out: Vec<Service> = Vec::new();
        let mut i: usize = 0;
        while i < indices.len()
            invariant
                indices@ == category_indices(self),
                i <= indices.len(),
                forall|k: int| 0 <= k < indices.len() ==> #[trigger] indices@[k] < 45,
                out@ == services_of(self).subrange(0, i as int),
            decreases indices.len() - i,
        {
            proof { lemma_indices_below(self, 45); }
            out.push(Service::ALL[indices[i]]);
            i = i + 1;
            assert(out@ =~= services_of(self).subrange(0, i as int));
        }
        assert(out@ =~= services_of(self));
        out
    }
}

/// Services handled by the client.
#[derive(Debug, Clone, Copy, PartialEq, Eq, Hash, Structural)]
pub enum Service {
    Registry,
    AppRun,
    Dedicated,
    AiEngine,
    SimpleMq,
    SimpleNotification,
    EventBus,
    Workflows,
    ApiGateway,
    AutoScale,
    Server,
    SshKey,
    Switch,
    NetworkMap,
    Disk,
    Internet,
    PacketFilter,
    Bridge,
    LoadBalancer,
    EnhancedLoadBalancer,
    VpcRouter,
    Gslb,
    MobileGateway,
    LocalRouter,
    Seg,
    NetworkingSuite,
    Database,
    NoSql,
    Nfs,
    Archive,
    IsoImage,
    ObjectStorage,
    EnhancedDb,
    AutoBackup,
    WebAccel,
    Dns,
    SimpleMonitor,
    Secrets,
    Kms,
    Iam,
    SecurityControl,
    CloudHsm,
    Monitoring,
    Account,
    Billing,
}

impl Default for Service {
    fn default() -> (s: Service)
        ensures
            s == Service::Registry,
    {
        Service::Registry
    }
}

/// Per-service metadata, kept in one table.
#[derive(Debug, Clone, Copy)]
pub struct ServiceMeta {
    pub category: Category,
    pub title: &'static str,
    pub arg_name: &'static str,
    pub countable_label: Option<&'static str>,
    pub count_label: Option<&'static str>,
    pub zoned: bool,
}

impl Service {
    /// Catalogue order, grouped by category. The picker, cycling with `s` and the
    /// help of `--service` all follow this order.
    pub const ALL: [Service; 45] = [
        Service::Server,
        Service::SshKey,
        Service::Registry,
        Service::AppRun,
        Service::Dedicated,
        Service::AiEngine,
        Service::SimpleMq,
        Service::SimpleNotification,
        Service::EventBus,
        Service::Workflows,
        Service::ApiGateway,
        Service::NetworkMap,
        Service::Switch,
        Service::Internet,
        Service::PacketFilter,
        Service::Bridge,
        Service::LoadBalancer,
        Service::EnhancedLoadBalancer,
        Service::VpcRouter,
        Service::Gslb,
        Service::MobileGateway,
        Service::LocalRouter,
        Service::Dns,
        Service::Seg,
        Service::NetworkingSuite,
        Service::WebAccel,
        Service::Disk,
        Service::Archive,
        Service::IsoImage,
        Service::Database,
        Service::NoSql,
        Service::Nfs,
        Service::ObjectStorage,
        Service::EnhancedDb,
        Service::AutoBackup,
        Service::Secrets,
        Service::Kms,
        Service::Iam,
        Service::SecurityControl,
        Service::CloudHsm,
        Service::SimpleMonitor,
        Service::Monitoring,
        Service::AutoScale,
        Service::Account,
        Service::Billing,
    ];

    /// The metadata table.
    pub open spec fn spec_meta(self) -> ServiceMeta {
        match self {
            Service::Server => ServiceMeta { category: Category::Compute, title: "サーバー", arg_name: "server", countable_label: Some("サーバー"), count_label: Some("台"), zoned: true },
            Service::SshKey => ServiceMeta { category: Category::Compute, title: "SSH公開鍵", arg_name: "ssh-key", countable_label: None, count_label: Some("件"), zoned: false },
            Service::Registry => ServiceMeta { category: Category::Container, title: "コンテナレジストリ", arg_name: "registry", countable_label: None, count_label: Some("件"), zoned: false },
            Service::AppRun => ServiceMeta { category: Category::Container, title: "AppRun", arg_name: "apprun", countable_label: None, count_label: Some("アプリ"), zoned: false },
            Service::Dedicated => ServiceMeta { category: Category::Container, title: "AppRun専有型", arg_name: "dedicated", countable_label: None, count_label: Some("クラスタ"), zoned: false },
            Service::AiEngine => ServiceMeta { category: Category::Ai, title: "AI Engine", arg_name: "ai-engine", countable_label: None, count_label: None, zoned: false },
            Service::SimpleMq => ServiceMeta { category: Category::Integration, title: "シンプルMQ", arg_name: "simplemq", countable_label: None, count_label: Some("キュー"), zoned: false },
            Service::SimpleNotification => ServiceMeta { category: Category::Integration, title: "シンプル通知", arg_name: "simple-notification", countable_label: None, count_label: Some("設定"), zoned: false },
            Service::EventBus => ServiceMeta { category: Category::Integration, title: "イベントバス", arg_name: "eventbus", countable_label: None, count_label: Some("リソース"), zoned: false },
            Service::Workflows => ServiceMeta { category: Category::Integration, title: "ワークフロー", arg_name: "workflows", countable_label: None, count_label: Some("件"), zoned: false },
            Service::ApiGateway => ServiceMeta { category: Category::Integration, title: "APIゲートウェイ", arg_name: "api-gateway", countable_label: None, count_label: Some("サービス"), zoned: false },
            Service::NetworkMap => ServiceMeta { category: Category::Network, title: "接続マップ", arg_name: "network-map", countable_label: None, count_label: None, zoned: true },
            Service::Switch => ServiceMeta { category: Category::Network, title: "スイッチ", arg_name: "switch", countable_label: Some("スイッチ"), count_label: Some("台"), zoned: true },
            Service::Internet => ServiceMeta { category: Category::Network, title: "ルータ＋スイッチ", arg_name: "internet", countable_label: Some("ルータ＋スイッチ"), count_label: Some("台"), zoned: true },
            Service::PacketFilter => ServiceMeta { category: Category::Network, title: "パケットフィルタ", arg_name: "packet-filter", countable_label: Some("パケットフィルタ"), count_label: Some("件"), zoned: true },
            Service::Bridge => ServiceMeta { category: Category::Network, title: "ブリッジ接続", arg_name: "bridge", countable_label: Some("ブリッジ"), count_label: Some("件"), zoned: true },
            Service::VpcRouter => ServiceMeta { category: Category::Network, title: "VPCルータ", arg_name: "vpcrouter", countable_label: Some("VPCルータ"), count_label: Some("台"), zoned: true },
            Service::LocalRouter => ServiceMeta { category: Category::Network, title: "ローカルルータ", arg_name: "local-router", countable_label: None, count_label: Some("台"), zoned: false },
            Service::MobileGateway => ServiceMeta { category: Category::Network, title: "モバイルゲートウェイ", arg_name: "mobile-gateway", countable_label: Some("モバイルゲートウェイ"), count_label: Some("台"), zoned: true },
            Service::Seg => ServiceMeta { category: Category::Network, title: "サービスエンドポイントゲートウェイ", arg_name: "seg", countable_label: Some("ゲートウェイ"), count_label: Some("台"), zoned: true },
            Service::NetworkingSuite => ServiceMeta { category: Category::Network, title: "ネットワークスイート", arg_name: "networking-suite", countable_label: None, count_label: Some("グループ"), zoned: false },
            Service::LoadBalancer => ServiceMeta { category: Category::Network, title: "ロードバランサ", arg_name: "loadbalancer", countable_label: Some("ロードバランサ"), count_label: Some("台"), zoned: true },
            Service::EnhancedLoadBalancer => ServiceMeta { category: Category::Network, title: "エンハンスドロードバランサ", arg_name: "enhanced-loadbalancer", countable_label: None, count_label: Some("台"), zoned: false },
            Service::Gslb => ServiceMeta { category: Category::Network, title: "GSLB", arg_name: "gslb", countable_label: None, count_label: Some("台"), zoned: false },
            Service::Dns => ServiceMeta { category: Category::Network, title: "DNS", arg_name: "dns", countable_label: None, count_label: Some("DNSゾーン"), zoned: false },
            Service::WebAccel => ServiceMeta { category: Category::Network, title: "ウェブアクセラレータ", arg_name: "webaccel", countable_label: None, count_label: Some("サイト"), zoned: false },
            Service::Disk => ServiceMeta { category: Category::Storage, title: "ディスク", arg_name: "disk", countable_label: Some("ディスク"), count_label: Some("台"), zoned: true },
            Service::Archive => ServiceMeta { category: Category::Storage, title: "アーカイブ", arg_name: "archive", countable_label: Some("アーカイブ"), count_label: Some("件"), zoned: true },
            Service::IsoImage => ServiceMeta { category: Category::Storage, title: "ISOイメージ", arg_name: "iso-image", countable_label: Some("ISOイメージ"), count_label: Some("件"), zoned: true },
            Service::Database => ServiceMeta { category: Category::Storage, title: "データベース", arg_name: "database", countable_label: Some("データベース"), count_label: Some("台"), zoned: true },
            Service::NoSql => ServiceMeta { category: Category::Storage, title: "NoSQL", arg_name: "nosql", countable_label: None, count_label: Some("DB"), zoned: false },
            Service::Nfs => ServiceMeta { category: Category::Storage, title: "NFS", arg_name: "nfs", countable_label: Some("NFS"), count_label: Some("台"), zoned: true },
            Service::ObjectStorage => ServiceMeta { category: Category::Storage, title: "オブジェクトストレージ", arg_name: "object-storage", countable_label: None, count_label: Some("バケット"), zoned: false },
            Service::EnhancedDb => ServiceMeta { category: Category::Storage, title: "エンハンスドデータベース", arg_name: "enhanced-db", countable_label: None, count_label: Some("DB"), zoned: false },
            Service::AutoBackup => ServiceMeta { category: Category::Storage, title: "自動バックアップ", arg_name: "auto-backup", countable_label: None, count_label: Some("設定"), zoned: false },
            Service::Secrets => ServiceMeta { category: Category::Security, title: "シークレットマネージャ", arg_name: "secrets", countable_label: None, count_label: Some("Vault"), zoned: false },
            Service::Kms => ServiceMeta { category: Category::Security, title: "KMS", arg_name: "kms", countable_label: None, count_label: Some("鍵"), zoned: false },
            Service::Iam => ServiceMeta { category: Category::Security, title: "IAM", arg_name: "iam", countable_label: None, count_label: Some("リソース"), zoned: false },
            Service::SecurityControl => ServiceMeta { category: Category::Security, title: "セキュリティコントロール", arg_name: "security-control", countable_label: None, count_label: Some("ルール"), zoned: false },
            Service::CloudHsm => ServiceMeta { category: Category::Security, title: "クラウドHSM", arg_name: "cloudhsm", countable_label: Some("HSM"), count_label: Some("台"), zoned: true },
            Service::SimpleMonitor => ServiceMeta { category: Category::Ops, title: "シンプル監視", arg_name: "monitor", countable_label: None, count_label: Some("件"), zoned: false },
            Service::Monitoring => ServiceMeta { category: Category::Ops, title: "モニタリングスイート", arg_name: "monitoring", countable_label: Some("プロジェクト"), count_label: Some("プロジェクト"), zoned: true },
            Service::AutoScale => ServiceMeta { category: Category::Ops, title: "オートスケール", arg_name: "autoscale", countable_label: None, count_label: Some("設定"), zoned: false },
            Service::Account => ServiceMeta { category: Category::Account, title: "権限", arg_name: "account", countable_label: None, count_label: None, zoned: false },
            Service::Billing => ServiceMeta { category: Category::Account, title: "請求", arg_name: "billing", countable_label: None, count_label: Some("件"), zoned: false },
        }
    }

    fn meta(self) -> (m: ServiceMeta)
        ensures
            m == self.spec_meta(),
    {
        match self {
            Service::Server => ServiceMeta { category: Category::Compute, title: "サーバー", arg_name: "server", countable_label: Some("サーバー"), count_label: Some("台"), zoned: true },
            Service::SshKey => ServiceMeta { category: Category::Compute, title: "SSH公開鍵", arg_name: "ssh-key", countable_label: None, count_label: Some("件"), zoned: false },
            Service::Registry => ServiceMeta { category: Category::Container, title: "コンテナレジストリ", arg_name: "registry", countable_label: None, count_label: Some("件"), zoned: false },
            Service::AppRun => ServiceMeta { category: Category::Container, title: "AppRun", arg_name: "apprun", countable_label: None, count_label: Some("アプリ"), zoned: false },
            Service::Dedicated => ServiceMeta { category: Category::Container, title: "AppRun専有型", arg_name: "dedicated", countable_label: None, count_label: Some("クラスタ"), zoned: false },
            Service::AiEngine => ServiceMeta { category: Category::Ai, title: "AI Engine", arg_name: "ai-engine", countable_label: None, count_label: None, zoned: false },
            Service::SimpleMq => ServiceMeta { category: Category::Integration, title: "シンプルMQ", arg_name: "simplemq", countable_label: None, count_label: Some("キュー"), zoned: false },
            Service::SimpleNotification => ServiceMeta { category: Category::Integration, title: "シンプル通知", arg_name: "simple-notification", countable_label: None, count_label: Some("設定"), zoned: false },
            Service::EventBus => ServiceMeta { category: Category::Integration, title: "イベントバス", arg_name: "eventbus", countable_label: None, count_label: Some("リソース"), zoned: false },
            Service::Workflows => ServiceMeta { category: Category::Integration, title: "ワークフロー", arg_name: "workflows", countable_label: None, count_label: Some("件"), zoned: false },
            Service::ApiGateway => ServiceMeta { category: Category::Integration, title: "APIゲートウェイ", arg_name: "api-gateway", countable_label: None, count_label: Some("サービス"), zoned: false },
            Service::NetworkMap => ServiceMeta { category: Category::Network, title: "接続マップ", arg_name: "network-map", countable_label: None, count_label: None, zoned: true },
            Service::Switch => ServiceMeta { category: Category::Network, title: "スイッチ", arg_name: "switch", countable_label: Some("スイッチ"), count_label: Some("台"), zoned: true },
            Service::Internet => ServiceMeta { category: Category::Network, title: "ルータ＋スイッチ", arg_name: "internet", countable_label: Some("ルータ＋スイッチ"), count_label: Some("台"), zoned: true },
            Service::PacketFilter => ServiceMeta { category: Category::Network, title: "パケットフィルタ", arg_name: "packet-filter", countable_label: Some("パケットフィルタ"), count_label: Some("件"), zoned: true },
            Service::Bridge => ServiceMeta { category: Category::Network, title: "ブリッジ接続", arg_name: "bridge", countable_label: Some("ブリッジ"), count_label: Some("件"), zoned: true },
            Service::VpcRouter => ServiceMeta { category: Category::Network, title: "VPCルータ", arg_name: "vpcrouter", countable_label: Some("VPCルータ"), count_label: Some("台"), zoned: true },
            Service::LocalRouter => ServiceMeta { category: Category::Network, title: "ローカルルータ", arg_name: "local-router", countable_label: None, count_label: Some("台"), zoned: false },
            Service::MobileGateway => ServiceMeta { category: Category::Network, title: "モバイルゲートウェイ", arg_name: "mobile-gateway", countable_label: Some("モバイルゲートウェイ"), count_label: Some("台"), zoned: true },
            Service::Seg => ServiceMeta { category: Category::Network, title: "サービスエンドポイントゲートウェイ", arg_name: "seg", countable_label: Some("ゲートウェイ"), count_label: Some("台"), zoned: true },
            Service::NetworkingSuite => ServiceMeta { category: Category::Network, title: "ネットワークスイート", arg_name: "networking-suite", countable_label: None, count_label: Some("グループ"), zoned: false },
            Service::LoadBalancer => ServiceMeta { category: Category::Network, title: "ロードバランサ", arg_name: "loadbalancer", countable_label: Some("ロードバランサ"), count_label: Some("台"), zoned: true },
            Service::EnhancedLoadBalancer => ServiceMeta { category: Category::Network, title: "エンハンスドロードバランサ", arg_name: "enhanced-loadbalancer", countable_label: None, count_label: Some("台"), zoned: false },
            Service::Gslb => ServiceMeta { category: Category::Network, title: "GSLB", arg_name: "gslb", countable_label: None, count_label: Some("台"), zoned: false },
            Service::Dns => ServiceMeta { category: Category::Network, title: "DNS", arg_name: "dns", countable_label: None, count_label: Some("DNSゾーン"), zoned: false },
            Service::WebAccel => ServiceMeta { category: Category::Network, title: "ウェブアクセラレータ", arg_name: "webaccel", countable_label: None, count_label: Some("サイト"), zoned: false },
            Service::Disk => ServiceMeta { category: Category::Storage, title: "ディスク", arg_name: "disk", countable_label: Some("ディスク"), count_label: Some("台"), zoned: true },
            Service::Archive => ServiceMeta { category: Category::Storage, title: "アーカイブ", arg_name: "archive", countable_label: Some("アーカイブ"), count_label: Some("件"), zoned: true },
            Service::IsoImage => ServiceMeta { category: Category::Storage, title: "ISOイメージ", arg_name: "iso-image", countable_label: Some("ISOイメージ"), count_label: Some("件"), zoned: true },
            Service::Database => ServiceMeta { category: Category::Storage, title: "データベース", arg_name: "database", countable_label: Some("データベース"), count_label: Some("台"), zoned: true },
            Service::NoSql => ServiceMeta { category: Category::Storage, title: "NoSQL", arg_name: "nosql", countable_label: None, count_label: Some("DB"), zoned: false },
            Service::Nfs => ServiceMeta { category: Category::Storage, title: "NFS", arg_name: "nfs", countable_label: Some("NFS"), count_label: Some("台"), zoned: true },
            Service::ObjectStorage => ServiceMeta { category: Category::Storage, title: "オブジェクトストレージ", arg_name: "object-storage", countable_label: None, count_label: Some("バケット"), zoned: false },
            Service::EnhancedDb => ServiceMeta { category: Category::Storage, title: "エンハンスドデータベース", arg_name: "enhanced-db", countable_label: None, count_label: Some("DB"), zoned: false },
            Service::AutoBackup => ServiceMeta { category: Category::Storage, title: "自動バックアップ", arg_name: "auto-backup", countable_label: None, count_label: Some("設定"), zoned: false },
            Service::Secrets => ServiceMeta { category: Category::Security, title: "シークレットマネージャ", arg_name: "secrets", countable_label: None, count_label: Some("Vault"), zoned: false },
            Service::Kms => ServiceMeta { category: Category::Security, title: "KMS", arg_name: "kms", countable_label: None, count_label: Some("鍵"), zoned: false },
            Service::Iam => ServiceMeta { category: Category::Security, title: "IAM", arg_name: "iam", countable_label: None, count_label: Some("リソース"), zoned: false },
            Service::SecurityControl => ServiceMeta { category: Category::Security, title: "セキュリティコントロール", arg_name: "security-control", countable_label: None, count_label: Some("ルール"), zoned: false },
            Service::CloudHsm => ServiceMeta { category: Category::Security, title: "クラウドHSM", arg_name: "cloudhsm", countable_label: Some("HSM"), count_label: Some("台"), zoned: true },
            Service::SimpleMonitor => ServiceMeta { category: Category::Ops, title: "シンプル監視", arg_name: "monitor", countable_label: None, count_label: Some("件"), zoned: false },
            Service::Monitoring => ServiceMeta { category: Category::Ops, title: "モニタリングスイート", arg_name: "monitoring", countable_label: Some("プロジェクト"), count_label: Some("プロジェクト"), zoned: true },
            Service::AutoScale => ServiceMeta { category: Category::Ops, title: "オートスケール", arg_name: "autoscale", countable_label: None, count_label: Some("設定"), zoned: false },
            Service::Account => ServiceMeta { category: Category::Account, title: "権限", arg_name: "account", countable_label: None, count_label: None, zoned: false },
            Service::Billing => ServiceMeta { category: Category::Account, title: "請求", arg_name: "billing", countable_label: None, count_label: Some("件"), zoned: false },
        }
    }

    /// The category the service belongs to.
    pub fn category(self) -> (c: Category)
        ensures
            c == self.spec_meta().category,
    {
        self.meta().category
    }

    pub fn title(self) -> (t: &'static str)
        ensures
            t == self.spec_meta().title,
    {
        self.meta().title
    }

    /// Short name accepted by `--service`.
    pub fn arg_name(self) -> (a: &'static str)
        ensures
            a == self.spec_meta().arg_name,
    {
        self.meta().arg_name
    }

    /// The service named `name` (ASCII case ignored), the first in catalogue order.
    pub fn from_arg(name: &str) -> (r: Option<Service>)
        ensures
            r == spec_from_arg(name@, 0),
    {
        let mut k: usize = 0;
        while k < 45
            invariant
                k <= 45,
                spec_from_arg(name@, 0) == spec_from_arg(name@, k as int),
            decreases 45 - k,
        {
            let svc = Service::ALL[k];
            if ascii_eq_ignore_case(svc.arg_name(), name) {
                return Some(svc);
            }
            k = k + 1;
        }
        None
    }

    /// What is counted per zone; services that do not depend on a zone are not counted.
    pub fn countable_label(self) -> (l: Option<&'static str>)
        ensures
            l == self.spec_meta().countable_label,
    {
        self.meta().countable_label
    }

    /// What the service list counts; `None` for services that cannot be counted.
    pub fn count_label(self) -> (l: Option<&'static str>)
        ensures
            l == self.spec_meta().count_label,
    {
        self.meta().count_label
    }

    /// Whether choosing a zone makes sense for the service.
    pub fn is_zoned(self) -> (z: bool)
        ensures
            z == self.spec_meta().zoned,
    {
        self.meta().zoned
    }
}

/// The first service at or after position `k` of the catalogue whose short name
/// equals `name`, ignoring ASCII case.
pub open spec fn spec_from_arg(name: Seq<char>, k: int) -> Option<Service>
    decreases 45 - k,
{
    if k < 0 || k >= 45 {
        None
    } else if seq_ascii_eq_ignore_case(Service::ALL@[k].spec_meta().arg_name@, name) {
        Some(Service::ALL@[k])
    } else {
        spec_from_arg(name, k + 1)
    }
}

/// Positions in the catalogue, below `k`, of the services of category `c`.
pub open spec fn indices_below(c: Category, k: nat) -> Seq<usize>
    decreases k,
{
    if k == 0 {
        Seq::empty()
    } else {
        let prev = indices_below(c, (k - 1) as nat);
        if Service::ALL@[k - 1].spec_meta().category == c {
            prev.push((k - 1) as usize)
        } else {
            prev
        }
    }
}

/// Positions in the catalogue of the services of category `c`, ascending.
pub open spec fn category_indices(c: Category) -> Seq<usize> {
    indices_below(c, 45)
}

/// The services of category `c`, in catalogue order.
pub open spec fn services_of(c: Category) -> Seq<Service> {
    category_indices(c).map_values(|i: usize| Service::ALL@[i as int])
}

/// What `indices_below` holds: ascending positions below `k`, exactly those of
/// the services of category `c`.
pub proof fn lemma_indices_below(c: Category, k: nat)
    requires
        k <= 45,
    ensures
        indices_below(c, k).len() <= k,
        forall|i: int| 0 <= i < indices_below(c, k).len() ==> #[trigger] indices_below(c, k)[i] < k,
        forall|i: int, j: int|
            0 <= i < j < indices_below(c, k).len() ==> indices_below(c, k)[i] < indices_below(c, k)[j],
        forall|i: int|
            0 <= i < indices_below(c, k).len() ==> Service::ALL@[#[trigger] indices_below(c, k)[i] as int].spec_meta().category == c,
        forall|j: int|
            0 <= j < k && #[trigger] Service::ALL@[j].spec_meta().category == c ==> indices_below(c, k).contains(j as usize),
    decreases k,
{
    if k > 0 {
        lemma_indices_below(c, (k - 1) as nat);
        let prev = indices_below(c, (k - 1) as nat);
        assert forall|j: int|
            0 <= j < k && #[trigger] Service::ALL@[j].spec_meta().category == c implies indices_below(c, k).contains(j as usize) by {
            if j < k - 1 {
                let w = choose|w: int| 0 <= w < prev.len() && prev[w] == j as usize;
                assert(indices_below(c, k)[w] == j as usize);
            } else {
                assert(indices_below(c, k)[indices_below(c, k).len() - 1] == j as usize);
            }
        }
    }
}

/// Every category has at least one service.
pub proof fn law_every_category_has_a_service(c: Category)
    ensures
        category_indices(c).len() > 0,
{
    lemma_indices_below(c, 45);
    let w: int = match c {
        Category::Compute => 0,
        Category::Container => 2,
        Category::Ai => 5,
        Category::Integration => 6,
        Category::Network => 11,
        Category::Storage => 26,
        Category::Security => 35,
        Category::Ops => 40,
        Category::Account => 43,
    };
    assert(Service::ALL@[w].spec_meta().category == c);
    assert(category_indices(c).contains(w as usize));
}

/// Positions of the services of `category` in [`Service::ALL`].
pub fn category_service_indices(category: Category) -> (r: Vec<usize>)
    ensures
        r@ == category_indices(category),
{
    let mut out: Vec<usize> = Vec::new();
    let mut i: usize = 0;
    while i < 45
        invariant
            i <= 45,
            out@ == indices_below(category, i as nat),
        decreases 45 - i,
    {
        if Service::ALL[i].category() == category {
            out.push(i);
        }
        i = i + 1;
    }
    out
}

/// Index of `x` in `s`, or 0 when `x` does not occur (as `position(..).unwrap_or(0)`).
pub open spec fn position_or_zero(s: Seq<usize>, x: usize) -> int
    decreases s.len(),
{
    if s.len() == 0 {
        0
    } else if s[0] == x {
        0
    } else if s.drop_first().contains(x) {
        1 + position_or_zero(s.drop_first(), x)
    } else {
        0
    }
}

/// In a sequence without repeats, the position of its `q`-th element is `q`.
pub proof fn lemma_position_of_element(s: Seq<usize>, q: int)
    requires
        0 <= q < s.len(),
        forall|i: int, j: int| 0 <= i < j < s.len() ==> s[i] < s[j],
    ensures
        position_or_zero(s, s[q]) == q,
    decreases s.len(),
{
    if q > 0 {
        let t = s.drop_first();
        assert(t[q - 1] == s[q]);
        assert(s[0] != s[q]);
        assert(t.contains(s[q]));
        lemma_position_of_element(t, q - 1);
    }
}

/// The element of `s` at `position_or_zero(s, x)` is `x` when `x` occurs in `s`.
pub proof fn lemma_position_finds(s: Seq<usize>, x: usize)
    requires
        s.contains(x),
    ensures
        0 <= position_or_zero(s, x) < s.len(),
        s[position_or_zero(s, x)] == x,
    decreases s.len(),
{
    if s[0] != x {
        let t = s.drop_first();
        let w = choose|w: int| 0 <= w < s.len() && s[w] == x;
        assert(t[w - 1] == x);
        lemma_position_finds(t, x);
    }
}

/// `position_or_zero` is the first position holding `x`.
proof fn lemma_position_first(s: Seq<usize>, x: usize, i: int)
    requires
        0 <= i < s.len(),
        s[i] == x,
        forall|k: int| 0 <= k < i ==> s[k] != x,
    ensures
        position_or_zero(s, x) == i,
    decreases i,
{
    if i > 0 {
        let t = s.drop_first();
        assert(t[i - 1] == x);
        assert(t.contains(x));
        lemma_position_first(t, x, i - 1);
    }
}

/// Position of `x` in `s`, or 0 when absent.
fn position_in(s: &Vec<usize>, x: usize) -> (r: usize)
    ensures
        r == position_or_zero(s@, x),
{
    let mut i: usize = 0;
    while i < s.len()
        invariant
            i <= s.len(),
            forall|k: int| 0 <= k < i ==> s@[k] != x,
        decreases s.len() - i,
    {
        if s[i] == x {
            proof { lemma_position_first(s@, x, i as int); }
            return i;
        }
        i = i + 1;
    }
    proof {
        if s@.len() > 0 {
            assert(!s@.drop_first().contains(x)) by {
                if s@.drop_first().contains(x) {
                    let w = choose|w: int| 0 <= w < s@.len() - 1 && s@.drop_first()[w] == x;
                    assert(s@[w + 1] == x);
                }
            }
        }
    }
    0
}

/// The category of the service at catalogue position `index`.
pub open spec fn category_at(index: int) -> Category {
    Service::ALL@[index].spec_meta().category
}

/// Where `move_service_within_category` lands: `delta` rows further inside the
/// same category, wrapping around at both ends.
pub open spec fn spec_move_within_category(index: int, delta: int) -> usize {
    let indices = category_indices(category_at(index));
    indices[(position_or_zero(indices, index as usize) + delta) % (indices.len() as int)]
}

/// Moves the picker cursor inside its category, wrapping around.
pub fn move_service_within_category(index: usize, delta: i32) -> (r: usize)
    requires
        index < 45,
        position_or_zero(category_indices(category_at(index as int)), index) + delta <= i32::MAX,
    ensures
        r == spec_move_within_category(index as int, delta as int),
{
    let indices = category_service_indices(Service::ALL[index].category());
    proof {
        law_every_category_has_a_service(category_at(index as int));
        lemma_indices_below(category_at(index as int), 45);
        assert(Service::ALL@[index as int].spec_meta().category == category_at(index as int));
        lemma_position_finds(category_indices(category_at(index as int)), index);
    }
    let position = position_in(&indices, index) as i32;
    let len = indices.len() as i32;
    let at = wrap_index(position + delta, len);
    indices[at as usize]
}

/// Where `move_service_category` lands: the category `delta` steps away (wrapping),
/// at the same row, or its last row when it has fewer.
pub open spec fn spec_move_category(index: int, delta: int) -> usize {
    let category = category_at(index);
    let row = position_or_zero(category_indices(category), index as usize);
    let next = Category::ALL@[(category.ordinal() + delta) % 9];
    let next_indices = category_indices(next);
    next_indices[if row < next_indices.len() - 1 { row } else { next_indices.len() - 1 }]
}

/// Position of `category` in [`Category::ALL`], or 0 (as `position(..).unwrap_or(0)`).
fn category_position(category: Category) -> (r: usize)
    ensures
        r == category.ordinal(),
{
    let mut k: usize = 0;
    while k < 9
        invariant
            k <= 9,
            category.ordinal() >= k,
        decreases 9 - k,
    {
        if Category::ALL[k] == category {
            return k;
        }
        k = k + 1;
    }
    0
}

/// Moves the picker cursor to another category, keeping the row where possible.
pub fn move_service_category(index: usize, delta: i32) -> (r: usize)
    requires
        index < 45,
        category_at(index as int).ordinal() + delta <= i32::MAX,
    ensures
        r == spec_move_category(index as int, delta as int),
{
    let category = Service::ALL[index].category();
    let category_index = category_position(category) as i32;
    let current_indices = category_service_indices(category);
    let row = position_in(&current_indices, index);
    let next = Category::ALL[wrap_index(category_index + delta, 9) as usize];
    let next_indices = category_service_indices(next);
    proof {
        law_every_category_has_a_service(next);
    }
    let last = next_indices.len() - 1;
    next_indices[if row < last { row } else { last }]
}

/// Whether the categories of catalogue positions `k..45` never go back.
spec fn categories_ordered_from(k: int) -> bool
    decreases 44 - k,
{
    if k < 0 || k >= 44 {
        true
    } else {
        category_at(k).ordinal() <= category_at(k + 1).ordinal() && categories_ordered_from(k + 1)
    }
}

/// What `categories_ordered_from` states, one neighbouring pair at a time.
proof fn lemma_categories_ordered_from(k: int, j: int)
    requires
        0 <= k <= j < 44,
        categories_ordered_from(k),
    ensures
        category_at(j).ordinal() <= category_at(j + 1).ordinal(),
    decreases j - k,
{
    if k < j {
        lemma_categories_ordered_from(k + 1, j);
    }
}

/// Neighbouring services of the catalogue are in non-decreasing category order.
proof fn lemma_adjacent_categories_ordered()
    ensures
        forall|k: int| 0 <= k < 44 ==> #[trigger] category_at(k).ordinal() <= category_at(k + 1).ordinal(),
{
    assert(categories_ordered_from(0)) by {
        reveal_with_fuel(categories_ordered_from, 45);
    }
    assert forall|k: int| 0 <= k < 44 implies #[trigger] category_at(k).ordinal() <= category_at(k + 1).ordinal() by {
        lemma_categories_ordered_from(0, k);
    }
}

/// The catalogue is ordered by category, in the order of [`Category::ALL`]: a later
/// service never belongs to an earlier category, so each category forms one
/// contiguous block and the blocks follow the category order.
pub proof fn law_services_ordered_by_category(i: int, j: int)
    requires
        0 <= i <= j < 45,
    ensures
        category_at(i).ordinal() <= category_at(j).ordinal(),
    decreases j - i,
{
    if i < j {
        lemma_adjacent_categories_ordered();
        law_services_ordered_by_category(i, j - 1);
        assert(category_at(j - 1).ordinal() <= category_at(j).ordinal());
    }
}

/// The positions below `n` of the services of the categories from position `k` of
/// [`Category::ALL`] on, one category after another.
pub open spec fn indices_from(k: int, n: nat) -> Seq<usize>
    decreases 9 - k,
{
    if k < 0 || k >= 9 {
        Seq::empty()
    } else {
        indices_below(Category::ALL@[k], n) + indices_from(k + 1, n)
    }
}

/// The services of the categories from position `k` of [`Category::ALL`] on, one
/// category after another.
pub open spec fn services_from(k: int) -> Seq<Service>
    decreases 9 - k,
{
    if k < 0 || k >= 9 {
        Seq::empty()
    } else {
        services_of(Category::ALL@[k]) + services_from(k + 1)
    }
}

/// The category at position `k` of [`Category::ALL`] has ordinal `k`.
proof fn lemma_category_ordinal(k: int)
    requires
        0 <= k < 9,
    ensures
        Category::ALL@[k].ordinal() == k,
{
    if k == 0 {
    } else if k == 1 {
    } else if k == 2 {
    } else if k == 3 {
    } else if k == 4 {
    } else if k == 5 {
    } else if k == 6 {
    } else if k == 7 {
    } else {
    }
}

/// Below `n`, the categories from `k` on hold nothing when all of them come
/// after every service below `n`.
proof fn lemma_indices_from_empty(k: int, n: nat)
    requires
        0 <= k <= 9,
        n <= 45,
        forall|j: int| 0 <= j < n ==> #[trigger] category_at(j).ordinal() < k,
    ensures
        indices_from(k, n) == Seq::<usize>::empty(),
    decreases 9 - k,
{
    if k < 9 {
        lemma_indices_from_empty(k + 1, n);
        lemma_indices_below(Category::ALL@[k], n);
        lemma_category_ordinal(k);
        if indices_below(Category::ALL@[k], n).len() > 0 {
            let j = indices_below(Category::ALL@[k], n)[0] as int;
            assert(category_at(j) == Category::ALL@[k]);
        }
        assert(indices_from(k, n) =~= Seq::<usize>::empty());
    }
}

/// Adding position `n` to the catalogue adds it at the end of the blocks from
/// `k` on, when `k` is not after its category.
proof fn lemma_indices_from_step(k: int, n: nat)
    requires
        n < 45,
        0 <= k <= category_at(n as int).ordinal(),
        forall|j: int| 0 <= j < n ==> #[trigger] category_at(j).ordinal() <= category_at(n as int).ordinal(),
    ensures
        indices_from(k, n + 1) == indices_from(k, n).push(n as usize),
    decreases 9 - k,
{
    let c = category_at(n as int);
    let o = c.ordinal();
    assert(0 <= o < 9);
    lemma_category_ordinal(k);
    if k == o {
        assert(Category::ALL@[k] == c) by {
            lemma_category_ordinal(k);
        }
        assert forall|j: int| 0 <= j < n + 1 implies #[trigger] category_at(j).ordinal() < k + 1 by {
            if j < n {
                assert(category_at(j).ordinal() <= o);
            }
        }
        lemma_indices_from_empty(k + 1, n + 1);
        assert forall|j: int| 0 <= j < n implies #[trigger] category_at(j).ordinal() < k + 1 by {}
        lemma_indices_from_empty(k + 1, n);
        assert(indices_from(k, n + 1) =~= indices_from(k, n).push(n as usize));
    } else {
        lemma_indices_from_step(k + 1, n);
        assert(Category::ALL@[k] != c);
        assert(indices_from(k, n + 1) =~= indices_from(k, n).push(n as usize));
    }
}

/// The blocks of all categories, one after another, are the positions below `n`
/// in order.
proof fn lemma_indices_from_all(n: nat)
    requires
        n <= 45,
    ensures
        indices_from(0, n) == Seq::new(n, |i: int| i as usize),
    decreases n,
{
    if n == 0 {
        lemma_indices_from_empty(0, 0);
        assert(indices_from(0, 0) =~= Seq::new(0, |i: int| i as usize));
    } else {
        let m = (n - 1) as nat;
        lemma_indices_from_all(m);
        assert forall|j: int| 0 <= j < m implies #[trigger] category_at(j).ordinal() <= category_at(m as int).ordinal() by {
            law_services_ordered_by_category(j, m as int);
        }
        lemma_indices_from_step(0, m);
        assert(indices_from(0, n) =~= Seq::new(n, |i: int| i as usize));
    }
}

proof fn lemma_services_from(k: int)
    requires
        0 <= k <= 9,
    ensures
        services_from(k) == indices_from(k, 45).map_values(|i: usize| Service::ALL@[i as int]),
    decreases 9 - k,
{
    if k < 9 {
        lemma_services_from(k + 1);
        let f = |i: usize| Service::ALL@[i as int];
        let a = indices_below(Category::ALL@[k], 45);
        let b = indices_from(k + 1, 45);
        assert((a + b).map_values(f) =~= a.map_values(f) + b.map_values(f));
    } else {
        assert(indices_from(k, 45).map_values(|i: usize| Service::ALL@[i as int]) =~= Seq::<Service>::empty());
    }
}

/// The services of the categories, taken in the order of [`Category::ALL`] and
/// joined, are the whole catalogue in its order: each category is one
/// contiguous run, and the runs follow the category order.
pub proof fn law_categories_cover_catalogue()
    ensures
        services_from(0) == Service::ALL@,
{
    lemma_indices_from_all(45);
    lemma_services_from(0);
    assert(services_from(0) =~= Service::ALL@);
}

/// Only services that depend on a zone are counted per zone.
pub proof fn law_countable_only_when_zoned(s: Service)
    ensures
        s.spec_meta().countable_label is Some ==> s.spec_meta().zoned,
{
}

/// Moving inside a category never leaves the category.
pub proof fn law_move_within_category_keeps_category(index: int, delta: int)
    requires
        0 <= index < 45,
    ensures
        0 <= spec_move_within_category(index, delta) < 45,
        category_at(spec_move_within_category(index, delta) as int) == category_at(index),
{
    let c = category_at(index);
    let indices = category_indices(c);
    law_every_category_has_a_service(c);
    lemma_indices_below(c, 45);
    let q = (position_or_zero(indices, index as usize) + delta) % (indices.len() as int);
    assert(0 <= q < indices.len());
    assert(Service::ALL@[indices[q] as int].spec_meta().category == c);
}

/// Moving `delta` rows inside a category and then `-delta` rows comes back to the
/// starting service.
#[verifier::rlimit(50)]
pub proof fn law_move_within_category_round_trip(index: int, delta: int)
    requires
        0 <= index < 45,
    ensures
        spec_move_within_category(spec_move_within_category(index, delta) as int, -delta) == index,
{
    let c = category_at(index);
    let indices = category_indices(c);
    law_every_category_has_a_service(c);
    lemma_indices_below(c, 45);
    let n = indices.len() as int;
    assert(Service::ALL@[index].spec_meta().category == c);
    lemma_position_finds(indices, index as usize);
    let p = position_or_zero(indices, index as usize);
    let q = (p + delta) % n;
    let r = indices[q];
    law_move_within_category_keeps_category(index, delta);
    lemma_position_of_element(indices, q);
    lemma_wrap_round_trip(p, delta, n);
    assert(indices[p] == index as usize);
}

/// Moving to another category lands in the category `delta` steps away in
/// [`Category::ALL`] (wrapping), on the same row when that category has it and on
/// its last row otherwise.
pub proof fn law_move_category_target(index: int, delta: int)
    requires
        0 <= index < 45,
    ensures
        0 <= spec_move_category(index, delta) < 45,
        category_at(spec_move_category(index, delta) as int) == Category::ALL@[(category_at(index).ordinal() + delta) % 9],
        ({
            let row = position_or_zero(category_indices(category_at(index)), index as usize);
            let target = category_indices(category_at(spec_move_category(index, delta) as int));
            position_or_zero(target, spec_move_category(index, delta))
                == if row < target.len() - 1 { row } else { target.len() - 1 }
        }),
{
    let next = Category::ALL@[(category_at(index).ordinal() + delta) % 9];
    let indices = category_indices(next);
    law_every_category_has_a_service(next);
    lemma_indices_below(next, 45);
    let row = position_or_zero(category_indices(category_at(index)), index as usize);
    let at = if row < indices.len() - 1 { row } else { indices.len() - 1 };
    lemma_indices_below(category_at(index), 45);
    assert(row >= 0) by { lemma_position_nonneg(category_indices(category_at(index)), index as usize); }
    assert(Service::ALL@[indices[at] as int].spec_meta().category == next);
    lemma_position_of_element(indices, at);
}

proof fn lemma_position_nonneg(s: Seq<usize>, x: usize)
    ensures
        position_or_zero(s, x) >= 0,
    decreases s.len(),
{
    if s.len() > 0 {
        lemma_position_nonneg(s.drop_first(), x);
    }
}

} // verus!
