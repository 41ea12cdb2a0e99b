//! Tabs of the service screens, and their cycling.

use vstd::prelude::*;

verus! {

/// Tabs of the networking suite screen: subnet groups, subnets, addresses.
#[derive(Debug, Clone, Copy, PartialEq, Eq, Structural)]
pub enum NetworkingSuiteTab {
    Groups,
    Subnets,
    Addresses,
}

impl Default for NetworkingSuiteTab {
    fn default() -> (t: NetworkingSuiteTab)
        ensures
            t == NetworkingSuiteTab::Groups,
    {
        NetworkingSuiteTab::Groups
    }
}

impl NetworkingSuiteTab {
    pub const ALL: [NetworkingSuiteTab; 3] = [NetworkingSuiteTab::Groups, NetworkingSuiteTab::Subnets, NetworkingSuiteTab::Addresses];

    /// Position of the tab in `ALL`.
    pub open spec fn ordinal(self) -> int {
        match self {
            NetworkingSuiteTab::Groups => 0,
            NetworkingSuiteTab::Subnets => 1,
            NetworkingSuiteTab::Addresses => 2,
        }
    }

    pub fn title(self) -> (t: &'static str)
        ensures
            t@ == (match self {
                NetworkingSuiteTab::Groups => "サブネットグループ"@,
                NetworkingSuiteTab::Subnets => "サブネット"@,
                NetworkingSuiteTab::Addresses => "アドレス"@,
            }),
    {
        match self {
            NetworkingSuiteTab::Groups => "サブネットグループ",
            NetworkingSuiteTab::Subnets => "サブネット",
            NetworkingSuiteTab::Addresses => "アドレス",
        }
    }


    /// Position of the tab in `ALL` (as `position(..).unwrap_or(0)`).
    fn position(self) -> (r: usize)
        ensures
            r == self.ordinal(),
    {
        let mut current: usize = 0;
        while current < Self::ALL.len()
            invariant
                current <= Self::ALL@.len(),
                self.ordinal() >= current,
            decreases Self::ALL@.len() - current,
        {
            if Self::ALL[current] == self {
                return current;
            }
            current = current + 1;
        }
        0
    }

    /// The tab `delta` steps away, wrapping around at both ends.
    pub open spec fn spec_cycled(self, delta: int) -> NetworkingSuiteTab {
        NetworkingSuiteTab::ALL@[(self.ordinal() + delta) % 3]
    }

    pub fn cycled(self, delta: i32) -> (t: NetworkingSuiteTab)
        requires
            self.ordinal() + delta <= i32::MAX,
        ensures
            t == self.spec_cycled(delta as int),
    {
        let current = self.position();
        let len: i32 = 3;
        let sum: i32 = current as i32 + delta;
        let at: i32 = crate::tabs::wrap_index(sum, len);
        Self::ALL[at as usize]
    }
}

/// Cycling `delta` tabs and then `-delta` tabs returns to the starting tab, and
/// the first tab follows the last one.
pub proof fn law_networking_suite_tab_cycle(t: NetworkingSuiteTab, delta: int)
    ensures
        t.spec_cycled(delta).spec_cycled(-delta) == t,
        NetworkingSuiteTab::ALL@[2].spec_cycled(1) == NetworkingSuiteTab::ALL@[0],
        NetworkingSuiteTab::ALL@[0].spec_cycled(-1) == NetworkingSuiteTab::ALL@[2],
{
    let p = t.ordinal();
    let q = (p + delta) % 3;
    assert(NetworkingSuiteTab::ALL@[q].ordinal() == q) by {
        if q == 0 {}
        if q == 1 {}
        if q == 2 {}
    }
    crate::tabs::lemma_wrap_round_trip(p, delta, 3);
    assert(NetworkingSuiteTab::ALL@[p] == t);
}

/// Tabs of the NoSQL screen.
#[derive(Debug, Clone, Copy, PartialEq, Eq, Structural)]
pub enum NoSqlTab {
    Databases,
    Nodes,
    Backups,
    Parameters,
}

impl Default for NoSqlTab {
    fn default() -> (t: NoSqlTab)
        ensures
            t == NoSqlTab::Databases,
    {
        NoSqlTab::Databases
    }
}

impl NoSqlTab {
    pub const ALL: [NoSqlTab; 4] = [NoSqlTab::Databases, NoSqlTab::Nodes, NoSqlTab::Backups, NoSqlTab::Parameters];

    /// Position of the tab in `ALL`.
    pub open spec fn ordinal(self) -> int {
        match self {
            NoSqlTab::Databases => 0,
            NoSqlTab::Nodes => 1,
            NoSqlTab::Backups => 2,
            NoSqlTab::Parameters => 3,
        }
    }

    pub fn title(self) -> (t: &'static str)
        ensures
            t@ == (match self {
                NoSqlTab::Databases => "DB"@,
                NoSqlTab::Nodes => "ノード"@,
                NoSqlTab::Backups => "バックアップ"@,
                NoSqlTab::Parameters => "パラメータ"@,
            }),
    {
        match self {
            NoSqlTab::Databases => "DB",
            NoSqlTab::Nodes => "ノード",
            NoSqlTab::Backups => "バックアップ",
            NoSqlTab::Parameters => "パラメータ",
        }
    }


    /// Position of the tab in `ALL` (as `position(..).unwrap_or(0)`).
    fn position(self) -> (r: usize)
        ensures
            r == self.ordinal(),
    {
        let mut current: usize = 0;
        while current < Self::ALL.len()
            invariant
                current <= Self::ALL@.len(),
                self.ordinal() >= current,
            decreases Self::ALL@.len() - current,
        {
            if Self::ALL[current] == self {
                return current;
            }
            current = current + 1;
        }
        0
    }

    /// The tab `delta` steps away, wrapping around at both ends.
    pub open spec fn spec_cycled(self, delta: int) -> NoSqlTab {
        NoSqlTab::ALL@[(self.ordinal() + delta) % 4]
    }

    pub fn cycled(self, delta: i32) -> (t: NoSqlTab)
        requires
            self.ordinal() + delta <= i32::MAX,
        ensures
            t == self.spec_cycled(delta as int),
    {
        let current = self.position();
        let len: i32 = 4;
        let sum: i32 = current as i32 + delta;
        let at: i32 = crate::tabs::wrap_index(sum, len);
        Self::ALL[at as usize]
    }
}

/// Cycling `delta` tabs and then `-delta` tabs returns to the starting tab, and
/// the first tab follows the last one.
pub proof fn law_no_sql_tab_cycle(t: NoSqlTab, delta: int)
    ensures
        t.spec_cycled(delta).spec_cycled(-delta) == t,
        NoSqlTab::ALL@[3].spec_cycled(1) == NoSqlTab::ALL@[0],
        NoSqlTab::ALL@[0].spec_cycled(-1) == NoSqlTab::ALL@[3],
{
    let p = t.ordinal();
    let q = (p + delta) % 4;
    assert(NoSqlTab::ALL@[q].ordinal() == q) by {
        if q == 0 {}
        if q == 1 {}
        if q == 2 {}
        if q == 3 {}
    }
    crate::tabs::lemma_wrap_round_trip(p, delta, 4);
    assert(NoSqlTab::ALL@[p] == t);
}

/// Tabs of the security control screen.
#[derive(Debug, Clone, Copy, PartialEq, Eq, Structural)]
pub enum SecurityControlTab {
    Rules,
    Actions,
}

impl Default for SecurityControlTab {
    fn default() -> (t: SecurityControlTab)
        ensures
            t == SecurityControlTab::Rules,
    {
        SecurityControlTab::Rules
    }
}

impl SecurityControlTab {
    pub const ALL: [SecurityControlTab; 2] = [SecurityControlTab::Rules, SecurityControlTab::Actions];

    /// Position of the tab in `ALL`.
    pub open spec fn ordinal(self) -> int {
        match self {
            SecurityControlTab::Rules => 0,
            SecurityControlTab::Actions => 1,
        }
    }

    pub fn title(self) -> (t: &'static str)
        ensures
            t@ == (match self {
                SecurityControlTab::Rules => "評価ルール"@,
                SecurityControlTab::Actions => "自動アクション"@,
            }),
    {
        match self {
            SecurityControlTab::Rules => "評価ルール",
            SecurityControlTab::Actions => "自動アクション",
        }
    }


    /// Position of the tab in `ALL` (as `position(..).unwrap_or(0)`).
    fn position(self) -> (r: usize)
        ensures
            r == self.ordinal(),
    {
        let mut current: usize = 0;
        while current < Self::ALL.len()
            invariant
                current <= Self::ALL@.len(),
                self.ordinal() >= current,
            decreases Self::ALL@.len() - current,
        {
            if Self::ALL[current] == self {
                return current;
            }
            current = current + 1;
        }
        0
    }

    /// The tab `delta` steps away, wrapping around at both ends.
    pub open spec fn spec_cycled(self, delta: int) -> SecurityControlTab {
        SecurityControlTab::ALL@[(self.ordinal() + delta) % 2]
    }

    pub fn cycled(self, delta: i32) -> (t: SecurityControlTab)
        requires
            self.ordinal() + delta <= i32::MAX,
        ensures
            t == self.spec_cycled(delta as int),
    {
        let current = self.position();
        let len: i32 = 2;
        let sum: i32 = current as i32 + delta;
        let at: i32 = crate::tabs::wrap_index(sum, len);
        Self::ALL[at as usize]
    }
}

/// Cycling `delta` tabs and then `-delta` tabs returns to the starting tab, and
/// the first tab follows the last one.
pub proof fn law_security_control_tab_cycle(t: SecurityControlTab, delta: int)
    ensures
        t.spec_cycled(delta).spec_cycled(-delta) == t,
        SecurityControlTab::ALL@[1].spec_cycled(1) == SecurityControlTab::ALL@[0],
        SecurityControlTab::ALL@[0].spec_cycled(-1) == SecurityControlTab::ALL@[1],
{
    let p = t.ordinal();
    let q = (p + delta) % 2;
    assert(SecurityControlTab::ALL@[q].ordinal() == q) by {
        if q == 0 {}
        if q == 1 {}
    }
    crate::tabs::lemma_wrap_round_trip(p, delta, 2);
    assert(SecurityControlTab::ALL@[p] == t);
}

/// Tabs of the service endpoint gateway screen.
#[derive(Debug, Clone, Copy, PartialEq, Eq, Structural)]
pub enum SegTab {
    Gateways,
    Services,
}

impl Default for SegTab {
    fn default() -> (t: SegTab)
        ensures
            t == SegTab::Gateways,
    {
        SegTab::Gateways
    }
}

impl SegTab {
    pub const ALL: [SegTab; 2] = [SegTab::Gateways, SegTab::Services];

    /// Position of the tab in `ALL`.
    pub open spec fn ordinal(self) -> int {
        match self {
            SegTab::Gateways => 0,
            SegTab::Services => 1,
        }
    }

    pub fn title(self) -> (t: &'static str)
        ensures
            t@ == (match self {
                SegTab::Gateways => "ゲートウェイ"@,
                SegTab::Services => "接続先サービス"@,
            }),
    {
        match self {
            SegTab::Gateways => "ゲートウェイ",
            SegTab::Services => "接続先サービス",
        }
    }


    /// Position of the tab in `ALL` (as `position(..).unwrap_or(0)`).
    fn position(self) -> (r: usize)
        ensures
            r == self.ordinal(),
    {
        let mut current: usize = 0;
        while current < Self::ALL.len()
            invariant
                current <= Self::ALL@.len(),
                self.ordinal() >= current,
            decreases Self::ALL@.len() - current,
        {
            if Self::ALL[current] == self {
                return current;
            }
            current = current + 1;
        }
        0
    }

    /// The tab `delta` steps away, wrapping around at both ends.
    pub open spec fn spec_cycled(self, delta: int) -> SegTab {
        SegTab::ALL@[(self.ordinal() + delta) % 2]
    }

    pub fn cycled(self, delta: i32) -> (t: SegTab)
        requires
            self.ordinal() + delta <= i32::MAX,
        ensures
            t == self.spec_cycled(delta as int),
    {
        let current = self.position();
        let len: i32 = 2;
        let sum: i32 = current as i32 + delta;
        let at: i32 = crate::tabs::wrap_index(sum, len);
        Self::ALL[at as usize]
    }
}

/// Cycling `delta` tabs and then `-delta` tabs returns to the starting tab, and
/// the first tab follows the last one.
pub proof fn law_seg_tab_cycle(t: SegTab, delta: int)
    ensures
        t.spec_cycled(delta).spec_cycled(-delta) == t,
        SegTab::ALL@[1].spec_cycled(1) == SegTab::ALL@[0],
        SegTab::ALL@[0].spec_cycled(-1) == SegTab::ALL@[1],
{
    let p = t.ordinal();
    let q = (p + delta) % 2;
    assert(SegTab::ALL@[q].ordinal() == q) by {
        if q == 0 {}
        if q == 1 {}
    }
    crate::tabs::lemma_wrap_round_trip(p, delta, 2);
    assert(SegTab::ALL@[p] == t);
}

/// Tabs of the monitoring suite screen.
#[derive(Debug, Clone, Copy, PartialEq, Eq, Structural)]
pub enum MonitoringTab {
    Rules,
    Histories,
    Storages,
    NotificationTargets,
    NotificationRoutings,
    LogMeasureRules,
    LogRoutings,
    MetricsRoutings,
    Dashboards,
}

impl Default for MonitoringTab {
    fn default() -> (t: MonitoringTab)
        ensures
            t == MonitoringTab::Rules,
    {
        MonitoringTab::Rules
    }
}

impl MonitoringTab {
    pub const ALL: [MonitoringTab; 9] = [MonitoringTab::Rules, MonitoringTab::Histories, MonitoringTab::Storages, MonitoringTab::NotificationTargets, MonitoringTab::NotificationRoutings, MonitoringTab::LogMeasureRules, MonitoringTab::LogRoutings, MonitoringTab::MetricsRoutings, MonitoringTab::Dashboards];

    /// Position of the tab in `ALL`.
    pub open spec fn ordinal(self) -> int {
        match self {
            MonitoringTab::Rules => 0,
            MonitoringTab::Histories => 1,
            MonitoringTab::Storages => 2,
            MonitoringTab::NotificationTargets => 3,
            MonitoringTab::NotificationRoutings => 4,
            MonitoringTab::LogMeasureRules => 5,
            MonitoringTab::LogRoutings => 6,
            MonitoringTab::MetricsRoutings => 7,
            MonitoringTab::Dashboards => 8,
        }
    }

    pub fn title(self) -> (t: &'static str)
        ensures
            t@ == (match self {
                MonitoringTab::Rules => "ルール"@,
                MonitoringTab::Histories => "履歴"@,
                MonitoringTab::Storages => "保管先"@,
                MonitoringTab::NotificationTargets => "通知先"@,
                MonitoringTab::NotificationRoutings => "通知経路"@,
                MonitoringTab::LogMeasureRules => "ログ計測"@,
                MonitoringTab::LogRoutings => "ログ転送"@,
                MonitoringTab::MetricsRoutings => "メトリクス転送"@,
                MonitoringTab::Dashboards => "ダッシュボード"@,
            }),
    {
        match self {
            MonitoringTab::Rules => "ルール",
            MonitoringTab::Histories => "履歴",
            MonitoringTab::Storages => "保管先",
            MonitoringTab::NotificationTargets => "通知先",
            MonitoringTab::NotificationRoutings => "通知経路",
            MonitoringTab::LogMeasureRules => "ログ計測",
            MonitoringTab::LogRoutings => "ログ転送",
            MonitoringTab::MetricsRoutings => "メトリクス転送",
            MonitoringTab::Dashboards => "ダッシュボード",
        }
    }

}

/// Euclidean remainder of `x` by `n` (as `rem_euclid`).
pub fn wrap_index(x: i32, n: i32) -> (r: i32)
    requires
        n > 0,
    ensures
        r == x % n,
        0 <= r < n,
{
    if x >= 0 {
        ((x as u32) % (n as u32)) as i32
    } else {
        let q: u32 = (-(x as i64)) as u32;
        let m: u32 = q % (n as u32);
        let r: u32 = ((n as u32) - m) % (n as u32);
        proof {
            lemma_neg_mod(q as int, n as int);
        }
        r as i32
    }
}

proof fn lemma_neg_mod(q: int, n: int)
    requires
        q > 0,
        n > 0,
    ensures
        (n - q % n) % n == (-q) % n,
{
    let m = q % n;
    let d = q / n;
    assert(q == d * n + m) by (nonlinear_arith)
        requires
            n > 0,
            m == q % n,
            d == q / n,
    ;
    assert((n - m) % n == (-q) % n) by (nonlinear_arith)
        requires
            n > 0,
            q == d * n + m,
            0 <= m < n,
    {
        assert(n - m == -q + (d + 1) * n);
        vstd::arithmetic::div_mod::lemma_mod_multiples_vanish(d + 1, -q, n);
    }
}

/// Moving `d` positions and then `-d` positions on a cycle of `n` returns to `p`.
pub proof fn lemma_wrap_round_trip(p: int, d: int, n: int)
    requires
        0 <= p < n,
    ensures
        ((p + d) % n - d) % n == p,
{
    let x = p + d;
    vstd::arithmetic::div_mod::lemma_fundamental_div_mod(x, n);
    assert(x % n - d == n * (-(x / n)) + p) by (nonlinear_arith)
        requires
            x == n * (x / n) + x % n,
            x == p + d,
    ;
    vstd::arithmetic::div_mod::lemma_mod_multiples_vanish(-(x / n), p, n);
    vstd::arithmetic::div_mod::lemma_small_mod(p as nat, n as nat);
}

} // verus!
