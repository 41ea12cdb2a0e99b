use sakura_tui::cloud_resources::{CloudResource, ResourceId};
use sakura_tui::network_map::{
    build_rows, nics_on, MapData, MapNic, MapRow, MapServer, MapSwitch, NetworkKind, NicConnection, NicTarget,
    PowerStatus,
};

fn nic(index: usize, connection: NicConnection, ip: &str) -> MapNic {
    MapNic {
        name: format!("eth{index}"),
        ip_address: ip.to_string(),
        packet_filter: None,
        connection,
    }
}

fn server(id: u64, name: &str, power: PowerStatus, nics: Vec<MapNic>) -> MapServer {
    MapServer {
        id: ResourceId(id),
        name: name.to_string(),
        power,
        nics,
    }
}

fn switch(id: u64, name: &str, appliances: usize) -> MapSwitch {
    MapSwitch {
        id: ResourceId(id),
        name: name.to_string(),
        appliance_count: appliances,
    }
}

fn router(id: u64, name: &str, details: &[(&str, &str)]) -> CloudResource {
    CloudResource {
        id: ResourceId(id),
        name: name.to_string(),
        description: String::new(),
        tags: Vec::new(),
        availability: String::new(),
        class: String::new(),
        status: String::new(),
        plan: String::new(),
        connection: String::new(),
        created_at: String::new(),
        details: details.iter().map(|(k, v)| (k.to_string(), v.to_string())).collect(),
    }
}

fn names(rows: &[MapRow]) -> Vec<String> {
    rows.iter()
        .filter_map(|row| match row {
            MapRow::Network { name, .. } => Some(name.clone()),
            _ => None,
        })
        .collect()
}

#[test]
fn networks_are_ordered_from_the_outside_in() {
    let data = MapData {
        servers: vec![
            server(
                1,
                "web-01",
                PowerStatus::Up,
                vec![
                    nic(0, NicConnection::Shared, "133.242.0.10"),
                    nic(
                        1,
                        NicConnection::Switch {
                            id: Some(ResourceId(77)),
                            name: "sw-private".to_string(),
                        },
                        "192.168.0.10",
                    ),
                ],
            ),
            server(2, "old-01", PowerStatus::Down, vec![nic(0, NicConnection::Disconnected, "")]),
        ],
        switches: vec![switch(77, "sw-private", 1)],
        routers: Vec::new(),
    };
    assert_eq!(names(&build_rows(&data)), ["共有セグメント", "sw-private", "未接続"]);
}

#[test]
fn nics_are_grouped_by_switch_id_not_name() {
    let data = MapData {
        servers: vec![server(
            1,
            "web-01",
            PowerStatus::Up,
            vec![nic(
                0,
                NicConnection::Switch {
                    id: Some(ResourceId(78)),
                    name: "sw".to_string(),
                },
                "192.168.1.10",
            )],
        )],
        switches: vec![switch(77, "sw", 0), switch(78, "sw", 0)],
        routers: Vec::new(),
    };
    let rows = build_rows(&data);
    let counts: Vec<usize> = rows
        .iter()
        .filter_map(|row| match row {
            MapRow::Network { nics, .. } => Some(*nics),
            _ => None,
        })
        .collect();
    assert_eq!(counts, [0, 1]);
}

#[test]
fn an_empty_switch_is_still_shown() {
    let data = MapData {
        servers: Vec::new(),
        switches: vec![switch(77, "sw-unused", 0)],
        routers: Vec::new(),
    };
    let rows = build_rows(&data);
    assert_eq!(names(&rows), ["sw-unused"]);
    assert!(rows.iter().any(|row| matches!(row, MapRow::Empty)));
}

#[test]
fn only_the_last_entry_closes_the_branch() {
    let data = MapData {
        servers: vec![server(
            1,
            "web-01",
            PowerStatus::Up,
            vec![nic(
                0,
                NicConnection::Switch {
                    id: Some(ResourceId(77)),
                    name: "sw".to_string(),
                },
                "192.168.0.10",
            )],
        )],
        switches: vec![switch(77, "sw", 2)],
        routers: Vec::new(),
    };
    let rows = build_rows(&data);
    let nic_last = rows.iter().find_map(|row| match row {
        MapRow::Nic { last, .. } => Some(*last),
        _ => None,
    });
    assert_eq!(nic_last, Some(false), "後ろにアプライアンスが続く");
    assert!(rows.iter().any(|row| matches!(row, MapRow::Appliances { count: 2, last: true })));
}

#[test]
fn only_nic_rows_are_selectable() {
    assert!(!MapRow::Empty.is_selectable());
    assert!(!MapRow::Spacer.is_selectable());
    assert!(!MapRow::Network {
        kind: NetworkKind::Switch,
        name: "sw".to_string(),
        note: String::new(),
        nics: 0,
        appliances: 0,
    }
    .is_selectable());
}

// --- further checks ---

#[test]
fn router_switches_are_shown_once_under_the_router() {
    let data = MapData {
        servers: vec![server(
            1,
            "web-01",
            PowerStatus::Up,
            vec![nic(
                0,
                NicConnection::Switch {
                    id: Some(ResourceId(90)),
                    name: "router-sw".to_string(),
                },
                "203.0.113.10",
            )],
        )],
        switches: vec![switch(90, "router-sw", 1), switch(91, "plain", 0)],
        routers: vec![router(
            5,
            "gw",
            &[("スイッチ", "90"), ("ネットワーク", "203.0.113.0"), ("マスク長", "28"), ("帯域(Mbps)", "100")],
        )],
    };
    let rows = build_rows(&data);
    assert_eq!(names(&rows), ["gw", "plain"]);
    match &rows[0] {
        MapRow::Network { kind, note, nics, appliances, .. } => {
            assert_eq!(*kind, NetworkKind::Router);
            assert_eq!(note, "203.0.113.0/28  100 Mbps");
            assert_eq!(*nics, 1);
            assert_eq!(*appliances, 1);
        }
        other => panic!("unexpected first row {other:?}"),
    }
    assert!(rows.iter().any(|row| matches!(row, MapRow::Spacer)));
}

#[test]
fn nics_are_sorted_by_server_then_nic_name() {
    let servers = vec![
        server(2, "web-02", PowerStatus::Up, vec![nic(1, NicConnection::Shared, "b"), nic(0, NicConnection::Shared, "a")]),
        server(1, "db-01", PowerStatus::Unknown, vec![nic(0, NicConnection::Shared, "c")]),
    ];
    let rows = nics_on(&servers, NicTarget::Shared);
    let order: Vec<(String, String)> = rows
        .iter()
        .filter_map(|row| match row {
            MapRow::Nic { server, nic, .. } => Some((server.clone(), nic.clone())),
            _ => None,
        })
        .collect();
    assert_eq!(
        order,
        vec![
            ("db-01".to_string(), "eth0".to_string()),
            ("web-02".to_string(), "eth0".to_string()),
            ("web-02".to_string(), "eth1".to_string()),
        ]
    );
}

#[test]
fn headings_carry_their_marks() {
    assert_eq!(NetworkKind::Router.mark(), "☁");
    assert_eq!(NetworkKind::Shared.mark(), "◉");
    assert_eq!(NetworkKind::Switch.mark(), "▣");
    assert_eq!(NetworkKind::Unconnected.mark(), "⚠");
}
