use sakura_tui::service_counts::plan_zone_counts;
use sakura_tui::service::Availability;
use sakura_tui::service_counts::{record_service_count, service_availability};
use sakura_tui::service::Service;
use sakura_tui::service_counts::plan_service_counts;
use sakura_tui::state::Loadable;

fn state_of(counts: &[(Service, Loadable<usize>)], s: Service) -> Option<String> {
    counts.iter().find(|(t, _)| *t == s).map(|(_, l)| format!("{:?}", l))
}

#[test]
fn counts_on_screen_are_reused_and_the_rest_asked_for() {
    let mut counts = vec![
        (Service::Server, Loadable::Ready(3)),
        (Service::Disk, Loadable::Loading),
        (Service::Switch, Loadable::Idle),
        (Service::Dns, Loadable::Failed("403".to_string())),
    ];
    let shown = vec![(Service::Switch, 7), (Service::Registry, 2)];
    let requested = plan_service_counts(&mut counts, &shown);

    // Loaded, loading and failed counts are left alone.
    assert_eq!(state_of(&counts, Service::Server), Some("Ready(3)".to_string()));
    assert_eq!(state_of(&counts, Service::Disk), Some("Loading".to_string()));
    assert_eq!(state_of(&counts, Service::Dns), Some("Failed(\"403\")".to_string()));
    // An idle entry and a missing one take the count on screen.
    assert_eq!(state_of(&counts, Service::Switch), Some("Ready(7)".to_string()));
    assert_eq!(state_of(&counts, Service::Registry), Some("Ready(2)".to_string()));
    // Services without a count are not counted.
    assert_eq!(state_of(&counts, Service::AiEngine), None);
    assert_eq!(state_of(&counts, Service::NetworkMap), None);
    assert_eq!(state_of(&counts, Service::Account), None);
    // The others are marked loading and asked for, in catalogue order.
    assert_eq!(state_of(&counts, Service::AppRun), Some("Loading".to_string()));
    assert!(!requested.contains(&Service::Server));
    assert!(!requested.contains(&Service::Switch));
    assert!(!requested.contains(&Service::Registry));
    assert!(!requested.contains(&Service::AiEngine));
    assert_eq!(requested[0], Service::SshKey);
    assert_eq!(requested[1], Service::AppRun);
    let positions: Vec<usize> = requested
        .iter()
        .map(|s| Service::ALL.iter().position(|t| t == s).unwrap())
        .collect();
    assert!(positions.windows(2).all(|w| w[0] < w[1]));
    let counted = Service::ALL.iter().filter(|s| s.count_label().is_some()).count();
    assert_eq!(requested.len(), counted - 5);
}

#[test]
fn a_second_plan_asks_for_nothing() {
    let mut counts = Vec::new();
    let first = plan_service_counts(&mut counts, &Vec::new());
    assert!(!first.is_empty());
    let again = plan_service_counts(&mut counts, &Vec::new());
    assert!(again.is_empty());
}

#[test]
fn arriving_counts_decide_availability() {
    let mut counts = Vec::new();
    assert_eq!(service_availability(&counts, Service::Dns), Availability::Unknown);
    record_service_count(&mut counts, Service::Dns, Ok(4));
    assert_eq!(service_availability(&counts, Service::Dns), Availability::Usable);
    record_service_count(&mut counts, Service::Kms, Err("403 Forbidden".to_string()));
    assert_eq!(service_availability(&counts, Service::Kms), Availability::Unusable("権限なし"));
    record_service_count(&mut counts, Service::Dns, Err("404 Not Found".to_string()));
    assert_eq!(service_availability(&counts, Service::Dns), Availability::Unusable("未提供"));
    assert_eq!(counts.len(), 2);
    assert_eq!(service_availability(&counts, Service::Server), Availability::Unknown);
}

#[test]
fn zone_counts_are_asked_for_once_per_zone() {
    let zones = vec!["is1a".to_string(), "is1b".to_string(), "tk1a".to_string()];
    let mut counts = vec![
        ((Service::Server, "is1a".to_string()), Loadable::Ready(5)),
        ((Service::Server, "is1b".to_string()), Loadable::Idle),
        ((Service::Disk, "tk1a".to_string()), Loadable::Ready(1)),
    ];
    let requested = plan_zone_counts(&mut counts, Service::Server, &zones);
    assert_eq!(requested, vec!["is1b".to_string(), "tk1a".to_string()]);
    let state = |s: Service, z: &str| {
        counts.iter().find(|((t, y), _)| *t == s && y == z).map(|(_, l)| format!("{:?}", l))
    };
    assert_eq!(state(Service::Server, "is1a"), Some("Ready(5)".to_string()));
    assert_eq!(state(Service::Server, "is1b"), Some("Loading".to_string()));
    assert_eq!(state(Service::Server, "tk1a"), Some("Loading".to_string()));
    assert_eq!(state(Service::Disk, "tk1a"), Some("Ready(1)".to_string()));
    assert_eq!(counts.len(), 4);
    let again = plan_zone_counts(&mut counts, Service::Server, &zones);
    assert!(again.is_empty());
}

#[test]
fn services_without_zones_are_not_counted_per_zone() {
    let zones = vec!["is1a".to_string()];
    let mut counts = Vec::new();
    assert!(plan_zone_counts(&mut counts, Service::Dns, &zones).is_empty());
    assert!(plan_zone_counts(&mut counts, Service::SshKey, &zones).is_empty());
    assert!(counts.is_empty());
}

#[test]
fn a_zone_listed_twice_is_asked_for_once() {
    let zones = vec!["is1a".to_string(), "is1a".to_string(), "tk1a".to_string()];
    let mut counts = Vec::new();
    let requested = plan_zone_counts(&mut counts, Service::Server, &zones);
    assert_eq!(requested, vec!["is1a".to_string(), "tk1a".to_string()]);
    assert_eq!(counts.len(), 2);
}
