use sakura_tui::apprun::Application;
use sakura_tui::billing::Bill;
use sakura_tui::messages::{apply_message, FollowUp, Message, Screens};
use sakura_tui::service::Service;
use sakura_tui::session::Session;
use sakura_tui::state::{Loadable, Pane, StatusKind};

fn app(name: &str) -> Application {
    Application {
        id: name.to_string(),
        name: name.to_string(),
        status: "Healthy".to_string(),
        public_url: String::new(),
        created_at: None,
    }
}

#[test]
fn results_of_earlier_credentials_leave_the_screens_alone() {
    let mut screens = Screens::new();
    let mut session = Session::new();
    let sent = session.request_sent();
    session.credentials_changed();
    let follow = apply_message(&mut screens, &mut session, sent, Message::Applications(Ok(vec![app("a")])));
    assert!(follow.is_empty());
    assert!(matches!(screens.apprun.applications, Loadable::Idle));
    assert!(screens.status.is_none());
    assert_eq!(session.inflight, 0);
}

#[test]
fn applications_are_stored_and_counted_in_the_status() {
    let mut screens = Screens::new();
    let mut session = Session::new();
    let sent = session.request_sent();
    screens.apprun.application_selected = Some(3);
    let follow = apply_message(&mut screens, &mut session, sent, Message::Applications(Ok(vec![app("a"), app("b")])));
    assert_eq!(follow, vec![FollowUp::EnsureLoaded]);
    assert!(matches!(screens.apprun.applications, Loadable::Ready(ref v) if v.len() == 2));
    assert_eq!(screens.apprun.application_selected, None);
    assert_eq!(screens.status, Some(("AppRun アプリ 2 件".to_string(), StatusKind::Info)));
}

#[test]
fn failures_go_to_the_status_bar() {
    let mut screens = Screens::new();
    let mut session = Session::new();
    let follow = apply_message(&mut screens, &mut session, 0, Message::Bills(Err("boom".to_string())));
    assert_eq!(follow, vec![FollowUp::EnsureLoaded]);
    assert!(matches!(screens.billing.bills, Loadable::Failed(ref e) if e == "boom"));
    assert_eq!(screens.status, Some(("boom".to_string(), StatusKind::Error)));
}

#[test]
fn keyed_results_replace_their_entry() {
    let mut screens = Screens::new();
    let mut session = Session::new();
    apply_message(&mut screens, &mut session, 0, Message::CloudHsmHsms { zone: "is1a".to_string(), result: Ok(Vec::new()) });
    apply_message(&mut screens, &mut session, 0, Message::CloudHsmHsms { zone: "tk1a".to_string(), result: Ok(Vec::new()) });
    let follow = apply_message(
        &mut screens,
        &mut session,
        0,
        Message::CloudHsmHsms { zone: "is1a".to_string(), result: Err("403".to_string()) },
    );
    assert_eq!(follow, vec![FollowUp::FillSelection(Pane::CloudHsmHsms), FollowUp::CloudHsmEnsureLoaded]);
    assert_eq!(screens.cloudhsm.hsms.len(), 2);
    assert!(matches!(screens.cloudhsm.hsms[0].1, Loadable::Failed(_)));
    assert!(matches!(screens.cloudhsm.hsms[1].1, Loadable::Ready(_)));
}

#[test]
fn zones_open_the_picker_asked_for_while_loading() {
    let mut screens = Screens::new();
    let mut session = Session::new();
    screens.pending_zone_picker = true;
    let follow = apply_message(&mut screens, &mut session, 0, Message::Zones(Ok(vec!["is1a".to_string()])));
    assert_eq!(follow, vec![FollowUp::LoadZoneCounts, FollowUp::OpenZonePicker]);
    assert!(!screens.pending_zone_picker);
    let follow = apply_message(&mut screens, &mut session, 0, Message::Zones(Ok(vec!["is1a".to_string()])));
    assert_eq!(follow, vec![FollowUp::LoadZoneCounts]);
}

#[test]
fn counts_and_clusters() {
    let mut screens = Screens::new();
    let mut session = Session::new();
    apply_message(&mut screens, &mut session, 0, Message::ServiceCount { service: Service::Dns, result: Ok(4) });
    assert!(matches!(screens.service_counts[0], (Service::Dns, Loadable::Ready(4))));
    let follow = apply_message(&mut screens, &mut session, 0, Message::Clusters(Ok(Vec::new())));
    assert_eq!(follow, vec![FollowUp::AfterClusterChange, FollowUp::EnsureLoaded]);
    assert_eq!(screens.status, Some(("クラスタ 0 件".to_string(), StatusKind::Info)));
    let bills: Vec<Bill> = Vec::new();
    apply_message(&mut screens, &mut session, 0, Message::Bills(Ok(bills)));
    assert!(matches!(screens.billing.bills, Loadable::Ready(_)));
}

#[test]
fn reloading_everything_drops_the_cached_lists() {
    let mut screens = Screens::new();
    let mut session = Session::new();
    apply_message(&mut screens, &mut session, 0, Message::ServiceCount { service: Service::Dns, result: Ok(4) });
    apply_message(&mut screens, &mut session, 0, Message::CloudHsmHsms { zone: "is1a".to_string(), result: Ok(Vec::new()) });
    apply_message(&mut screens, &mut session, 0, Message::Zones(Ok(vec!["is1a".to_string()])));
    screens.invalidate_all();
    assert!(screens.service_counts.is_empty());
    assert!(screens.cloudhsm.hsms.is_empty());
    assert!(matches!(screens.zones, Loadable::Ready(_)));
}

#[test]
fn app_run_actions_reload_traffic_or_show_the_error() {
    let mut screens = Screens::new();
    let mut session = Session::new();
    apply_message(&mut screens, &mut session, 0, Message::Traffics { id: "app1".to_string(), result: Ok(Vec::new()) });
    let follow = apply_message(
        &mut screens,
        &mut session,
        0,
        Message::AppRunAction { id: "app1".to_string(), label: "トラフィックを切り替え".to_string(), result: Ok(()) },
    );
    assert_eq!(follow, vec![FollowUp::EnsureLoaded]);
    assert_eq!(screens.status, Some(("トラフィックを切り替えしました".to_string(), StatusKind::Success)));
    assert!(matches!(screens.apprun.traffics[0].1, Loadable::Idle));
    assert!(matches!(screens.apprun.versions[0], (ref id, Loadable::Idle) if id == "app1"));
    let follow = apply_message(
        &mut screens,
        &mut session,
        0,
        Message::AppRunAction { id: "app1".to_string(), label: "削除".to_string(), result: Err("409".to_string()) },
    );
    assert_eq!(
        follow,
        vec![FollowUp::ShowError { title: "削除に失敗しました".to_string(), body: "409".to_string() }]
    );
    assert_eq!(screens.status, Some(("409".to_string(), StatusKind::Error)));
}
