use sakura_tui::state::Tab;
use sakura_tui::keys::{
    common_command, cycled_service, login_step, registry_command, RegistryCommand, picker_step, profile_step, zone_picker_step, Command, Key, LoginStep, PickerStep,
    ProfileStep,
};
use sakura_tui::service::Service;

fn at(service: Service) -> usize {
    Service::ALL.iter().position(|s| *s == service).unwrap()
}

#[test]
fn reload_keys_and_paging() {
    assert_eq!(common_command(Key::Char('r'), true), Some(Command::Reload));
    assert_eq!(common_command(Key::Char('R'), true), Some(Command::ReloadAll));
    assert_eq!(common_command(Key::PageDown, true), Some(Command::MoveSelection(10)));
    assert_eq!(common_command(Key::PageUp, true), Some(Command::MoveSelection(-10)));
    assert_eq!(common_command(Key::Char('j'), true), Some(Command::MoveSelection(1)));
    assert_eq!(common_command(Key::Up, true), Some(Command::MoveSelection(-1)));
    assert_eq!(common_command(Key::Char('g'), true), Some(Command::JumpSelection(true)));
    assert_eq!(common_command(Key::End, true), Some(Command::JumpSelection(false)));
    assert_eq!(common_command(Key::Char('q'), true), Some(Command::Quit));
    assert_eq!(common_command(Key::Char('?'), true), Some(Command::Help));
    assert_eq!(common_command(Key::Char('S'), true), Some(Command::NextService));
    assert_eq!(common_command(Key::Char('a'), true), None);
}

#[test]
fn esc_clears_a_filter_before_going_back() {
    assert_eq!(common_command(Key::Esc, false), Some(Command::ClearFilter));
    assert_eq!(common_command(Key::Esc, true), None);
}

#[test]
fn service_picker_moves_and_chooses() {
    let server = at(Service::Server);
    assert_eq!(picker_step(server, false, Key::Down), PickerStep::Stay(at(Service::SshKey)));
    assert_eq!(picker_step(server, false, Key::Char('l')), PickerStep::Stay(at(Service::Registry)));
    assert_eq!(picker_step(server, false, Key::Left), PickerStep::Stay(at(Service::Account)));
    assert_eq!(picker_step(at(Service::Dns), false, Key::Home), PickerStep::Stay(at(Service::NetworkMap)));
    assert_eq!(picker_step(at(Service::Dns), false, Key::Char('G')), PickerStep::Stay(at(Service::WebAccel)));
    assert_eq!(picker_step(server, false, Key::Enter), PickerStep::Choose(server));
    assert_eq!(picker_step(server, false, Key::Esc), PickerStep::Close);
    assert_eq!(picker_step(server, true, Key::Char('q')), PickerStep::Quit);
    assert_eq!(picker_step(server, true, Key::Char('x')), PickerStep::Stay(server));
}

#[test]
fn zone_picker_wraps_around() {
    assert_eq!(zone_picker_step(2, 3, Key::Down), Some((false, 0)));
    assert_eq!(zone_picker_step(0, 3, Key::Up), Some((false, 2)));
    assert_eq!(zone_picker_step(1, 3, Key::Char('j')), Some((false, 2)));
    assert_eq!(zone_picker_step(1, 3, Key::Enter), Some((true, 1)));
    assert_eq!(zone_picker_step(1, 3, Key::Esc), None);
}

#[test]
fn profile_picker_ends_with_a_new_profile_row() {
    assert_eq!(profile_step(2, 2, Key::Enter), ProfileStep::NewProfile);
    assert_eq!(profile_step(1, 2, Key::Enter), ProfileStep::Switch(1));
    assert_eq!(profile_step(1, 2, Key::Char('n')), ProfileStep::NewProfile);
    assert_eq!(profile_step(1, 2, Key::Char('d')), ProfileStep::Delete(1));
    assert_eq!(profile_step(2, 2, Key::Char('d')), ProfileStep::Stay(2));
    assert_eq!(profile_step(0, 2, Key::Char('c')), ProfileStep::CycleColor(0));
    assert_eq!(profile_step(2, 2, Key::Down), ProfileStep::Stay(0));
    assert_eq!(profile_step(0, 2, Key::Up), ProfileStep::Stay(2));
    assert_eq!(profile_step(0, 0, Key::Down), ProfileStep::Stay(0));
    assert_eq!(profile_step(0, 2, Key::Esc), ProfileStep::Close);
}

#[test]
fn login_picker_ends_with_a_new_login_row() {
    assert_eq!(login_step(0, 2, Key::Enter), LoginStep::UseSaved(0));
    assert_eq!(login_step(2, 2, Key::Enter), LoginStep::NewLogin);
    assert_eq!(login_step(2, 2, Key::Char('j')), LoginStep::Stay(0));
    assert_eq!(login_step(0, 2, Key::Char('k')), LoginStep::Stay(2));
    assert_eq!(login_step(1, 2, Key::Char('q')), LoginStep::Close);
    assert_eq!(login_step(1, 2, Key::Char('x')), LoginStep::Stay(1));
}

#[test]
fn services_cycle_through_the_catalogue() {
    assert_eq!(cycled_service(Service::Server, 1), Service::SshKey);
    assert_eq!(cycled_service(Service::Billing, 1), Service::Server);
    assert_eq!(cycled_service(Service::Server, -1), Service::Billing);
    for service in Service::ALL {
        assert_eq!(cycled_service(cycled_service(service, 7), -7), service);
    }
}

#[test]
fn registry_keys_follow_the_key_table() {
    assert_eq!(registry_command(Key::Char('a')), Some(RegistryCommand::AddUser));
    assert_eq!(registry_command(Key::Char('e')), Some(RegistryCommand::EditUser));
    assert_eq!(registry_command(Key::Char('L')), Some(RegistryCommand::Login));
    assert_eq!(registry_command(Key::Char('O')), Some(RegistryCommand::ForgetLogin));
    assert_eq!(registry_command(Key::Char('2')), Some(RegistryCommand::SetTab(Tab::Users)));
    assert_eq!(registry_command(Key::BackTab), Some(RegistryCommand::CycleTab(-1)));
    assert_eq!(registry_command(Key::Enter), Some(RegistryCommand::FocusRight));
    assert_eq!(registry_command(Key::Esc), Some(RegistryCommand::FocusLeft));
    assert_eq!(registry_command(Key::Char('z')), None);
}
