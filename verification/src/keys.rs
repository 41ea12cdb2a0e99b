//! Key presses: what the keys shared by every screen do, and the keys of the
//! service, zone, profile and login pickers.

use vstd::prelude::*;

use crate::service::{
    category_at, category_indices, category_service_indices, law_every_category_has_a_service,
    lemma_indices_below, lemma_position_finds, move_service_category, move_service_within_category,
    spec_move_category, spec_move_within_category, Service,
};
use crate::service_counts::lemma_catalogue_distinct;
use crate::state::Tab;
use crate::service_names::catalogue_position;
use crate::tabs::{lemma_wrap_round_trip, wrap_index};

verus! {

/// A key press, as far as the client reads it.
#[derive(Debug, Clone, Copy, PartialEq, Eq, Structural)]
pub enum Key {
    Char(char),
    Enter,
    Esc,
    Backspace,
    Tab,
    BackTab,
    Up,
    Down,
    Left,
    Right,
    PageUp,
    PageDown,
    Home,
    End,
    /// Any other key.
    Other,
}

/// What a key shared by every screen asks for.
#[derive(Debug, Clone, Copy, PartialEq, Eq, Structural)]
pub enum Command {
    Quit,
    Help,
    OpenServicePicker,
    /// Show the next service of the catalogue.
    NextService,
    OpenZonePicker,
    OpenProfilePicker,
    ToggleMode,
    StartFiltering,
    CopySelection,
    /// Load the data shown again.
    Reload,
    /// Drop every cached list, then load the data shown again.
    ReloadAll,
    /// Move the selection by this many rows.
    MoveSelection(i32),
    /// Jump to the first row (`true`) or the last.
    JumpSelection(bool),
    /// Clear the filter of the list shown.
    ClearFilter,
}

/// What a key does on every screen, with `filter_empty` telling whether the list
/// shown has no filter; `None` leaves the key to the screen. Esc first clears a
/// filter, and is left to the screen when there is none.
pub open spec fn spec_common_command(key: Key, filter_empty: bool) -> Option<Command> {
    match key {
        Key::Char('q') => Some(Command::Quit),
        Key::Char('?') => Some(Command::Help),
        Key::Char('s') => Some(Command::OpenServicePicker),
        Key::Char('S') => Some(Command::NextService),
        Key::Char('z') => Some(Command::OpenZonePicker),
        Key::Char('p') => Some(Command::OpenProfilePicker),
        Key::Char('w') => Some(Command::ToggleMode),
        Key::Char('/') => Some(Command::StartFiltering),
        Key::Char('y') => Some(Command::CopySelection),
        Key::Char('r') => Some(Command::Reload),
        Key::Char('R') => Some(Command::ReloadAll),
        Key::Down | Key::Char('j') => Some(Command::MoveSelection(1)),
        Key::Up | Key::Char('k') => Some(Command::MoveSelection(-1i32)),
        Key::PageDown => Some(Command::MoveSelection(10)),
        Key::PageUp => Some(Command::MoveSelection(-10i32)),
        Key::Home | Key::Char('g') => Some(Command::JumpSelection(true)),
        Key::End | Key::Char('G') => Some(Command::JumpSelection(false)),
        Key::Esc => if filter_empty { None } else { Some(Command::ClearFilter) },
        _ => None,
    }
}

pub fn common_command(key: Key, filter_empty: bool) -> (r: Option<Command>)
    ensures
        r == spec_common_command(key, filter_empty),
{
    match key {
        Key::Char('q') => Some(Command::Quit),
        Key::Char('?') => Some(Command::Help),
        Key::Char('s') => Some(Command::OpenServicePicker),
        Key::Char('S') => Some(Command::NextService),
        Key::Char('z') => Some(Command::OpenZonePicker),
        Key::Char('p') => Some(Command::OpenProfilePicker),
        Key::Char('w') => Some(Command::ToggleMode),
        Key::Char('/') => Some(Command::StartFiltering),
        Key::Char('y') => Some(Command::CopySelection),
        Key::Char('r') => Some(Command::Reload),
        Key::Char('R') => Some(Command::ReloadAll),
        Key::Down | Key::Char('j') => Some(Command::MoveSelection(1)),
        Key::Up | Key::Char('k') => Some(Command::MoveSelection(-1i32)),
        Key::PageDown => Some(Command::MoveSelection(10)),
        Key::PageUp => Some(Command::MoveSelection(-10i32)),
        Key::Home | Key::Char('g') => Some(Command::JumpSelection(true)),
        Key::End | Key::Char('G') => Some(Command::JumpSelection(false)),
        Key::Esc => if filter_empty { None } else { Some(Command::ClearFilter) },
        _ => None,
    }
}

/// `r` loads the data shown again, `R` also drops every cache first, and PgUp and
/// PgDn move the selection by ten rows.
pub proof fn law_reload_and_page_keys(filter_empty: bool)
    ensures
        spec_common_command(Key::Char('r'), filter_empty) == Some(Command::Reload),
        spec_common_command(Key::Char('R'), filter_empty) == Some(Command::ReloadAll),
        spec_common_command(Key::PageDown, filter_empty) == Some(Command::MoveSelection(10)),
        spec_common_command(Key::PageUp, filter_empty) == Some(Command::MoveSelection(-10i32)),
{
}

/// What a key does in the service picker.
#[derive(Debug, Clone, Copy, PartialEq, Eq, Structural)]
pub enum PickerStep {
    /// Leave the client (the picker shown at start-up was dismissed).
    Quit,
    /// Close the picker, keeping the service shown.
    Close,
    /// Show the service at this catalogue position.
    Choose(usize),
    /// Keep the picker open with the cursor at this catalogue position.
    Stay(usize),
}

/// What `key` does in the service picker with the cursor at `index`; `initial`
/// tells whether it is the picker shown at start-up. The cursor moves inside a
/// category with the vertical keys and between categories with the horizontal
/// ones, and jumps to the first or last service of its category.
pub open spec fn spec_picker_step(index: int, initial: bool, key: Key) -> PickerStep {
    let block = category_indices(category_at(index));
    match key {
        Key::Esc | Key::Char('q') => if initial { PickerStep::Quit } else { PickerStep::Close },
        Key::Enter => PickerStep::Choose(index as usize),
        Key::Down | Key::Char('j') => PickerStep::Stay(spec_move_within_category(index, 1)),
        Key::Up | Key::Char('k') => PickerStep::Stay(spec_move_within_category(index, -1)),
        Key::Right | Key::Char('l') | Key::PageDown => PickerStep::Stay(spec_move_category(index, 1)),
        Key::Left | Key::Char('h') | Key::PageUp => PickerStep::Stay(spec_move_category(index, -1)),
        Key::Home | Key::Char('g') => PickerStep::Stay(block[0]),
        Key::End | Key::Char('G') => PickerStep::Stay(block[block.len() - 1]),
        _ => PickerStep::Stay(index as usize),
    }
}

pub fn picker_step(index: usize, initial: bool, key: Key) -> (r: PickerStep)
    requires
        index < 45,
    ensures
        r == spec_picker_step(index as int, initial, key),
{
    proof {
        let c = category_at(index as int);
        law_every_category_has_a_service(c);
        lemma_indices_below(c, 45);
        assert(Service::ALL@[index as int].spec_meta().category == c);
        lemma_position_finds(category_indices(c), index);
    }
    match key {
        Key::Esc | Key::Char('q') => if initial { PickerStep::Quit } else { PickerStep::Close },
        Key::Enter => PickerStep::Choose(index),
        Key::Down | Key::Char('j') => PickerStep::Stay(move_service_within_category(index, 1)),
        Key::Up | Key::Char('k') => PickerStep::Stay(move_service_within_category(index, -1)),
        Key::Right | Key::Char('l') | Key::PageDown => PickerStep::Stay(move_service_category(index, 1)),
        Key::Left | Key::Char('h') | Key::PageUp => PickerStep::Stay(move_service_category(index, -1)),
        Key::Home | Key::Char('g') => {
            let block = category_service_indices(Service::ALL[index].category());
            PickerStep::Stay(block[0])
        },
        Key::End | Key::Char('G') => {
            let block = category_service_indices(Service::ALL[index].category());
            PickerStep::Stay(block[block.len() - 1])
        },
        _ => PickerStep::Stay(index),
    }
}

/// What a key does in the zone picker with the cursor at `index` of `len` zones:
/// `None` closes it, `Some((true, i))` switches to zone `i`, `Some((false, i))`
/// keeps it open at `i`. The cursor wraps around at both ends.
pub open spec fn spec_zone_picker_step(index: int, len: int, key: Key) -> Option<(bool, int)> {
    match key {
        Key::Esc | Key::Char('q') => None,
        Key::Enter => Some((true, index)),
        Key::Down | Key::Char('j') => Some((false, (index + 1) % len)),
        Key::Up | Key::Char('k') => Some((false, (index + len - 1) % len)),
        _ => Some((false, index)),
    }
}

/// The row after `index` among `rows`, wrapping to the first.
fn next_row(index: usize, rows: usize) -> (r: usize)
    requires
        index < rows,
    ensures
        r == (index + 1) % (rows as int),
{
    let next = if index + 1 == rows { 0 } else { index + 1 };
    assert(next == (index + 1) % (rows as int)) by (nonlinear_arith)
        requires
            index < rows,
            next == if index + 1 == rows { 0 } else { index + 1 },
    ;
    next
}

/// The row before `index` among `rows`, wrapping to the last.
fn previous_row(index: usize, rows: usize) -> (r: usize)
    requires
        index < rows,
    ensures
        r == (index + rows - 1) % (rows as int),
{
    let previous = if index == 0 { rows - 1 } else { index - 1 };
    assert(previous == (index + rows - 1) % (rows as int)) by (nonlinear_arith)
        requires
            index < rows,
            previous == if index == 0 { rows - 1 } else { index - 1 },
    ;
    previous
}

pub fn zone_picker_step(index: usize, len: usize, key: Key) -> (r: Option<(bool, usize)>)
    requires
        index < len,
    ensures
        r matches Some(p) ==> spec_zone_picker_step(index as int, len as int, key) == Some((p.0, p.1 as int)),
        r is None <==> spec_zone_picker_step(index as int, len as int, key) is None,
{
    match key {
        Key::Esc | Key::Char('q') => None,
        Key::Enter => Some((true, index)),
        Key::Down | Key::Char('j') => Some((false, next_row(index, len))),
        Key::Up | Key::Char('k') => Some((false, previous_row(index, len))),
        _ => Some((false, index)),
    }
}

/// What a key does in the picker of credentials. Its rows are the `sources` and,
/// last, a row that creates a new profile.
#[derive(Debug, Clone, Copy, PartialEq, Eq, Structural)]
pub enum ProfileStep {
    Close,
    /// Open the form of a new profile.
    NewProfile,
    /// Switch to the credentials of this row.
    Switch(usize),
    /// Ask whether to delete the credentials of this row.
    Delete(usize),
    /// Give the credentials of this row their next colour; the picker stays open.
    CycleColor(usize),
    /// The picker stays open at this row.
    Stay(usize),
}

pub open spec fn spec_profile_step(index: int, sources: int, key: Key) -> ProfileStep {
    let rows = sources + 1;
    let on_new_row = index == sources;
    match key {
        Key::Esc | Key::Char('q') => ProfileStep::Close,
        Key::Enter => if on_new_row { ProfileStep::NewProfile } else { ProfileStep::Switch(index as usize) },
        Key::Char('n') => ProfileStep::NewProfile,
        Key::Char('d') if !on_new_row => ProfileStep::Delete(index as usize),
        Key::Char('c') if !on_new_row => ProfileStep::CycleColor(index as usize),
        Key::Down | Key::Char('j') => ProfileStep::Stay(((index + 1) % rows) as usize),
        Key::Up | Key::Char('k') => ProfileStep::Stay(((index + rows - 1) % rows) as usize),
        _ => ProfileStep::Stay(index as usize),
    }
}

pub fn profile_step(index: usize, sources: usize, key: Key) -> (r: ProfileStep)
    requires
        index <= sources < usize::MAX,
    ensures
        r == spec_profile_step(index as int, sources as int, key),
{
    let rows = sources + 1;
    let on_new_row = index == sources;
    match key {
        Key::Esc | Key::Char('q') => ProfileStep::Close,
        Key::Enter => if on_new_row { ProfileStep::NewProfile } else { ProfileStep::Switch(index) },
        Key::Char('n') => ProfileStep::NewProfile,
        Key::Char('d') if !on_new_row => ProfileStep::Delete(index),
        Key::Char('c') if !on_new_row => ProfileStep::CycleColor(index),
        Key::Down | Key::Char('j') => ProfileStep::Stay(next_row(index, rows)),
        Key::Up | Key::Char('k') => ProfileStep::Stay(previous_row(index, rows)),
        _ => ProfileStep::Stay(index),
    }
}

/// What a key does in the picker of saved registry logins. Its rows are the
/// saved `accounts` and, last, a row that types a new login.
#[derive(Debug, Clone, Copy, PartialEq, Eq, Structural)]
pub enum LoginStep {
    Close,
    /// Log in with the saved account of this row.
    UseSaved(usize),
    /// Open an empty login form.
    NewLogin,
    /// The picker stays open at this row.
    Stay(usize),
}

pub open spec fn spec_login_step(index: int, accounts: int, key: Key) -> LoginStep {
    let rows = accounts + 1;
    match key {
        Key::Esc | Key::Char('q') => LoginStep::Close,
        Key::Enter => if index < accounts { LoginStep::UseSaved(index as usize) } else { LoginStep::NewLogin },
        Key::Down | Key::Char('j') => LoginStep::Stay(((index + 1) % rows) as usize),
        Key::Up | Key::Char('k') => LoginStep::Stay(((index + rows - 1) % rows) as usize),
        _ => LoginStep::Stay(index as usize),
    }
}

pub fn login_step(index: usize, accounts: usize, key: Key) -> (r: LoginStep)
    requires
        index <= accounts < usize::MAX,
    ensures
        r == spec_login_step(index as int, accounts as int, key),
{
    let rows = accounts + 1;
    match key {
        Key::Esc | Key::Char('q') => LoginStep::Close,
        Key::Enter => if index < accounts { LoginStep::UseSaved(index) } else { LoginStep::NewLogin },
        Key::Down | Key::Char('j') => LoginStep::Stay(next_row(index, rows)),
        Key::Up | Key::Char('k') => LoginStep::Stay(previous_row(index, rows)),
        _ => LoginStep::Stay(index),
    }
}

/// The service `delta` places after `current` in the catalogue, wrapping around
/// at both ends (`S` shows the next one).
pub open spec fn spec_cycled_service(current: Service, delta: int) -> Service {
    Service::ALL@[(catalogue_position(current) + delta) % 45]
}

/// The catalogue position of a service is where the catalogue holds it.
proof fn lemma_catalogue_position(k: int)
    requires
        0 <= k < 45,
    ensures
        catalogue_position(Service::ALL@[k]) == k,
{
    let s = Service::ALL@[k];
    let p = catalogue_position(s);
    assert(0 <= p < 45 && Service::ALL@[p] == s);
    if p != k {
        lemma_catalogue_distinct(p, k);
    }
}

pub fn cycled_service(current: Service, delta: i32) -> (r: Service)
    requires
        catalogue_position(current) + delta <= i32::MAX,
    ensures
        r == spec_cycled_service(current, delta as int),
{
    let ghost p = catalogue_position(current);
    proof {
        assert(0 <= p < 45 && Service::ALL@[p] == current);
    }
    let mut k: usize = 0;
    while k < 45 && Service::ALL[k] != current
        invariant
            k <= 45,
            0 <= p < 45,
            Service::ALL@[p] == current,
            forall|j: int| 0 <= j < k ==> Service::ALL@[j] != current,
        decreases 45 - k,
    {
        k = k + 1;
    }
    proof {
        if k == 45 {
            assert(Service::ALL@[p] != current);
        }
        lemma_catalogue_position(k as int);
    }
    let at = wrap_index(k as i32 + delta, 45);
    Service::ALL[at as usize]
}

/// Cycling `delta` services and then `-delta` comes back to the starting one.
pub proof fn law_service_cycle_round_trip(s: Service, delta: int)
    ensures
        spec_cycled_service(spec_cycled_service(s, delta), -delta) == s,
{
    let p = catalogue_position(s);
    assert(0 <= p < 45 && Service::ALL@[p] == s);
    let q = (p + delta) % 45;
    lemma_catalogue_position(q);
    lemma_wrap_round_trip(p, delta, 45);
}

/// What a key does on the registry screen.
#[derive(Debug, Clone, Copy, PartialEq, Eq, Structural)]
pub enum RegistryCommand {
    FocusLeft,
    FocusRight,
    /// Move `1` or `-1` tabs.
    CycleTab(i32),
    SetTab(Tab),
    AddUser,
    EditUser,
    DeleteSelected,
    CreateRegistry,
    EditRegistry,
    DeleteRegistry,
    /// Open the registry login dialog.
    Login,
    /// Ask whether to drop the saved registry login.
    ForgetLogin,
}

pub open spec fn spec_registry_command(key: Key) -> Option<RegistryCommand> {
    match key {
        Key::Esc | Key::Left | Key::Char('h') => Some(RegistryCommand::FocusLeft),
        Key::Tab => Some(RegistryCommand::CycleTab(1)),
        Key::BackTab => Some(RegistryCommand::CycleTab(-1i32)),
        Key::Char('1') => Some(RegistryCommand::SetTab(Tab::Overview)),
        Key::Char('2') => Some(RegistryCommand::SetTab(Tab::Users)),
        Key::Char('3') => Some(RegistryCommand::SetTab(Tab::Images)),
        Key::Char('a') => Some(RegistryCommand::AddUser),
        Key::Char('e') => Some(RegistryCommand::EditUser),
        Key::Char('d') => Some(RegistryCommand::DeleteSelected),
        Key::Char('n') => Some(RegistryCommand::CreateRegistry),
        Key::Char('E') => Some(RegistryCommand::EditRegistry),
        Key::Char('D') => Some(RegistryCommand::DeleteRegistry),
        Key::Char('L') => Some(RegistryCommand::Login),
        Key::Char('O') => Some(RegistryCommand::ForgetLogin),
        Key::Right | Key::Char('l') | Key::Enter => Some(RegistryCommand::FocusRight),
        _ => None,
    }
}

/// What a key does on the registry screen, after the keys shared by every
/// screen.
pub fn registry_command(key: Key) -> (r: Option<RegistryCommand>)
    ensures
        r == spec_registry_command(key),
{
    match key {
        Key::Esc | Key::Left | Key::Char('h') => Some(RegistryCommand::FocusLeft),
        Key::Tab => Some(RegistryCommand::CycleTab(1)),
        Key::BackTab => Some(RegistryCommand::CycleTab(-1)),
        Key::Char('1') => Some(RegistryCommand::SetTab(Tab::Overview)),
        Key::Char('2') => Some(RegistryCommand::SetTab(Tab::Users)),
        Key::Char('3') => Some(RegistryCommand::SetTab(Tab::Images)),
        Key::Char('a') => Some(RegistryCommand::AddUser),
        Key::Char('e') => Some(RegistryCommand::EditUser),
        Key::Char('d') => Some(RegistryCommand::DeleteSelected),
        Key::Char('n') => Some(RegistryCommand::CreateRegistry),
        Key::Char('E') => Some(RegistryCommand::EditRegistry),
        Key::Char('D') => Some(RegistryCommand::DeleteRegistry),
        Key::Char('L') => Some(RegistryCommand::Login),
        Key::Char('O') => Some(RegistryCommand::ForgetLogin),
        Key::Right | Key::Char('l') | Key::Enter => Some(RegistryCommand::FocusRight),
        _ => None,
    }
}

/// The registry keys of the key table: `a` `e` `d` add, edit and delete users,
/// `L` logs in to the registry and `O` drops the saved login, `1` `2` `3` pick
/// the overview, users and images tabs.
pub proof fn law_registry_keys()
    ensures
        spec_registry_command(Key::Char('a')) == Some(RegistryCommand::AddUser),
        spec_registry_command(Key::Char('e')) == Some(RegistryCommand::EditUser),
        spec_registry_command(Key::Char('d')) == Some(RegistryCommand::DeleteSelected),
        spec_registry_command(Key::Char('L')) == Some(RegistryCommand::Login),
        spec_registry_command(Key::Char('O')) == Some(RegistryCommand::ForgetLogin),
        spec_registry_command(Key::Char('1')) == Some(RegistryCommand::SetTab(Tab::Overview)),
        spec_registry_command(Key::Char('2')) == Some(RegistryCommand::SetTab(Tab::Users)),
        spec_registry_command(Key::Char('3')) == Some(RegistryCommand::SetTab(Tab::Images)),
{
}

} // verus!
