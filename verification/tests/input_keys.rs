use systemd_dashboard::app::DetailPaneFocus::{Bottom, Top};
use systemd_dashboard::app::ViewMode;
use systemd_dashboard::input::{
    detail_command, list_command, refresh_action, refresh_interval_ms, Command, Key, Refresh,
};

#[test]
fn list_view_keys() {
    assert_eq!(list_command(Key::Char('q')), Command::Quit);
    assert_eq!(list_command(Key::Down), Command::Next);
    assert_eq!(list_command(Key::Char('j')), Command::Next);
    assert_eq!(list_command(Key::Up), Command::Previous);
    assert_eq!(list_command(Key::Char('k')), Command::Previous);
    assert_eq!(list_command(Key::Enter), Command::OpenDetail);
    assert_eq!(list_command(Key::Char(' ')), Command::ToggleTimer);
    assert_eq!(list_command(Key::Char('r')), Command::Refresh);
    assert_eq!(list_command(Key::Esc), Command::Nothing);
    assert_eq!(list_command(Key::Left), Command::Nothing);
    assert_eq!(list_command(Key::Char('x')), Command::Nothing);
}

#[test]
fn detail_view_keys_depend_on_focus() {
    assert_eq!(detail_command(Top, Key::Esc), Command::ExitDetail);
    assert_eq!(detail_command(Bottom, Key::Backspace), Command::ExitDetail);
    assert_eq!(detail_command(Top, Key::Tab), Command::ToggleFocus);
    assert_eq!(detail_command(Top, Key::Left), Command::ExitDetail);
    assert_eq!(detail_command(Bottom, Key::Left), Command::ExitDetail);
    assert_eq!(detail_command(Top, Key::Up), Command::PreviousContent);
    assert_eq!(detail_command(Top, Key::Right), Command::NextContent);
    assert_eq!(detail_command(Top, Key::Down), Command::NextContent);
    assert_eq!(detail_command(Bottom, Key::Up), Command::ScrollUp);
    assert_eq!(detail_command(Bottom, Key::Char('k')), Command::ScrollUp);
    assert_eq!(detail_command(Bottom, Key::Right), Command::ScrollDown);
    assert_eq!(detail_command(Bottom, Key::Down), Command::ScrollDown);
    assert_eq!(detail_command(Bottom, Key::Char('j')), Command::ScrollDown);
    assert_eq!(detail_command(Top, Key::Char('j')), Command::Nothing);
    assert_eq!(detail_command(Top, Key::Char('k')), Command::Nothing);
    assert_eq!(detail_command(Top, Key::Char(' ')), Command::ToggleTimer);
    assert_eq!(detail_command(Bottom, Key::Char('q')), Command::Quit);
    assert_eq!(detail_command(Bottom, Key::Char('r')), Command::Refresh);
    assert_eq!(detail_command(Top, Key::Enter), Command::Nothing);
}

#[test]
fn refresh_intervals() {
    assert_eq!(refresh_interval_ms(ViewMode::List), 60_000);
    assert_eq!(refresh_interval_ms(ViewMode::Detail), 2_000);
}

#[test]
fn refresh_is_due_once_the_view_interval_has_passed() {
    assert_eq!(refresh_action(ViewMode::Detail, 0), Refresh::Nothing);
    assert_eq!(refresh_action(ViewMode::Detail, 1999), Refresh::Nothing);
    assert_eq!(refresh_action(ViewMode::Detail, 2000), Refresh::Detail);
    assert_eq!(refresh_action(ViewMode::Detail, 59_999), Refresh::Detail);
    assert_eq!(refresh_action(ViewMode::List, 2000), Refresh::Nothing);
    assert_eq!(refresh_action(ViewMode::List, 59_999), Refresh::Nothing);
    assert_eq!(refresh_action(ViewMode::List, 60_000), Refresh::List);
    assert_eq!(refresh_action(ViewMode::List, u64::MAX), Refresh::List);
}
