//! What a key press asks of the dashboard, in the list view and in the
//! detail view, and how often each view refreshes.
use vstd::prelude::*;
use crate::app::{DetailPaneFocus, ViewMode};

verus! {

/// A key press, as far as the dashboard tells keys apart.
#[derive(Debug, Clone, Copy, PartialEq, Eq, Structural)]
pub enum Key {
    Char(char),
    Up,
    Down,
    Left,
    Right,
    Enter,
    Esc,
    Backspace,
    Tab,
    Other,
}

/// What a key press asks for.
#[derive(Debug, Clone, Copy, PartialEq, Eq, Structural)]
pub enum Command {
    Quit,
    Next,
    Previous,
    OpenDetail,
    ToggleTimer,
    Refresh,
    ExitDetail,
    ToggleFocus,
    PreviousContent,
    NextContent,
    ScrollUp,
    ScrollDown,
    Nothing,
}

/// The keys of the list view: `q` quits, `↓`/`j` and `↑`/`k` move the
/// selection, `Enter` opens the detail view, space toggles the timer, `r`
/// refreshes.
pub open spec fn list_command_of(key: Key) -> Command {
    match key {
        Key::Char('q') => Command::Quit,
        Key::Down | Key::Char('j') => Command::Next,
        Key::Up | Key::Char('k') => Command::Previous,
        Key::Enter => Command::OpenDetail,
        Key::Char(' ') => Command::ToggleTimer,
        Key::Char('r') => Command::Refresh,
        _ => Command::Nothing,
    }
}

/// The keys of the detail view: `Esc`/`←`/`Backspace` go back to the list,
/// `Tab` moves the focus; with the top pane focused `↑` and `→`/`↓` switch
/// the content, with the bottom pane focused `↑`/`k` and `→`/`↓`/`j` scroll;
/// space toggles the timer, `q` quits, `r` refreshes.
pub open spec fn detail_command_of(focus: DetailPaneFocus, key: Key) -> Command {
    match key {
        Key::Esc | Key::Left | Key::Backspace => Command::ExitDetail,
        Key::Tab => Command::ToggleFocus,
        Key::Up => match focus {
            DetailPaneFocus::Top => Command::PreviousContent,
            DetailPaneFocus::Bottom => Command::ScrollUp,
        },
        Key::Right | Key::Down => match focus {
            DetailPaneFocus::Top => Command::NextContent,
            DetailPaneFocus::Bottom => Command::ScrollDown,
        },
        Key::Char('j') => match focus {
            DetailPaneFocus::Top => Command::Nothing,
            DetailPaneFocus::Bottom => Command::ScrollDown,
        },
        Key::Char('k') => match focus {
            DetailPaneFocus::Top => Command::Nothing,
            DetailPaneFocus::Bottom => Command::ScrollUp,
        },
        Key::Char(' ') => Command::ToggleTimer,
        Key::Char('q') => Command::Quit,
        Key::Char('r') => Command::Refresh,
        _ => Command::Nothing,
    }
}

/// What a key press asks for in the list view.
pub fn list_command(key: Key) -> (c: Command)
    ensures
        c == list_command_of(key),
{
    match key {
        Key::Char('q') => Command::Quit,
        Key::Down | Key::Char('j') => Command::Next,
        Key::Up | Key::Char('k') => Command::Previous,
        Key::Enter => Command::OpenDetail,
        Key::Char(' ') => Command::ToggleTimer,
        Key::Char('r') => Command::Refresh,
        _ => Command::Nothing,
    }
}

/// What a key press asks for in the detail view, with `focus` on a pane.
pub fn detail_command(focus: DetailPaneFocus, key: Key) -> (c: Command)
    ensures
        c == detail_command_of(focus, key),
{
    match key {
        Key::Esc | Key::Left | Key::Backspace => Command::ExitDetail,
        Key::Tab => Command::ToggleFocus,
        Key::Up => match focus {
            DetailPaneFocus::Top => Command::PreviousContent,
            DetailPaneFocus::Bottom => Command::ScrollUp,
        },
        Key::Right | Key::Down => match focus {
            DetailPaneFocus::Top => Command::NextContent,
            DetailPaneFocus::Bottom => Command::ScrollDown,
        },
        Key::Char('j') => match focus {
            DetailPaneFocus::Top => Command::Nothing,
            DetailPaneFocus::Bottom => Command::ScrollDown,
        },
        Key::Char('k') => match focus {
            DetailPaneFocus::Top => Command::Nothing,
            DetailPaneFocus::Bottom => Command::ScrollUp,
        },
        Key::Char(' ') => Command::ToggleTimer,
        Key::Char('q') => Command::Quit,
        Key::Char('r') => Command::Refresh,
        _ => Command::Nothing,
    }
}

/// How long a view waits between refreshes, in milliseconds: the detail
/// view every 2 s (live logs), the list every 60 s.
pub fn refresh_interval_ms(mode: ViewMode) -> (ms: u64)
    ensures
        ms == match mode {
            ViewMode::Detail => 2000u64,
            ViewMode::List => 60000u64,
        },
{
    match mode {
        ViewMode::Detail => 2000,
        ViewMode::List => 60000,
    }
}

/// Which refresh a view asks for.
#[derive(Debug, Clone, Copy, PartialEq, Eq, Structural)]
pub enum Refresh {
    /// The selected timer's status and the bottom pane's content.
    Detail,
    /// The timer list.
    List,
    /// None yet.
    Nothing,
}

/// The refresh due in `mode` when `elapsed_ms` milliseconds have passed
/// since the last one: the view's own refresh once its interval is over.
pub open spec fn refresh_of(mode: ViewMode, elapsed_ms: u64) -> Refresh {
    let interval: u64 = match mode {
        ViewMode::Detail => 2000u64,
        ViewMode::List => 60000u64,
    };
    if elapsed_ms >= interval {
        match mode {
            ViewMode::Detail => Refresh::Detail,
            ViewMode::List => Refresh::List,
        }
    } else {
        Refresh::Nothing
    }
}

/// The refresh due in `mode` after `elapsed_ms` milliseconds.
pub fn refresh_action(mode: ViewMode, elapsed_ms: u64) -> (r: Refresh)
    ensures
        r == refresh_of(mode, elapsed_ms),
{
    if elapsed_ms >= refresh_interval_ms(mode) {
        match mode {
            ViewMode::Detail => Refresh::Detail,
            ViewMode::List => Refresh::List,
        }
    } else {
        Refresh::Nothing
    }
}

/// In the detail view the keys that go back (`Esc`, `Left`, `Backspace`)
/// return to the list whichever pane has the focus: what they do does not
/// depend on the focus, and it is leaving the detail view.
pub proof fn lemma_back_keys_leave_detail(focus: DetailPaneFocus, other: DetailPaneFocus)
    ensures
        detail_command_of(focus, Key::Esc) == Command::ExitDetail,
        detail_command_of(focus, Key::Left) == Command::ExitDetail,
        detail_command_of(focus, Key::Backspace) == Command::ExitDetail,
        forall|k: Key|
            #![trigger detail_command_of(focus, k)]
            (k == Key::Esc || k == Key::Left || k == Key::Backspace) ==> detail_command_of(focus, k)
                == detail_command_of(other, k),
{
}

} // verus!
