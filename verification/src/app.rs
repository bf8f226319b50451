//! The dashboard's state: the timer list, the selection, and the detail
//! view with its two panes.
use vstd::prelude::*;
use crate::systemd::TimerInfo;
use crate::text::{chars_eq, chars_of};

verus! {

broadcast use vstd::string::group_string_axioms;

/// Which screen is shown.
#[derive(Debug, Clone, Copy, PartialEq, Eq, Structural)]
pub enum ViewMode {
    List,
    Detail,
}

/// Which pane of the detail view takes the arrow keys.
#[derive(Debug, Clone, Copy, PartialEq, Eq, Structural)]
pub enum DetailPaneFocus {
    Top,
    Bottom,
}

/// What the bottom pane of the detail view shows.
#[derive(Debug, Clone, Copy, PartialEq, Eq, Structural)]
pub enum DetailContentMode {
    Logs,
    ServiceFile,
}

pub struct App {
    pub timers: Vec<TimerInfo>,
    pub mode: ViewMode,
    pub selected_index: usize,
    pub detail_status: String,
    pub detail_logs: String,
    pub detail_focus: DetailPaneFocus,
    pub detail_content_mode: DetailContentMode,
    pub should_quit: bool,
    pub error: Option<String>,
    pub detail_scroll: usize,
    pub auto_scroll: bool,
}

/// The selection after moving down a list of `len` timers: the next one,
/// wrapping from the last to the first.
pub open spec fn next_index(selected: usize, len: nat) -> usize {
    if selected >= len - 1 {
        0
    } else {
        (selected + 1) as usize
    }
}

/// The selection after moving up a list of `len` timers: the previous one,
/// wrapping from the first to the last.
pub open spec fn previous_index(selected: usize, len: nat) -> usize {
    if selected == 0 {
        (len - 1) as usize
    } else {
        (selected - 1) as usize
    }
}

/// The scroll position after scrolling down one line with `max_lines` the
/// last position.
pub open spec fn scroll_down_position(scroll: usize, max_lines: usize) -> usize {
    if scroll < max_lines {
        (scroll + 1) as usize
    } else {
        scroll
    }
}

/// The scroll position after scrolling up one line.
pub open spec fn scroll_up_position(scroll: usize) -> usize {
    if scroll > 0 {
        (scroll - 1) as usize
    } else {
        0
    }
}

/// The largest useful scroll position for `visual_lines` rows of content in
/// a pane of `inner_height` rows.
pub open spec fn max_scroll_for(visual_lines: usize, inner_height: usize) -> usize {
    if visual_lines > inner_height {
        (visual_lines - inner_height) as usize
    } else {
        0
    }
}

/// The scroll position fitted to `max_scroll`: pinned to it while
/// auto-scroll follows the logs, else lowered to it when past it.
pub open spec fn fitted_scroll(
    scroll: usize,
    auto_scroll: bool,
    mode: DetailContentMode,
    max_scroll: usize,
) -> usize {
    if auto_scroll && mode == DetailContentMode::Logs {
        max_scroll
    } else if scroll > max_scroll {
        max_scroll
    } else {
        scroll
    }
}

/// The other pane.
pub open spec fn other_pane(f: DetailPaneFocus) -> DetailPaneFocus {
    match f {
        DetailPaneFocus::Top => DetailPaneFocus::Bottom,
        DetailPaneFocus::Bottom => DetailPaneFocus::Top,
    }
}

/// The other content of the bottom pane.
pub open spec fn other_content(m: DetailContentMode) -> DetailContentMode {
    match m {
        DetailContentMode::Logs => DetailContentMode::ServiceFile,
        DetailContentMode::ServiceFile => DetailContentMode::Logs,
    }
}

/// The timer that the selection points at, if any.
pub open spec fn selected_of(timers: Seq<TimerInfo>, selected: usize) -> Option<TimerInfo> {
    if selected < timers.len() {
        Some(timers[selected as int])
    } else {
        None
    }
}

impl App {
    /// The list view with no timers, nothing selected beyond the first row,
    /// the detail view reset (top pane, logs, auto-scroll on), no error.
    pub fn new() -> (app: App)
        ensures
            app.timers@.len() == 0,
            app.mode == ViewMode::List,
            app.selected_index == 0,
            app.detail_status@.len() == 0,
            app.detail_logs@.len() == 0,
            app.detail_focus == DetailPaneFocus::Top,
            app.detail_content_mode == DetailContentMode::Logs,
            !app.should_quit,
            app.error is None,
            app.detail_scroll == 0,
            app.auto_scroll,
    {
        App {
            timers: Vec::new(),
            mode: ViewMode::List,
            selected_index: 0,
            detail_status: String::new(),
            detail_logs: String::new(),
            detail_focus: DetailPaneFocus::Top,
            detail_content_mode: DetailContentMode::Logs,
            should_quit: false,
            error: None,
            detail_scroll: 0,
            auto_scroll: true,
        }
    }

    /// Moves the selection down one timer, wrapping to the first; nothing
    /// happens on an empty list.
    pub fn next(&mut self)
        ensures
            final(self).selected_index == if old(self).timers@.len() == 0 {
                old(self).selected_index
            } else {
                next_index(old(self).selected_index, old(self).timers@.len())
            },
            *final(self) == (App { selected_index: final(self).selected_index, ..*old(self) }),
    {
        if self.timers.len() == 0 {
            return;
        }
        let i = if self.selected_index >= self.timers.len() - 1 {
            0
        } else {
            self.selected_index + 1
        };
        self.selected_index = i;
    }

    /// Moves the selection up one timer, wrapping to the last; nothing
    /// happens on an empty list.
    pub fn previous(&mut self)
        ensures
            final(self).selected_index == if old(self).timers@.len() == 0 {
                old(self).selected_index
            } else {
                previous_index(old(self).selected_index, old(self).timers@.len())
            },
            *final(self) == (App { selected_index: final(self).selected_index, ..*old(self) }),
    {
        if self.timers.len() == 0 {
            return;
        }
        let i = if self.selected_index == 0 {
            self.timers.len() - 1
        } else {
            self.selected_index - 1
        };
        self.selected_index = i;
    }

    /// Opens the detail view on its defaults: top pane focused, logs shown,
    /// scrolled to the top with auto-scroll on.
    pub fn enter_detail(&mut self)
        ensures
            *final(self) == (App {
                mode: ViewMode::Detail,
                detail_focus: DetailPaneFocus::Top,
                detail_content_mode: DetailContentMode::Logs,
                detail_scroll: 0,
                auto_scroll: true,
                ..*old(self)
            }),
    {
        self.mode = ViewMode::Detail;
        self.detail_focus = DetailPaneFocus::Top;
        self.detail_content_mode = DetailContentMode::Logs;
        self.detail_scroll = 0;
        self.auto_scroll = true;
    }

    /// Returns to the list view, dropping the detail texts and resetting the
    /// detail view to its defaults.
    pub fn exit_detail(&mut self)
        ensures
            final(self).mode == ViewMode::List,
            final(self).detail_status@.len() == 0,
            final(self).detail_logs@.len() == 0,
            final(self).detail_focus == DetailPaneFocus::Top,
            final(self).detail_content_mode == DetailContentMode::Logs,
            final(self).detail_scroll == 0,
            final(self).auto_scroll,
            final(self).timers == old(self).timers,
            final(self).selected_index == old(self).selected_index,
            final(self).should_quit == old(self).should_quit,
            final(self).error == old(self).error,
    {
        self.mode = ViewMode::List;
        self.detail_status = String::new();
        self.detail_logs = String::new();
        self.detail_focus = DetailPaneFocus::Top;
        self.detail_content_mode = DetailContentMode::Logs;
        self.detail_scroll = 0;
        self.auto_scroll = true;
    }

    /// Moves the focus to the other pane.
    pub fn toggle_detail_focus(&mut self)
        ensures
            *final(self) == (App { detail_focus: other_pane(old(self).detail_focus), ..*old(self) }),
    {
        self.detail_focus = match self.detail_focus {
            DetailPaneFocus::Top => DetailPaneFocus::Bottom,
            DetailPaneFocus::Bottom => DetailPaneFocus::Top,
        };
    }

    /// Shows the other content in the bottom pane.
    pub fn select_next_detail_content(&mut self)
        ensures
            *final(self) == (App {
                detail_content_mode: other_content(old(self).detail_content_mode),
                ..*old(self)
            }),
    {
        self.detail_content_mode = match self.detail_content_mode {
            DetailContentMode::Logs => DetailContentMode::ServiceFile,
            DetailContentMode::ServiceFile => DetailContentMode::Logs,
        };
    }

    /// Shows the other content in the bottom pane (with two contents, the
    /// previous one is the next one).
    pub fn select_previous_detail_content(&mut self)
        ensures
            *final(self) == (App {
                detail_content_mode: other_content(old(self).detail_content_mode),
                ..*old(self)
            }),
    {
        self.select_next_detail_content();
    }

    /// Scrolls the bottom pane down one line, not past `max_lines`; reaching
    /// `max_lines` turns auto-scroll on.
    pub fn scroll_detail_down(&mut self, max_lines: usize)
        ensures
            final(self).detail_scroll == scroll_down_position(old(self).detail_scroll, max_lines),
            final(self).auto_scroll == (old(self).auto_scroll || final(self).detail_scroll
                >= max_lines),
            *final(self) == (App {
                detail_scroll: final(self).detail_scroll,
                auto_scroll: final(self).auto_scroll,
                ..*old(self)
            }),
    {
        if self.detail_scroll < max_lines {
            self.detail_scroll = self.detail_scroll + 1;
        }
        if self.detail_scroll >= max_lines {
            self.auto_scroll = true;
        }
    }

    /// Scrolls the bottom pane up one line, not above the top, and turns
    /// auto-scroll off.
    pub fn scroll_detail_up(&mut self)
        ensures
            final(self).detail_scroll == scroll_up_position(old(self).detail_scroll),
            !final(self).auto_scroll,
            *final(self) == (App {
                detail_scroll: final(self).detail_scroll,
                auto_scroll: false,
                ..*old(self)
            }),
    {
        self.detail_scroll = if self.detail_scroll > 0 {
            self.detail_scroll - 1
        } else {
            0
        };
        self.auto_scroll = false;
    }

    /// The selected timer, if the selection is within the list.
    pub fn selected_timer(&self) -> (r: Option<&TimerInfo>)
        ensures
            match r {
                Some(t) => self.selected_index < self.timers@.len() && *t
                    == self.timers@[self.selected_index as int],
                None => self.selected_index >= self.timers@.len(),
            },
    {
        if self.selected_index < self.timers.len() {
            Some(&self.timers[self.selected_index])
        } else {
            None
        }
    }
}

/// Whether a timer's state counts as running (a toggle stops it).
pub open spec fn is_running_status(status: Seq<char>) -> bool {
    status == "Active"@ || status == "Waiting"@
}

/// Whether `status` (a state text) counts as running.
pub fn is_running(status: &str) -> (b: bool)
    ensures
        b == is_running_status(status@),
{
    let s = chars_of(status);
    chars_eq(s.as_slice(), chars_of("Active").as_slice()) || chars_eq(
        s.as_slice(),
        chars_of("Waiting").as_slice(),
    )
}

/// The content shown for a failed fetch of the bottom pane's content.
pub open spec fn content_error_text(mode: DetailContentMode) -> Seq<char> {
    match mode {
        DetailContentMode::Logs => "Error fetching logs"@,
        DetailContentMode::ServiceFile => "Error fetching service file"@,
    }
}

impl App {
    /// The unit and the activated service of the selected timer, when there
    /// is one and its unit name is not empty: what opening the detail view
    /// fetches the status and the logs of.
    pub fn detail_target(&self) -> (r: Option<(String, String)>)
        ensures
            match r {
                Some((u, a)) => selected_of(self.timers@, self.selected_index) is Some && {
                    let t = selected_of(self.timers@, self.selected_index)->0;
                    u@ == t.unit@ && a@ == t.activates@ && u@.len() > 0
                },
                None => match selected_of(self.timers@, self.selected_index) {
                    Some(t) => t.unit@.len() == 0,
                    None => true,
                },
            },
    {
        match self.selected_timer() {
            Some(t) => {
                if t.unit.as_str().is_empty() {
                    None
                } else {
                    Some((t.unit.clone(), t.activates.clone()))
                }
            },
            None => None,
        }
    }

    /// Records a fetched status text, or the failure to fetch it.
    pub fn apply_status(&mut self, status: Result<String, String>)
        ensures
            match status {
                Ok(s) => final(self).detail_status@ == s@ && final(self).error == old(self).error,
                Err(e) => final(self).detail_status@ == "Error fetching status"@ && final(self).error
                    == Some(e),
            },
            *final(self) == (App {
                detail_status: final(self).detail_status,
                error: final(self).error,
                ..*old(self)
            }),
    {
        match status {
            Ok(s) => {
                self.detail_status = s;
            },
            Err(e) => {
                self.error = Some(e);
                self.detail_status = "Error fetching status".to_owned();
            },
        }
    }

    /// Opens the detail view with the fetched status and logs of the
    /// selected timer; a failed fetch shows an error text in its place and
    /// becomes the error (the logs' failure when both failed).
    pub fn open_detail(&mut self, status: Result<String, String>, logs: Result<String, String>)
        ensures
            final(self).detail_status@ == match status {
                Ok(s) => s@,
                Err(_) => "Error fetching status"@,
            },
            final(self).detail_logs@ == match logs {
                Ok(l) => l@,
                Err(_) => "Error fetching logs"@,
            },
            final(self).error == match logs {
                Err(e) => Some(e),
                Ok(_) => match status {
                    Err(e) => Some(e),
                    Ok(_) => old(self).error,
                },
            },
            *final(self) == (App {
                mode: ViewMode::Detail,
                detail_focus: DetailPaneFocus::Top,
                detail_content_mode: DetailContentMode::Logs,
                detail_scroll: 0,
                auto_scroll: true,
                detail_status: final(self).detail_status,
                detail_logs: final(self).detail_logs,
                error: final(self).error,
                ..*old(self)
            }),
    {
        self.apply_status(status);
        match logs {
            Ok(l) => {
                self.detail_logs = l;
            },
            Err(e) => {
                self.error = Some(e);
                self.detail_logs = "Error fetching logs".to_owned();
            },
        }
        self.enter_detail();
    }

    /// What the bottom pane should fetch: its current content for the
    /// service that the selected timer activates.
    pub fn detail_content_request(&self) -> (r: Option<(DetailContentMode, String)>)
        ensures
            match r {
                Some((m, a)) => selected_of(self.timers@, self.selected_index) is Some && m
                    == self.detail_content_mode && a@ == selected_of(
                    self.timers@,
                    self.selected_index,
                )->0.activates@,
                None => selected_of(self.timers@, self.selected_index) is None,
            },
    {
        match self.selected_timer() {
            Some(t) => Some((self.detail_content_mode, t.activates.clone())),
            None => None,
        }
    }

    /// Records the fetched content of the bottom pane, or the failure to
    /// fetch it; with `reset_scroll`, scrolls back to the top and turns
    /// auto-scroll on for logs only.
    pub fn apply_detail_content(&mut self, fetched: Result<String, String>, reset_scroll: bool)
        ensures
            final(self).detail_logs@ == match fetched {
                Ok(c) => c@,
                Err(_) => content_error_text(old(self).detail_content_mode),
            },
            final(self).error == match fetched {
                Ok(_) => old(self).error,
                Err(e) => Some(e),
            },
            final(self).detail_scroll == if reset_scroll {
                0
            } else {
                old(self).detail_scroll
            },
            final(self).auto_scroll == if reset_scroll {
                old(self).detail_content_mode == DetailContentMode::Logs
            } else {
                old(self).auto_scroll
            },
            *final(self) == (App {
                detail_logs: final(self).detail_logs,
                error: final(self).error,
                detail_scroll: final(self).detail_scroll,
                auto_scroll: final(self).auto_scroll,
                ..*old(self)
            }),
    {
        match fetched {
            Ok(c) => {
                self.detail_logs = c;
            },
            Err(e) => {
                self.error = Some(e);
                self.detail_logs = match self.detail_content_mode {
                    DetailContentMode::Logs => "Error fetching logs".to_owned(),
                    DetailContentMode::ServiceFile => "Error fetching service file".to_owned(),
                };
            },
        }
        if reset_scroll {
            self.detail_scroll = 0;
            self.auto_scroll = match self.detail_content_mode {
                DetailContentMode::Logs => true,
                DetailContentMode::ServiceFile => false,
            };
        }
    }

    /// The unit to toggle and whether to start it: a running timer is
    /// stopped, any other is started.
    pub fn toggle_request(&self) -> (r: Option<(String, bool)>)
        ensures
            match r {
                Some((u, start)) => selected_of(self.timers@, self.selected_index) is Some && {
                    let t = selected_of(self.timers@, self.selected_index)->0;
                    u@ == t.unit@ && start == !is_running_status(t.status@)
                },
                None => selected_of(self.timers@, self.selected_index) is None,
            },
    {
        match self.selected_timer() {
            Some(t) => Some((t.unit.clone(), !is_running(t.status.as_str()))),
            None => None,
        }
    }

    /// Records a fetched timer list (clearing the error when
    /// `clear_error` is set), or the failure to fetch it.
    pub fn apply_timer_list(&mut self, fetched: Result<Vec<TimerInfo>, String>, clear_error: bool)
        ensures
            match fetched {
                Ok(ts) => final(self).timers == ts && final(self).error == if clear_error {
                    None
                } else {
                    old(self).error
                },
                Err(e) => final(self).timers == old(self).timers && final(self).error == Some(e),
            },
            *final(self) == (App { timers: final(self).timers, error: final(self).error, ..*old(self) }),
    {
        match fetched {
            Ok(ts) => {
                self.timers = ts;
                if clear_error {
                    self.error = None;
                }
            },
            Err(e) => {
                self.error = Some(e);
            },
        }
    }

    /// Dismisses the error shown (any key press does).
    pub fn dismiss_error(&mut self)
        ensures
            *final(self) == (App { error: None, ..*old(self) }),
    {
        self.error = None;
    }

    /// Records a status fetched by a manual refresh: the text on success,
    /// only the error on failure (the shown status is kept).
    pub fn apply_refreshed_status(&mut self, status: Result<String, String>)
        ensures
            match status {
                Ok(s) => final(self).detail_status@ == s@ && final(self).error == old(self).error,
                Err(e) => final(self).detail_status == old(self).detail_status && final(self).error
                    == Some(e),
            },
            *final(self) == (App {
                detail_status: final(self).detail_status,
                error: final(self).error,
                ..*old(self)
            }),
    {
        match status {
            Ok(s) => {
                self.detail_status = s;
            },
            Err(e) => {
                self.error = Some(e);
            },
        }
    }

    /// Records the outcome of starting or stopping a timer: success clears
    /// the error and asks for the list to be fetched again; failure becomes
    /// the error.
    pub fn apply_toggle_result(&mut self, outcome: Result<(), String>) -> (refetch: bool)
        ensures
            refetch == (outcome is Ok),
            final(self).error == match outcome {
                Ok(()) => None,
                Err(e) => Some(e),
            },
            *final(self) == (App { error: final(self).error, ..*old(self) }),
    {
        match outcome {
            Ok(()) => {
                self.error = None;
                true
            },
            Err(e) => {
                self.error = Some(e);
                false
            },
        }
    }

    /// Fits the scroll position of the bottom pane to content of
    /// `visual_lines` rows shown in `inner_height` rows: the position is at
    /// most the largest useful one, and is that one while auto-scroll is on
    /// for logs. Returns the largest useful position.
    pub fn fit_detail_scroll(&mut self, visual_lines: usize, inner_height: usize) -> (max_scroll: usize)
        ensures
            max_scroll == max_scroll_for(visual_lines, inner_height),
            final(self).detail_scroll == fitted_scroll(
                old(self).detail_scroll,
                old(self).auto_scroll,
                old(self).detail_content_mode,
                max_scroll,
            ),
            *final(self) == (App { detail_scroll: final(self).detail_scroll, ..*old(self) }),
    {
        let max_scroll = if visual_lines > inner_height {
            visual_lines - inner_height
        } else {
            0
        };
        if self.detail_scroll > max_scroll {
            self.detail_scroll = max_scroll;
        }
        if self.auto_scroll && self.detail_content_mode == DetailContentMode::Logs {
            self.detail_scroll = max_scroll;
        }
        max_scroll
    }
}

// ---------------------------------------------------------------------------
// Laws
// ---------------------------------------------------------------------------

/// Moving down keeps the selection within a non-empty list.
pub proof fn lemma_next_in_range(selected: usize, len: nat)
    requires
        0 < len <= usize::MAX,
    ensures
        next_index(selected, len) < len,
{
}

/// Moving up from a selection within a non-empty list stays within it.
pub proof fn lemma_previous_in_range(selected: usize, len: nat)
    requires
        0 < len <= usize::MAX,
        selected < len,
    ensures
        previous_index(selected, len) < len,
{
}

/// Moving up undoes moving down, and moving down undoes moving up, for a
/// selection within a non-empty list.
pub proof fn lemma_next_previous_inverse(selected: usize, len: nat)
    requires
        0 < len <= usize::MAX,
        selected < len,
    ensures
        previous_index(next_index(selected, len), len) == selected,
        next_index(previous_index(selected, len), len) == selected,
{
}

/// Toggling the focus twice, or switching the content twice, changes
/// nothing.
pub proof fn lemma_toggles_are_involutions(f: DetailPaneFocus, m: DetailContentMode)
    ensures
        other_pane(other_pane(f)) == f,
        other_content(other_content(m)) == m,
        other_pane(f) != f,
        other_content(m) != m,
{
}

/// Scrolling down never passes the last position when starting at or
/// before it, and scrolling up never goes below the top.
pub proof fn lemma_scroll_stays_in_bounds(scroll: usize, max_lines: usize)
    requires
        scroll <= max_lines,
    ensures
        scroll_down_position(scroll, max_lines) <= max_lines,
        scroll_up_position(scroll) <= scroll,
{
}

/// Scrolling up undoes scrolling down short of the end, and scrolling down
/// undoes scrolling up away from the top.
pub proof fn lemma_scroll_up_down_inverse(scroll: usize, max_lines: usize)
    ensures
        scroll < max_lines ==> scroll_up_position(scroll_down_position(scroll, max_lines))
            == scroll,
        0 < scroll <= max_lines ==> scroll_down_position(scroll_up_position(scroll), max_lines)
            == scroll,
{
}

/// A fitted scroll position is never past the largest useful one.
pub proof fn lemma_fitted_scroll_in_range(
    scroll: usize,
    auto_scroll: bool,
    mode: DetailContentMode,
    max_scroll: usize,
)
    ensures
        fitted_scroll(scroll, auto_scroll, mode, max_scroll) <= max_scroll,
        scroll <= max_scroll && !(auto_scroll && mode == DetailContentMode::Logs) ==> fitted_scroll(
            scroll,
            auto_scroll,
            mode,
            max_scroll,
        ) == scroll,
{
}

} // verus!
