//! What the screen shows, as far as it is decided from the state: how many
//! rows wrapped text takes, the key hints of the footer, the state labels
//! of the list.
use vstd::prelude::*;
use crate::app::{
    is_running, is_running_status, selected_of, App, DetailPaneFocus, ViewMode,
};
use crate::systemd::TimerInfo;
use crate::text::{
    append_chars, chars_eq, chars_of, lines, split_inclusive, split_inclusive_pieces, split_lines,
    string_from_chars, trim, trimmed, views,
};

verus! {

broadcast use vstd::string::group_string_axioms;

/// The number of characters in a list of pieces.
pub open spec fn total_len(pieces: Seq<Seq<char>>) -> int
    decreases pieces.len(),
{
    if pieces.len() == 0 {
        0
    } else {
        total_len(pieces.drop_last()) + pieces.last().len()
    }
}

/// Greedy word wrapping at `w` columns: the rows completed and the width of
/// the row being filled after placing `words` in order. A word that does not
/// fit closes the current row; a word wider than a row fills whole rows and
/// leaves its remainder on the current one.
pub open spec fn wrap_words(words: Seq<Seq<char>>, w: int) -> (int, int)
    decreases words.len(),
{
    if words.len() == 0 {
        (0, 0)
    } else {
        let prev = wrap_words(words.drop_last(), w);
        let rows = prev.0;
        let width = prev.1;
        let n = words.last().len() as int;
        if width + n > w {
            let closed = if width > 0 { rows + 1 } else { rows };
            if n > w {
                (closed + n / w, n % w)
            } else {
                (closed, n)
            }
        } else {
            (rows, width + n)
        }
    }
}

/// The rows one line of text takes at `w` columns: one for an empty line,
/// else the rows its space-ended words wrap into.
pub open spec fn line_rows(line: Seq<char>, w: int) -> int {
    if line.len() == 0 {
        1
    } else {
        let st = wrap_words(split_inclusive(line, ' '), w);
        st.0 + if st.1 > 0 { 1int } else { 0int }
    }
}

/// The rows a list of lines takes at `w` columns.
pub open spec fn rows_of_lines(ls: Seq<Seq<char>>, w: int) -> int
    decreases ls.len(),
{
    if ls.len() == 0 {
        0
    } else {
        rows_of_lines(ls.drop_last(), w) + line_rows(ls.last(), w)
    }
}

/// The rows `text` takes when wrapped at `max_width` columns; none at width 0.
pub open spec fn visual_line_count(text: Seq<char>, max_width: u16) -> int {
    if max_width == 0 {
        0
    } else {
        rows_of_lines(lines(text), max_width as int)
    }
}

proof fn lemma_total_len_concat(a: Seq<Seq<char>>, b: Seq<Seq<char>>)
    ensures
        total_len(a + b) == total_len(a) + total_len(b),
    decreases b.len(),
{
    if b.len() > 0 {
        lemma_total_len_concat(a, b.drop_last());
        assert((a + b).drop_last() =~= a + b.drop_last());
    } else {
        assert(a + b =~= a);
    }
}

proof fn lemma_rows_concat(a: Seq<Seq<char>>, b: Seq<Seq<char>>, w: int)
    ensures
        rows_of_lines(a + b, w) == rows_of_lines(a, w) + rows_of_lines(b, w),
    decreases b.len(),
{
    if b.len() > 0 {
        lemma_rows_concat(a, b.drop_last(), w);
        assert((a + b).drop_last() =~= a + b.drop_last());
    } else {
        assert(a + b =~= a);
    }
}

proof fn lemma_total_len_single(x: Seq<char>)
    ensures
        total_len(seq![x]) == x.len(),
{
    let e = Seq::<Seq<char>>::empty();
    assert(seq![x].drop_last() =~= e);
    assert(seq![x].last() == x);
    assert(total_len(e) == 0);
    assert(seq![x].len() == 1);
}

proof fn lemma_rows_single(x: Seq<char>, w: int)
    ensures
        rows_of_lines(seq![x], w) == line_rows(x, w),
{
    let e = Seq::<Seq<char>>::empty();
    assert(seq![x].drop_last() =~= e);
    assert(seq![x].last() == x);
    assert(rows_of_lines(e, w) == 0);
    assert(seq![x].len() == 1);
}

proof fn lemma_split_inclusive_total(s: Seq<char>, c: char)
    ensures
        total_len(split_inclusive(s, c)) == s.len(),
    decreases s.len(),
{
    if s.len() > 0 {
        let k = crate::text::find_char(s, c);
        if k >= s.len() {
            lemma_total_len_single(s);
        } else {
            let p = s.take(k as int + 1);
            let rest = s.skip(k as int + 1);
            lemma_split_inclusive_total(rest, c);
            lemma_total_len_concat(seq![p], split_inclusive(rest, c));
            lemma_total_len_single(p);
        }
    } else {
        assert(split_inclusive(s, c) =~= Seq::<Seq<char>>::empty());
    }
}

proof fn lemma_wrap_bounds(words: Seq<Seq<char>>, w: int)
    requires
        w >= 1,
    ensures
        0 <= wrap_words(words, w).1 <= w,
        0 <= wrap_words(words, w).0,
        wrap_words(words, w).1 <= total_len(words),
        wrap_words(words, w).0 + (if wrap_words(words, w).1 > 0 { 1int } else { 0int })
            <= total_len(words),
    decreases words.len(),
{
    if words.len() > 0 {
        lemma_wrap_bounds(words.drop_last(), w);
        let n = words.last().len() as int;
        assert(n / w + (if n % w > 0 { 1int } else { 0int }) <= n) by (nonlinear_arith)
            requires
                w >= 1,
                n >= 0,
        {
            if n % w > 0 {
                assert(n == w * (n / w) + n % w);
                assert(w * (n / w) >= n / w);
            } else {
                assert(n == w * (n / w));
                assert(w * (n / w) >= n / w);
            }
        }
        assert(0 <= n % w < w) by (nonlinear_arith)
            requires
                w >= 1,
                n >= 0,
        ;
        assert(n % w <= n) by (nonlinear_arith)
            requires
                w >= 1,
                n >= 0,
        ;
        assert(n / w >= 0) by (nonlinear_arith)
            requires
                w >= 1,
                n >= 0,
        ;
    }
}

proof fn lemma_line_rows_bound(line: Seq<char>, w: int)
    requires
        w >= 1,
    ensures
        0 <= line_rows(line, w) <= if line.len() == 0 { 1 } else { line.len() as int },
{
    if line.len() > 0 {
        lemma_wrap_bounds(split_inclusive(line, ' '), w);
        lemma_split_inclusive_total(line, ' ');
    }
}

proof fn lemma_rows_of_lines_bound(s: Seq<char>, w: int)
    requires
        w >= 1,
    ensures
        0 <= rows_of_lines(lines(s), w) <= s.len(),
    decreases s.len(),
{
    if s.len() > 0 {
        let k = crate::text::find_char(s, '\n');
        if k >= s.len() {
            lemma_line_rows_bound(s, w);
            lemma_rows_single(s, w);
        } else {
            let first = crate::text::strip_cr(s.take(k as int));
            let rest = s.skip(k as int + 1);
            lemma_rows_of_lines_bound(rest, w);
            lemma_line_rows_bound(first, w);
            lemma_rows_concat(seq![first], lines(rest), w);
            lemma_rows_single(first, w);
            assert(first.len() <= k);
        }
    } else {
        assert(lines(s) =~= Seq::<Seq<char>>::empty());
    }
}

proof fn lemma_rows_prefix(ls: Seq<Seq<char>>, i: int, w: int)
    requires
        0 <= i <= ls.len(),
        w >= 1,
    ensures
        rows_of_lines(ls.take(i), w) <= rows_of_lines(ls, w),
{
    lemma_rows_concat(ls.take(i), ls.skip(i), w);
    assert(ls.take(i) + ls.skip(i) =~= ls);
    lemma_rows_nonneg(ls.skip(i), w);
}

proof fn lemma_rows_nonneg(ls: Seq<Seq<char>>, w: int)
    requires
        w >= 1,
    ensures
        rows_of_lines(ls, w) >= 0,
    decreases ls.len(),
{
    if ls.len() > 0 {
        lemma_rows_nonneg(ls.drop_last(), w);
        lemma_line_rows_bound(ls.last(), w);
    }
}

fn wrapped_rows(line: &[char], w: usize) -> (r: usize)
    requires
        1 <= w <= 65535,
    ensures
        r == line_rows(line@, w as int),
{
    if line.len() == 0 {
        return 1;
    }
    let len = line.len();
    let words = split_inclusive_pieces(line, ' ');
    let ghost all = views(words@);
    proof {
        lemma_split_inclusive_total(line@, ' ');
    }
    let mut rows: usize = 0;
    let mut width: usize = 0;
    let mut j: usize = 0;
    assert(all.take(0) =~= Seq::<Seq<char>>::empty());
    while j < words.len()
        invariant
            j <= words@.len(),
            1 <= w <= 65535,
            all == views(words@),
            all == split_inclusive(line@, ' '),
            total_len(all) == line@.len(),
            len == line@.len(),
            (rows as int, width as int) == wrap_words(all.take(j as int), w as int),
        decreases words@.len() - j,
    {
        proof {
            lemma_wrap_bounds(all.take(j as int), w as int);
            lemma_wrap_bounds(all.take(j + 1), w as int);
            lemma_total_len_concat(all.take(j + 1), all.skip(j + 1));
            assert(all.take(j + 1) + all.skip(j + 1) =~= all);
            assert(all.take(j + 1).drop_last() =~= all.take(j as int));
            assert(total_len(all.skip(j + 1)) >= 0) by {
                lemma_total_len_nonneg(all.skip(j + 1));
            }
            assert(all.take(j + 1).last() == all[j as int]);
        }
        let n = words[j].len();
        assert(n == all[j as int].len());
        if width + n > w {
            if width > 0 {
                rows = rows + 1;
            }
            if n > w {
                rows = rows + n / w;
                width = n % w;
            } else {
                width = n;
            }
        } else {
            width = width + n;
        }
        j = j + 1;
    }
    assert(all.take(words@.len() as int) =~= all);
    proof {
        lemma_wrap_bounds(all, w as int);
    }
    if width > 0 {
        rows + 1
    } else {
        rows
    }
}

proof fn lemma_total_len_nonneg(ps: Seq<Seq<char>>)
    ensures
        total_len(ps) >= 0,
    decreases ps.len(),
{
    if ps.len() > 0 {
        lemma_total_len_nonneg(ps.drop_last());
    }
}

/// The number of rows `text` takes in a pane `max_width` columns wide, with
/// its lines wrapped at spaces (a word wider than the pane is broken); 0 for
/// a pane of width 0.
pub fn count_visual_lines(text: &str, max_width: u16) -> (r: usize)
    ensures
        r == visual_line_count(text@, max_width),
{
    let w = max_width as usize;
    if w == 0 {
        return 0;
    }
    let cs = chars_of(text);
    let len = cs.len();
    let ls = split_lines(cs.as_slice());
    let ghost all = views(ls@);
    proof {
        lemma_rows_of_lines_bound(cs@, w as int);
    }
    let mut total: usize = 0;
    let mut i: usize = 0;
    assert(all.take(0) =~= Seq::<Seq<char>>::empty());
    while i < ls.len()
        invariant
            i <= ls@.len(),
            1 <= w <= 65535,
            w == max_width as usize,
            all == views(ls@),
            all == lines(text@),
            rows_of_lines(all, w as int) <= cs@.len(),
            len == cs@.len(),
            total == rows_of_lines(all.take(i as int), w as int),
        decreases ls@.len() - i,
    {
        proof {
            assert(all.take(i + 1).drop_last() =~= all.take(i as int));
            lemma_rows_prefix(all, i + 1, w as int);
        }
        let r = wrapped_rows(ls[i].as_slice(), w);
        total = total + r;
        i = i + 1;
    }
    assert(all.take(ls@.len() as int) =~= all);
    total
}

/// Wrapped text never takes more rows than it has characters.
pub proof fn lemma_visual_lines_bounded(text: Seq<char>, max_width: u16)
    ensures
        0 <= visual_line_count(text, max_width) <= text.len(),
{
    if max_width > 0 {
        lemma_rows_of_lines_bound(text, max_width as int);
    }
}

proof fn lemma_wrap_capacity(words: Seq<Seq<char>>, w: int)
    requires
        w >= 1,
    ensures
        total_len(words) <= w * wrap_words(words, w).0 + wrap_words(words, w).1,
    decreases words.len(),
{
    if words.len() > 0 {
        let prev = words.drop_last();
        lemma_wrap_capacity(prev, w);
        lemma_wrap_bounds(prev, w);
        let rows = wrap_words(prev, w).0;
        let width = wrap_words(prev, w).1;
        let n = words.last().len() as int;
        if width + n > w {
            let closed = if width > 0 { rows + 1 } else { rows };
            assert(w * rows + width <= w * closed) by (nonlinear_arith)
                requires
                    closed == (if width > 0 { rows + 1 } else { rows }),
                    0 <= width <= w,
            ;
            if n > w {
                assert(w * (closed + n / w) + n % w == w * closed + n) by (nonlinear_arith)
                    requires
                        w >= 1,
                        n >= 0,
                ;
            }
        }
    }
}

proof fn lemma_wrap_fits(words: Seq<Seq<char>>, w: int)
    requires
        w >= 1,
        total_len(words) <= w,
    ensures
        wrap_words(words, w) == (0int, total_len(words)),
    decreases words.len(),
{
    if words.len() > 0 {
        lemma_total_len_nonneg(words.drop_last());
        lemma_wrap_fits(words.drop_last(), w);
    }
}

/// A line wrapped at `w` columns takes enough rows to hold all its
/// characters, no row holding more than `w`; at most one row per character
/// (every row shows some of the text); and exactly one row when it fits in
/// the width.
pub proof fn lemma_line_rows_hold_the_line(line: Seq<char>, w: int)
    requires
        w >= 1,
    ensures
        line.len() <= w * line_rows(line, w),
        1 <= line_rows(line, w),
        line.len() > 0 ==> line_rows(line, w) <= line.len(),
        line.len() <= w ==> line_rows(line, w) == 1,
{
    if line.len() > 0 {
        let words = split_inclusive(line, ' ');
        lemma_split_inclusive_total(line, ' ');
        lemma_wrap_bounds(words, w);
        lemma_wrap_capacity(words, w);
        let st = wrap_words(words, w);
        assert(w * st.0 + st.1 <= w * (st.0 + if st.1 > 0 { 1int } else { 0int }))
            by (nonlinear_arith)
            requires
                0 <= st.1 <= w,
        ;
        if st.1 == 0 {
            assert(w * st.0 >= line.len());
            assert(st.0 >= 1) by (nonlinear_arith)
                requires
                    w * st.0 >= line.len(),
                    line.len() > 0,
                    w >= 1,
            ;
        }
        if line.len() <= w {
            lemma_wrap_fits(words, w);
        }
    }
}

/// A line without spaces is one word, broken only where the width forces
/// it: it takes `len / w` rows rounded up, each full but the last.
pub proof fn lemma_unbroken_line_rows(line: Seq<char>, w: int)
    requires
        w >= 1,
        line.len() > 0,
        !line.contains(' '),
    ensures
        line_rows(line, w) == (line.len() + w - 1) / w,
{
    crate::text::lemma_find_char_at(line, ' ', line.len() as int);
    let words = split_inclusive(line, ' ');
    assert(words =~= seq![line]);
    assert(words.drop_last() =~= Seq::<Seq<char>>::empty());
    assert(words.last() == line);
    let n = line.len() as int;
    assert(wrap_words(Seq::<Seq<char>>::empty(), w) == (0int, 0int));
    if n > w {
        assert(n / w + (if n % w > 0 { 1int } else { 0int }) == (n + w - 1) / w)
            by (nonlinear_arith)
            requires
                w >= 1,
                n >= 0,
        {
            let q = n / w;
            let r = n % w;
            assert(n == w * q + r && 0 <= r < w);
            if r == 0 {
                assert(n + w - 1 == w * q + (w - 1));
            } else {
                assert(n + w - 1 == w * (q + 1) + (r - 1));
            }
        }
    } else {
        assert((n + w - 1) / w == 1) by (nonlinear_arith)
            requires
                w >= 1,
                1 <= n <= w,
        ;
    }
}

/// Wrapped text takes at least as many rows as it has lines, and each line
/// takes rows enough for all its characters at `max_width` per row.
pub proof fn lemma_visual_lines_hold_the_text(text: Seq<char>, max_width: u16)
    requires
        max_width >= 1,
    ensures
        visual_line_count(text, max_width) >= lines(text).len(),
        forall|i: int|
            0 <= i < lines(text).len() ==> (#[trigger] lines(text)[i]).len() <= max_width as int
                * line_rows(lines(text)[i], max_width as int),
{
    let ls = lines(text);
    let w = max_width as int;
    assert forall|i: int| 0 <= i < ls.len() implies (#[trigger] ls[i]).len() <= w * line_rows(
        ls[i],
        w,
    ) by {
        lemma_line_rows_hold_the_line(ls[i], w);
    }
    lemma_rows_at_least_lines(ls, w);
}

proof fn lemma_rows_at_least_lines(ls: Seq<Seq<char>>, w: int)
    requires
        w >= 1,
    ensures
        rows_of_lines(ls, w) >= ls.len(),
    decreases ls.len(),
{
    if ls.len() > 0 {
        lemma_rows_at_least_lines(ls.drop_last(), w);
        lemma_line_rows_hold_the_line(ls.last(), w);
    }
}

// ---------------------------------------------------------------------------
// Labels and key hints
// ---------------------------------------------------------------------------

/// The views of a list of `(key, description)` hints.
pub open spec fn hint_views(v: Seq<(&str, &str)>) -> Seq<(Seq<char>, Seq<char>)> {
    v.map_values(|p: (&str, &str)| (p.0@, p.1@))
}

/// What the space key does to the selected timer: stop a running one,
/// start another, or toggle when nothing is selected.
pub open spec fn toggle_text(app: App) -> Seq<char> {
    match selected_of(app.timers@, app.selected_index) {
        Some(t) => if is_running_status(t.status@) {
            "Stop Timer"@
        } else {
            "Start Timer"@
        },
        None => "Toggle Timer"@,
    }
}

/// The description of the space key in the footer.
pub fn toggle_description(app: &App) -> (r: &'static str)
    ensures
        r@ == toggle_text(*app),
{
    match app.selected_timer() {
        Some(t) => if is_running(t.status.as_str()) {
            "Stop Timer"
        } else {
            "Start Timer"
        },
        None => "Toggle Timer",
    }
}

/// The key hints of the footer: quit and refresh always; in the list,
/// navigation, details and the toggle when there are timers; in the detail
/// view, back, the focus switch, the content switch (top pane) or scrolling
/// (bottom pane, when there is something to scroll), and the toggle.
pub open spec fn footer_hints(app: App, scrollable: bool) -> Seq<(Seq<char>, Seq<char>)> {
    let toggle = toggle_text(app);
    match app.mode {
        ViewMode::List => if app.timers@.len() == 0 {
            seq![("q"@, "Quit"@), ("r"@, "Refresh"@)]
        } else {
            seq![
                ("q"@, "Quit"@),
                ("r"@, "Refresh"@),
                ("\u{2191}\u{2193}/j/k"@, "Navigate"@),
                ("Enter"@, "Details"@),
                ("Space"@, toggle),
            ]
        },
        ViewMode::Detail => match app.detail_focus {
            DetailPaneFocus::Top => seq![
                ("q"@, "Quit"@),
                ("r"@, "Refresh"@),
                ("Esc"@, "Back"@),
                ("Tab"@, "Focus Bottom"@),
                ("\u{2191}\u{2193}"@, "Switch Mode"@),
                ("Space"@, toggle),
            ],
            DetailPaneFocus::Bottom => seq![
                ("q"@, "Quit"@),
                ("r"@, "Refresh"@),
                ("Esc"@, "Back"@),
                ("Tab"@, "Focus Top"@),
            ] + (if scrollable {
                seq![("\u{2191}\u{2193}/j/k"@, "Scroll"@)]
            } else {
                Seq::empty()
            }) + seq![("Space"@, toggle)],
        },
    }
}

/// The key hints of the footer; `scrollable` tells whether the bottom pane
/// has more than fits.
pub fn footer_bindings(app: &App, scrollable: bool) -> (r: Vec<(&'static str, &'static str)>)
    ensures
        hint_views(r@) == footer_hints(*app, scrollable),
{
    let toggle = toggle_description(app);
    let r = match app.mode {
        ViewMode::List => {
            if app.timers.len() == 0 {
                vec![("q", "Quit"), ("r", "Refresh")]
            } else {
                vec![
                    ("q", "Quit"),
                    ("r", "Refresh"),
                    ("\u{2191}\u{2193}/j/k", "Navigate"),
                    ("Enter", "Details"),
                    ("Space", toggle),
                ]
            }
        },
        ViewMode::Detail => match app.detail_focus {
            DetailPaneFocus::Top => vec![
                ("q", "Quit"),
                ("r", "Refresh"),
                ("Esc", "Back"),
                ("Tab", "Focus Bottom"),
                ("\u{2191}\u{2193}", "Switch Mode"),
                ("Space", toggle),
            ],
            DetailPaneFocus::Bottom => {
                let mut binds = vec![("q", "Quit"), ("r", "Refresh"), ("Esc", "Back"), ("Tab", "Focus Top")];
                if scrollable {
                    binds.push(("\u{2191}\u{2193}/j/k", "Scroll"));
                }
                binds.push(("Space", toggle));
                binds
            },
        },
    };
    assert(hint_views(r@) =~= footer_hints(*app, scrollable));
    r
}

/// The state cell of the timer list: a mark before the known states, a
/// warning mark before any other.
pub open spec fn status_label_text(status: Seq<char>) -> Seq<char> {
    if status == "Active"@ {
        "\u{2714} Active"@
    } else if status == "Waiting"@ {
        "\u{23F3} Waiting"@
    } else if status == "Inactive"@ {
        "\u{23F8} Inactive"@
    } else {
        "\u{26A0} "@ + status
    }
}

/// The text of a timer's state cell.
pub fn status_label(status: &str) -> (r: String)
    ensures
        r@ == status_label_text(status@),
{
    let s = chars_of(status);
    if chars_eq(s.as_slice(), chars_of("Active").as_slice()) {
        "\u{2714} Active".to_owned()
    } else if chars_eq(s.as_slice(), chars_of("Waiting").as_slice()) {
        "\u{23F3} Waiting".to_owned()
    } else if chars_eq(s.as_slice(), chars_of("Inactive").as_slice()) {
        "\u{23F8} Inactive".to_owned()
    } else {
        let mut out = chars_of("\u{26A0} ");
        append_chars(&mut out, s.as_slice());
        string_from_chars(out.as_slice())
    }
}

/// Whether the bottom pane has nothing to show: blank text, or journalctl's
/// `-- No entries --`.
pub open spec fn shows_nothing(logs: Seq<char>) -> bool {
    trim(logs).len() == 0 || trim(logs) == "-- No entries --"@
}

/// The pane counts as empty exactly when its text, trimmed, is empty or is
/// exactly journalctl's `-- No entries --` marker; in particular any text
/// that trims to more than that marker's 16 characters (a log line beside a
/// header) is shown.
pub proof fn lemma_empty_logs_exactly(logs: Seq<char>)
    ensures
        shows_nothing(logs) <==> (trim(logs) =~= Seq::<char>::empty() || trim(logs)
            =~= "-- No entries --"@),
        trim(logs).len() > 16 ==> !shows_nothing(logs),
        shows_nothing(logs) ==> trim(logs).len() == 0 || trim(logs).len() == 16,
{
    reveal_strlit("-- No entries --");
}

/// Whether the bottom pane's text is empty for display.
pub fn logs_look_empty(logs: &str) -> (b: bool)
    ensures
        b == shows_nothing(logs@),
{
    let t = trimmed(chars_of(logs).as_slice());
    t.len() == 0 || chars_eq(t.as_slice(), chars_of("-- No entries --").as_slice())
}

/// The status pane's text for a timer: its unit, service, schedule, last
/// and next run (absolute and relative), state, then the fetched status.
pub open spec fn status_pane_text(t: TimerInfo, detail: Seq<char>) -> Seq<char> {
    "Unit: "@ + t.unit@ + "\nService: "@ + t.activates@ + "\nSchedule: "@ + t.schedule@
        + "\n\nLast Run: "@ + t.last_abs@ + " ("@ + t.last_rel@ + ")\nNext Run: "@ + t.next_abs@
        + " ("@ + t.next_rel@ + ")\nStatus: "@ + t.status@ + "\n\n"@ + detail
}

fn push_str(out: &mut Vec<char>, s: &str)
    ensures
        final(out)@ == old(out)@ + s@,
{
    append_chars(out, chars_of(s).as_slice());
}

/// The text of the status pane for `t` with the fetched status `detail`.
pub fn format_status_text(t: &TimerInfo, detail: &str) -> (r: String)
    ensures
        r@ == status_pane_text(*t, detail@),
{
    let mut out: Vec<char> = Vec::new();
    push_str(&mut out, "Unit: ");
    push_str(&mut out, t.unit.as_str());
    push_str(&mut out, "\nService: ");
    push_str(&mut out, t.activates.as_str());
    push_str(&mut out, "\nSchedule: ");
    push_str(&mut out, t.schedule.as_str());
    push_str(&mut out, "\n\nLast Run: ");
    push_str(&mut out, t.last_abs.as_str());
    push_str(&mut out, " (");
    push_str(&mut out, t.last_rel.as_str());
    push_str(&mut out, ")\nNext Run: ");
    push_str(&mut out, t.next_abs.as_str());
    push_str(&mut out, " (");
    push_str(&mut out, t.next_rel.as_str());
    push_str(&mut out, ")\nStatus: ");
    push_str(&mut out, t.status.as_str());
    push_str(&mut out, "\n\n");
    push_str(&mut out, detail);
    assert(out@ =~= status_pane_text(*t, detail@));
    string_from_chars(out.as_slice())
}

} // verus!
