//! Reading the schedule and load state of each timer from the output of
//! `systemctl show -p Id -p LoadState -p OnCalendar ...`.
use vstd::prelude::*;
use crate::table::UnitTable;
use crate::text::{
    append_chars, chars_eq, chars_of, find_char, find_char_from, has_prefix, join, join_chars,
    split_on, split_pieces, string_from_chars, trim, trim_end_char, trimmed, trimmed_end_char,
    views,
};

verus! {

broadcast use vstd::string::group_string_axioms;

/// The views of a sequence of strings.
pub open spec fn string_views(v: Seq<String>) -> Seq<Seq<char>> {
    v.map_values(|s: String| s@)
}

/// The views of an optional character vector.
pub open spec fn opt_view(o: Option<Vec<char>>) -> Option<Seq<char>> {
    match o {
        Some(v) => Some(v@),
        None => None,
    }
}

/// `s` with `e` appended when there is one.
pub open spec fn push_opt(s: Seq<Seq<char>>, e: Option<Seq<char>>) -> Seq<Seq<char>> {
    match e {
        Some(x) => s.push(x),
        None => s,
    }
}

/// How a schedule property is displayed: the trimmed value, alone for
/// `OnCalendar` and as `key=value` otherwise; nothing for a blank value.
pub open spec fn schedule_entry(key: Seq<char>, value: Seq<char>) -> Option<Seq<char>> {
    let v = trim(value);
    if v.len() == 0 {
        None
    } else if key == "OnCalendar"@ {
        Some(v)
    } else {
        Some(key + "="@ + v)
    }
}

fn entry_chars(key: &[char], value: &[char]) -> (r: Option<Vec<char>>)
    ensures
        opt_view(r) == schedule_entry(key@, value@),
{
    let v = trimmed(value);
    if v.len() == 0 {
        return None;
    }
    let calendar = chars_of("OnCalendar");
    if chars_eq(key, calendar.as_slice()) {
        Some(v)
    } else {
        let mut out = vstd::slice::slice_to_vec(key);
        let eq = chars_of("=");
        append_chars(&mut out, eq.as_slice());
        append_chars(&mut out, v.as_slice());
        Some(out)
    }
}

fn push_opt_vec(list: &mut Vec<Vec<char>>, e: Option<Vec<char>>)
    ensures
        views(final(list)@) == push_opt(views(old(list)@), opt_view(e)),
{
    let ghost before = views(list@);
    if let Some(x) = e {
        list.push(x);
        assert(views(list@) =~= before.push(opt_view(e)->0));
    }
}

/// Appends the display form of the schedule property `key` = `value` to
/// `schedules`, unless the value is blank.
pub fn push_schedule_value(schedules: &mut Vec<String>, key: &str, value: &str)
    ensures
        string_views(final(schedules)@) == push_opt(
            string_views(old(schedules)@),
            schedule_entry(key@, value@),
        ),
{
    let k = chars_of(key);
    let v = chars_of(value);
    let ghost before = string_views(schedules@);
    if let Some(e) = entry_chars(k.as_slice(), v.as_slice()) {
        schedules.push(string_from_chars(e.as_slice()));
        assert(string_views(schedules@) =~= before.push(e@));
    }
}

// ---------------------------------------------------------------------------
// `TimersCalendar={ ... }` / `TimersMonotonic={ ... }` blocks
// ---------------------------------------------------------------------------

/// The inside of a timer block: trimmed, closing braces dropped, trimmed.
pub open spec fn block_body(block: Seq<char>) -> Seq<char> {
    trim(trim_end_char(trim(block), '}'))
}

/// The schedule entry of one `;`-separated part of a timer block: none for a
/// blank part, a `next_elapse=` part or a part without `=`.
pub open spec fn block_part_entry(part: Seq<char>) -> Option<Seq<char>> {
    let p = trim(part);
    if p.len() == 0 || "next_elapse="@.is_prefix_of(p) {
        None
    } else {
        let k = find_char(p, '=');
        if k >= p.len() {
            None
        } else {
            schedule_entry(trim(p.take(k as int)), trim(p.skip(k as int + 1)))
        }
    }
}

/// The entries of a list of block parts, in order.
pub open spec fn parts_entries(parts: Seq<Seq<char>>) -> Seq<Seq<char>>
    decreases parts.len(),
{
    if parts.len() == 0 {
        Seq::empty()
    } else {
        push_opt(parts_entries(parts.drop_last()), block_part_entry(parts.last()))
    }
}

/// The schedule entries that a timer block lists.
pub open spec fn block_entries(block: Seq<char>) -> Seq<Seq<char>> {
    parts_entries(split_on(block_body(block), ';'))
}

fn part_entry(part: &[char]) -> (r: Option<Vec<char>>)
    ensures
        opt_view(r) == block_part_entry(part@),
{
    let p = trimmed(part);
    let elapse = chars_of("next_elapse=");
    if p.len() == 0 || has_prefix(p.as_slice(), elapse.as_slice()) {
        return None;
    }
    let k = find_char_from(p.as_slice(), 0, '=');
    assert(p@.skip(0) =~= p@);
    if k >= p.len() {
        return None;
    }
    let key = trimmed(&p.as_slice()[0..k]);
    let value = trimmed(&p.as_slice()[k + 1..p.len()]);
    assert(p@.subrange(0, k as int) =~= p@.take(k as int));
    assert(p@.subrange(k + 1, p@.len() as int) =~= p@.skip(k + 1));
    entry_chars(key.as_slice(), value.as_slice())
}

fn block_entries_into(block: &[char], out: &mut Vec<Vec<char>>)
    ensures
        views(final(out)@) == views(old(out)@) + block_entries(block@),
{
    let t = trimmed(block);
    let u = trimmed_end_char(t.as_slice(), '}');
    let body = trimmed(u.as_slice());
    let parts = split_pieces(body.as_slice(), ';');
    let ghost all = views(parts@);
    let ghost start = views(out@);
    let mut i: usize = 0;
    assert(parts_entries(all.take(0)) =~= Seq::<Seq<char>>::empty());
    assert(start + Seq::<Seq<char>>::empty() =~= start);
    while i < parts.len()
        invariant
            i <= parts@.len(),
            all == views(parts@),
            all == split_on(block_body(block@), ';'),
            views(out@) == start + parts_entries(all.take(i as int)),
        decreases parts@.len() - i,
    {
        let e = part_entry(parts[i].as_slice());
        assert(all.take(i + 1).drop_last() =~= all.take(i as int));
        assert(all.take(i + 1).last() == parts@[i as int]@);
        let ghost mid = views(out@);
        push_opt_vec(out, e);
        assert(push_opt(mid, opt_view(e)) =~= start + push_opt(
            parts_entries(all.take(i as int)),
            opt_view(e),
        ));
        i = i + 1;
    }
    assert(all.take(parts@.len() as int) =~= all);
}

/// Appends the schedule entries listed in a timer block (the text after
/// `TimersCalendar={` or `TimersMonotonic={`) to `schedules`.
pub fn collect_timer_block_values(block: &str, schedules: &mut Vec<String>)
    ensures
        string_views(final(schedules)@) == string_views(old(schedules)@) + block_entries(block@),
{
    let b = chars_of(block);
    let mut found: Vec<Vec<char>> = Vec::new();
    block_entries_into(b.as_slice(), &mut found);
    assert(views(found@) =~= block_entries(block@));
    let ghost start = string_views(schedules@);
    let mut i: usize = 0;
    while i < found.len()
        invariant
            i <= found@.len(),
            views(found@) == block_entries(block@),
            string_views(schedules@) == start + views(found@).take(i as int),
        decreases found@.len() - i,
    {
        let s = string_from_chars(found[i].as_slice());
        let ghost before = string_views(schedules@);
        schedules.push(s);
        assert(string_views(schedules@) =~= before.push(found@[i as int]@));
        assert(views(found@).take(i + 1) =~= views(found@).take(i as int).push(found@[i as int]@));
        assert(string_views(schedules@) =~= start + views(found@).take(i + 1));
        i = i + 1;
    }
    assert(views(found@).take(found@.len() as int) =~= views(found@));
}

// ---------------------------------------------------------------------------
// Deduplication
// ---------------------------------------------------------------------------

/// The trimmed, non-blank values in first-occurrence order, each once.
pub open spec fn dedupe(values: Seq<Seq<char>>) -> Seq<Seq<char>>
    decreases values.len(),
{
    if values.len() == 0 {
        Seq::empty()
    } else {
        let d = dedupe(values.drop_last());
        let t = trim(values.last());
        if t.len() == 0 || d.contains(t) {
            d
        } else {
            d.push(t)
        }
    }
}

/// The schedule text of a timer: its deduplicated values joined with `", "`,
/// or `n/a` when none is left.
pub open spec fn dedupe_text(values: Seq<Seq<char>>) -> Seq<char> {
    let d = dedupe(values);
    if d.len() == 0 {
        "n/a"@
    } else {
        join(d, ", "@)
    }
}

fn contains_chars(list: &Vec<Vec<char>>, x: &[char]) -> (b: bool)
    ensures
        b == views(list@).contains(x@),
{
    let mut i: usize = 0;
    while i < list.len()
        invariant
            i <= list@.len(),
            forall|j: int| 0 <= j < i ==> #[trigger] views(list@)[j] != x@,
        decreases list@.len() - i,
    {
        if chars_eq(list[i].as_slice(), x) {
            assert(views(list@)[i as int] == x@);
            return true;
        }
        i = i + 1;
    }
    false
}

fn dedupe_chars(values: &Vec<Vec<char>>) -> (r: Vec<char>)
    ensures
        r@ == dedupe_text(views(values@)),
{
    let ghost all = views(values@);
    let mut kept: Vec<Vec<char>> = Vec::new();
    let mut i: usize = 0;
    assert(all.take(0) =~= Seq::<Seq<char>>::empty());
    while i < values.len()
        invariant
            i <= values@.len(),
            all == views(values@),
            views(kept@) == dedupe(all.take(i as int)),
        decreases values@.len() - i,
    {
        assert(all.take(i + 1).drop_last() =~= all.take(i as int));
        let t = trimmed(values[i].as_slice());
        if t.len() != 0 && !contains_chars(&kept, t.as_slice()) {
            let ghost before = views(kept@);
            kept.push(t);
            assert(views(kept@) =~= before.push(t@));
        }
        i = i + 1;
    }
    assert(all.take(values@.len() as int) =~= all);
    if kept.len() == 0 {
        chars_of("n/a")
    } else {
        let sep = chars_of(", ");
        join_chars(&kept, sep.as_slice())
    }
}

/// The schedule text of a list of schedule values: the trimmed non-blank
/// values, each once in first-occurrence order, joined with `", "`; `n/a`
/// when there is none.
pub fn dedupe_schedule_values(values: Vec<String>) -> (r: String)
    ensures
        r@ == dedupe_text(string_views(values@)),
{
    let mut cs: Vec<Vec<char>> = Vec::new();
    let mut i: usize = 0;
    while i < values.len()
        invariant
            i <= values@.len(),
            views(cs@) == string_views(values@).take(i as int),
        decreases values@.len() - i,
    {
        let c = chars_of(values[i].as_str());
        let ghost before = views(cs@);
        cs.push(c);
        assert(views(cs@) =~= before.push(values@[i as int]@));
        assert(string_views(values@).take(i + 1) =~= string_views(values@).take(i as int).push(
            values@[i as int]@,
        ));
        i = i + 1;
    }
    assert(string_views(values@).take(values@.len() as int) =~= string_views(values@));
    let r = dedupe_chars(&cs);
    string_from_chars(r.as_slice())
}

// ---------------------------------------------------------------------------
// The `systemctl show` output
// ---------------------------------------------------------------------------

/// The properties whose `name=value` lines carry a schedule, in the order
/// they are tried.
pub open spec fn property_names() -> Seq<Seq<char>> {
    seq![
        "OnCalendar"@,
        "OnBootSec"@,
        "OnStartupSec"@,
        "OnActiveSec"@,
        "OnUnitActiveSec"@,
        "OnUnitInactiveSec"@,
    ]
}

/// The first of `names` that `line` sets (`name=value`), with the value.
pub open spec fn property_value(line: Seq<char>, names: Seq<Seq<char>>) -> Option<
    (Seq<char>, Seq<char>),
>
    decreases names.len(),
{
    if names.len() == 0 {
        None
    } else {
        match crate::text::strip_prefix(line, names[0]) {
            Some(rest) => match crate::text::strip_prefix(rest, "="@) {
                Some(v) => Some((names[0], v)),
                None => property_value(line, names.drop_first()),
            },
            None => property_value(line, names.drop_first()),
        }
    }
}

/// The state of the scan through the output: the finished tables, and the
/// unit block being read.
pub struct ScanState {
    pub schedules: Map<Seq<char>, Seq<char>>,
    pub load_states: Map<Seq<char>, Seq<char>>,
    pub id: Option<Seq<char>>,
    pub load: Option<Seq<char>>,
    pub pending: Seq<Seq<char>>,
}

/// The state before the first line.
pub open spec fn scan_start() -> ScanState {
    ScanState {
        schedules: Map::empty(),
        load_states: Map::empty(),
        id: None,
        load: None,
        pending: Seq::empty(),
    }
}

/// The end of a unit block: a block with an `Id=` line records its schedule
/// text, and its load state when it had one; the block is then cleared.
pub open spec fn close_block(st: ScanState) -> ScanState {
    match st.id {
        Some(id) => ScanState {
            schedules: st.schedules.insert(id, dedupe_text(st.pending)),
            load_states: match st.load {
                Some(l) => st.load_states.insert(id, l),
                None => st.load_states,
            },
            id: None,
            load: None,
            pending: Seq::empty(),
        },
        None => ScanState { id: None, load: None, pending: Seq::empty(), ..st },
    }
}

/// What one line of the output does to the scan.
pub open spec fn scan_line(st: ScanState, line: Seq<char>) -> ScanState {
    if trim(line).len() == 0 {
        close_block(st)
    } else if let Some(id) = crate::text::strip_prefix(line, "Id="@) {
        ScanState { id: Some(id), ..st }
    } else if let Some(l) = crate::text::strip_prefix(line, "LoadState="@) {
        ScanState { load: Some(l), ..st }
    } else if let Some(b) = crate::text::strip_prefix(line, "TimersCalendar={"@) {
        ScanState { pending: st.pending + block_entries(b), ..st }
    } else if let Some(b) = crate::text::strip_prefix(line, "TimersMonotonic={"@) {
        ScanState { pending: st.pending + block_entries(b), ..st }
    } else {
        match property_value(line, property_names()) {
            Some((k, v)) => ScanState { pending: push_opt(st.pending, schedule_entry(k, v)), ..st },
            None => st,
        }
    }
}

/// The scan after the given lines.
pub open spec fn scan_lines(lines: Seq<Seq<char>>) -> ScanState
    decreases lines.len(),
{
    if lines.len() == 0 {
        scan_start()
    } else {
        scan_line(scan_lines(lines.drop_last()), lines.last())
    }
}

/// The schedule text and the load state of each unit that the output names,
/// by unit name.
pub open spec fn timer_metadata(output: Seq<char>) -> (
    Map<Seq<char>, Seq<char>>,
    Map<Seq<char>, Seq<char>>,
) {
    let st = close_block(scan_lines(crate::text::lines(output)));
    (st.schedules, st.load_states)
}

struct Scanner {
    schedules: UnitTable,
    load_states: UnitTable,
    id: Option<Vec<char>>,
    load: Option<Vec<char>>,
    pending: Vec<Vec<char>>,
}

impl Scanner {
    spec fn state(&self) -> ScanState {
        ScanState {
            schedules: self.schedules@,
            load_states: self.load_states@,
            id: opt_view(self.id),
            load: opt_view(self.load),
            pending: views(self.pending@),
        }
    }

    fn close_block(&mut self)
        ensures
            final(self).state() == close_block(old(self).state()),
    {
        if let Some(id) = self.id.take() {
            let key = string_from_chars(id.as_slice());
            let text = dedupe_chars(&self.pending);
            self.schedules.insert(key.clone(), string_from_chars(text.as_slice()));
            if let Some(l) = self.load.take() {
                self.load_states.insert(key, string_from_chars(l.as_slice()));
            }
        }
        self.load = None;
        self.pending = Vec::new();
        assert(views(self.pending@) =~= Seq::<Seq<char>>::empty());
    }

    fn append_block(&mut self, block: &[char])
        ensures
            final(self).state() == (ScanState {
                pending: old(self).state().pending + block_entries(block@),
                ..old(self).state()
            }),
    {
        block_entries_into(block, &mut self.pending);
    }

    fn scan_line(&mut self, line: &[char], lits: &Literals)
        requires
            lits.wf(),
        ensures
            final(self).state() == scan_line(old(self).state(), line@),
    {
        let t = trimmed(line);
        if t.len() == 0 {
            self.close_block();
        } else if has_prefix(line, lits.id.as_slice()) {
            self.id = Some(vstd::slice::slice_to_vec(&line[lits.id.len()..line.len()]));
        } else if has_prefix(line, lits.load.as_slice()) {
            self.load = Some(vstd::slice::slice_to_vec(&line[lits.load.len()..line.len()]));
        } else if has_prefix(line, lits.calendar.as_slice()) {
            self.append_block(&line[lits.calendar.len()..line.len()]);
        } else if has_prefix(line, lits.monotonic.as_slice()) {
            self.append_block(&line[lits.monotonic.len()..line.len()]);
        } else {
            let found = find_property(line, &lits.names, lits.eq.as_slice());
            if let Some((k, v)) = found {
                let e = entry_chars(k.as_slice(), v.as_slice());
                push_opt_vec(&mut self.pending, e);
            }
        }
    }
}

/// The literals the scan compares lines with.
struct Literals {
    id: Vec<char>,
    load: Vec<char>,
    calendar: Vec<char>,
    monotonic: Vec<char>,
    eq: Vec<char>,
    names: Vec<Vec<char>>,
}

impl Literals {
    spec fn wf(&self) -> bool {
        &&& self.id@ == "Id="@
        &&& self.load@ == "LoadState="@
        &&& self.calendar@ == "TimersCalendar={"@
        &&& self.monotonic@ == "TimersMonotonic={"@
        &&& self.eq@ == "="@
        &&& views(self.names@) == property_names()
    }

    fn new() -> (l: Literals)
        ensures
            l.wf(),
    {
        let names = vec![
            chars_of("OnCalendar"),
            chars_of("OnBootSec"),
            chars_of("OnStartupSec"),
            chars_of("OnActiveSec"),
            chars_of("OnUnitActiveSec"),
            chars_of("OnUnitInactiveSec"),
        ];
        assert(views(names@) =~= property_names());
        Literals {
            id: chars_of("Id="),
            load: chars_of("LoadState="),
            calendar: chars_of("TimersCalendar={"),
            monotonic: chars_of("TimersMonotonic={"),
            eq: chars_of("="),
            names,
        }
    }
}

fn find_property(line: &[char], names: &Vec<Vec<char>>, eq: &[char]) -> (r: Option<
    (Vec<char>, Vec<char>),
>)
    requires
        eq@ == "="@,
    ensures
        match r {
            Some((k, v)) => property_value(line@, views(names@)) == Some((k@, v@)),
            None => property_value(line@, views(names@)) is None,
        },
{
    let mut i: usize = 0;
    assert(views(names@).skip(0) =~= views(names@));
    while i < names.len()
        invariant
            i <= names@.len(),
            eq@ == "="@,
            property_value(line@, views(names@).skip(i as int)) == property_value(
                line@,
                views(names@),
            ),
        decreases names@.len() - i,
    {
        let ghost rest = views(names@).skip(i as int);
        assert(rest[0] == names@[i as int]@);
        assert(rest.drop_first() =~= views(names@).skip(i + 1));
        let name = names[i].as_slice();
        if has_prefix(line, name) {
            let after = &line[name.len()..line.len()];
            assert(after@ =~= line@.skip(name@.len() as int));
            if has_prefix(after, eq) {
                let v = vstd::slice::slice_to_vec(&after[eq.len()..after.len()]);
                assert(v@ =~= after@.skip(eq@.len() as int));
                return Some((vstd::slice::slice_to_vec(name), v));
            }
        }
        i = i + 1;
    }
    assert(views(names@).skip(names@.len() as int) =~= Seq::<Seq<char>>::empty());
    None
}

/// Reads the schedule text and the load state of each unit from the output
/// of `systemctl show`: blocks of `name=value` lines, one block per unit,
/// separated by blank lines.
pub fn extract_timer_metadata(stdout: &str) -> (r: (UnitTable, UnitTable))
    ensures
        (r.0@, r.1@) == timer_metadata(stdout@),
{
    let text = chars_of(stdout);
    let lines = crate::text::split_lines(text.as_slice());
    let lits = Literals::new();
    let mut sc = Scanner {
        schedules: UnitTable::new(),
        load_states: UnitTable::new(),
        id: None,
        load: None,
        pending: Vec::new(),
    };
    let ghost all = views(lines@);
    assert(views(sc.pending@) =~= Seq::<Seq<char>>::empty());
    assert(all.take(0) =~= Seq::<Seq<char>>::empty());
    let mut i: usize = 0;
    while i < lines.len()
        invariant
            i <= lines@.len(),
            all == views(lines@),
            all == crate::text::lines(stdout@),
            lits.wf(),
            sc.state() == scan_lines(all.take(i as int)),
        decreases lines@.len() - i,
    {
        assert(all.take(i + 1).drop_last() =~= all.take(i as int));
        sc.scan_line(lines[i].as_slice(), &lits);
        i = i + 1;
    }
    assert(all.take(lines@.len() as int) =~= all);
    sc.close_block();
    (sc.schedules, sc.load_states)
}

// ---------------------------------------------------------------------------
// Laws
// ---------------------------------------------------------------------------

/// Deduplication keeps each trimmed non-blank value exactly once: no entry
/// repeats, every entry is the trimmed form of some non-blank value, and
/// every non-blank value's trimmed form is kept.
pub proof fn lemma_dedupe(values: Seq<Seq<char>>)
    ensures
        forall|i: int, j: int|
            0 <= i < j < dedupe(values).len() ==> #[trigger] dedupe(values)[i]
                != #[trigger] dedupe(values)[j],
        forall|i: int|
            0 <= i < dedupe(values).len() ==> #[trigger] dedupe(values)[i].len() > 0 && exists|
                k: int,
            | 0 <= k < values.len() && dedupe(values)[i] == trim(#[trigger] values[k]),
        forall|k: int|
            0 <= k < values.len() && trim(#[trigger] values[k]).len() > 0 ==> dedupe(
                values,
            ).contains(trim(values[k])),
    decreases values.len(),
{
    if values.len() > 0 {
        let prev = values.drop_last();
        lemma_dedupe(prev);
        let d = dedupe(prev);
        let t = trim(values.last());
        assert forall|i: int|
            0 <= i < dedupe(values).len() implies #[trigger] dedupe(values)[i].len() > 0 && exists|
                k: int,
            | 0 <= k < values.len() && dedupe(values)[i] == trim(#[trigger] values[k]) by {
            if i < d.len() {
                assert(dedupe(prev)[i].len() > 0);
                let k = choose|k: int| 0 <= k < prev.len() && d[i] == trim(#[trigger] prev[k]);
                assert(values[k] == prev[k]);
                assert(dedupe(values)[i] == d[i]);
            } else {
                assert(values[values.len() - 1] == values.last());
            }
        }
        assert forall|k: int|
            0 <= k < values.len() && trim(#[trigger] values[k]).len() > 0 implies dedupe(
                values,
            ).contains(trim(values[k])) by {
            if k < prev.len() {
                assert(values[k] == prev[k]);
                let w = choose|w: int| 0 <= w < d.len() && d[w] == trim(prev[k]);
                if !(t.len() == 0 || d.contains(t)) {
                    assert(d.push(t)[w] == d[w]);
                }
            } else {
                if !(t.len() == 0 || d.contains(t)) {
                    assert(d.push(t)[d.len() as int] == t);
                }
            }
        }
    }
}

/// A block line (`TimersCalendar={...}`) never records a `next_elapse=`
/// value, and a property with a blank value records nothing.
pub proof fn lemma_entries_skip_elapse_and_blank(part: Seq<char>, key: Seq<char>, value: Seq<char>)
    ensures
        "next_elapse="@.is_prefix_of(trim(part)) ==> block_part_entry(part) is None,
        trim(value).len() == 0 ==> schedule_entry(key, value) is None,
        key == "OnCalendar"@ && trim(value).len() > 0 ==> schedule_entry(key, value) == Some(
            trim(value),
        ),
{
}

/// Inside a unit block no line takes away the schedule entries collected
/// before it: a non-blank line keeps them in front and adds its own after
/// them, and leaves the finished tables alone. A `TimersCalendar={` or
/// `TimersMonotonic={` line adds exactly the entries its block lists.
pub proof fn lemma_block_lines_append(st: ScanState, line: Seq<char>)
    requires
        trim(line).len() > 0,
    ensures
        st.pending.is_prefix_of(scan_line(st, line).pending),
        scan_line(st, line).schedules == st.schedules,
        scan_line(st, line).load_states == st.load_states,
        "TimersCalendar={"@.is_prefix_of(line) ==> scan_line(st, line).pending == st.pending
            + block_entries(line.skip(16)),
        "TimersMonotonic={"@.is_prefix_of(line) ==> scan_line(st, line).pending == st.pending
            + block_entries(line.skip(17)),
{
    reveal_strlit("Id=");
    reveal_strlit("LoadState=");
    reveal_strlit("TimersCalendar={");
    reveal_strlit("TimersMonotonic={");
    let r = scan_line(st, line);
    let cal = "TimersCalendar={"@;
    let mono = "TimersMonotonic={"@;
    assert(cal[0] == 'T' && cal[6] == 'C');
    assert(mono[0] == 'T' && mono[6] == 'M');
    assert("Id="@[0] == 'I');
    assert("LoadState="@[0] == 'L');
    if "Id="@.is_prefix_of(line) {
        assert(line.subrange(0, 3)[0] == line[0]);
    }
    if "LoadState="@.is_prefix_of(line) {
        assert(line.subrange(0, 10)[0] == line[0]);
    }
    if cal.is_prefix_of(line) {
        assert(line.subrange(0, 16)[0] == line[0]);
        assert(line.subrange(0, 16)[6] == line[6]);
    }
    if mono.is_prefix_of(line) {
        assert(line.subrange(0, 17)[0] == line[0]);
        assert(line.subrange(0, 17)[6] == line[6]);
    }
    if cal.is_prefix_of(line) {
        assert(!"Id="@.is_prefix_of(line));
        assert(!"LoadState="@.is_prefix_of(line));
        assert(r.pending =~= st.pending + block_entries(line.skip(16)));
    } else if mono.is_prefix_of(line) {
        assert(!"Id="@.is_prefix_of(line));
        assert(!"LoadState="@.is_prefix_of(line));
        assert(r.pending =~= st.pending + block_entries(line.skip(17)));
    }
    match property_value(line, property_names()) {
        Some((k, v)) => {
            assert(st.pending =~= push_opt(st.pending, schedule_entry(k, v)).subrange(
                0,
                st.pending.len() as int,
            ));
        },
        None => {},
    }
    assert(st.pending =~= r.pending.subrange(0, st.pending.len() as int));
}

} // verus!
