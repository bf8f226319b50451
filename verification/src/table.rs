//! A small string-keyed table: the unit-name → value maps that the
//! metadata parser fills (schedules, load states).
use vstd::prelude::*;

verus! {

/// The map that a list of `(key, value)` entries denotes: a later entry for
/// a key shadows an earlier one.
pub open spec fn entries_map(entries: Seq<(String, String)>) -> Map<Seq<char>, Seq<char>>
    decreases entries.len(),
{
    if entries.len() == 0 {
        Map::empty()
    } else {
        entries_map(entries.drop_last()).insert(entries.last().0@, entries.last().1@)
    }
}

/// A table from unit names to text values.
pub struct UnitTable {
    entries: Vec<(String, String)>,
}

impl View for UnitTable {
    type V = Map<Seq<char>, Seq<char>>;

    closed spec fn view(&self) -> Map<Seq<char>, Seq<char>> {
        entries_map(self.entries@)
    }
}

proof fn lemma_entries_map_empty(entries: Seq<(String, String)>)
    ensures
        entries_map(entries).dom().len() == 0 <==> entries.len() == 0,
        entries_map(entries).dom().finite(),
    decreases entries.len(),
{
    if entries.len() > 0 {
        lemma_entries_map_empty(entries.drop_last());
        let m = entries_map(entries.drop_last());
        let k = entries.last().0@;
        assert(entries_map(entries).dom() == m.dom().insert(k));
        assert(entries_map(entries).dom().contains(k));
    } else {
        assert(entries_map(entries).dom() =~= Set::<Seq<char>>::empty());
    }
}

impl UnitTable {
    /// An empty table.
    pub fn new() -> (t: UnitTable)
        ensures
            t@ == Map::<Seq<char>, Seq<char>>::empty(),
    {
        UnitTable { entries: Vec::new() }
    }

    /// Sets the value of `key` to `value`.
    pub fn insert(&mut self, key: String, value: String)
        ensures
            final(self)@ == old(self)@.insert(key@, value@),
    {
        let ghost before = self.entries@;
        self.entries.push((key, value));
        assert(self.entries@.drop_last() =~= before);
    }

    /// Whether the table holds no key.
    pub fn is_empty(&self) -> (b: bool)
        ensures
            b == (self@.dom().len() == 0),
            self@.dom().finite(),
    {
        proof {
            lemma_entries_map_empty(self.entries@);
        }
        self.entries.len() == 0
    }

    /// The value of `key`, if the table holds one.
    pub fn get(&self, key: &str) -> (r: Option<&String>)
        ensures
            match r {
                Some(v) => self@.contains_key(key@) && v@ == self@[key@],
                None => !self@.contains_key(key@),
            },
    {
        let k: String = key.to_owned();
        let mut j = self.entries.len();
        assert(self.entries@.take(j as int) =~= self.entries@);
        while j > 0
            invariant
                j <= self.entries@.len(),
                k@ == key@,
                forall|i: int| j <= i < self.entries@.len() ==> #[trigger] self.entries@[i].0@ != k@,
                entries_map(self.entries@).contains_key(k@) == entries_map(
                    self.entries@.take(j as int),
                ).contains_key(k@),
                entries_map(self.entries@).contains_key(k@) ==> entries_map(self.entries@)[k@]
                    == entries_map(self.entries@.take(j as int))[k@],
            decreases j,
        {
            let ghost prefix = self.entries@.take(j as int);
            assert(prefix.drop_last() =~= self.entries@.take(j - 1));
            if self.entries[j - 1].0 == k {
                return Some(&self.entries[j - 1].1);
            }
            j = j - 1;
        }
        assert(self.entries@.take(0) =~= Seq::<(String, String)>::empty());
        None
    }
}

/// Reading a key back gives what was last written to it; other keys keep
/// their values.
pub proof fn lemma_table_read_after_write(
    m: Map<Seq<char>, Seq<char>>,
    k: Seq<char>,
    v: Seq<char>,
    other: Seq<char>,
)
    requires
        other != k,
    ensures
        m.insert(k, v).contains_key(k),
        m.insert(k, v)[k] == v,
        m.insert(k, v).contains_key(other) == m.contains_key(other),
        m.contains_key(other) ==> m.insert(k, v)[other] == m[other],
{
}

} // verus!
