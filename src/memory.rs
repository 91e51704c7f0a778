use vstd::prelude::*;

verus! {

/// Most entries the journal keeps.
pub const MEMORY_LIMIT: usize = 200;

/// Figures recorded with a journal entry.
#[derive(Clone, Copy, Debug, PartialEq, Eq, Structural)]
pub struct MemoryContext {
    pub recommended_spend_today: i64,
    pub today_out: i64,
    pub net_balance: i64,
    pub resilience_days_estimate: i64,
    pub unpaid_count: i64,
    pub watchful: bool,
}

/// One significant coaching event.
#[derive(Debug)]
pub struct MemoryEntry {
    pub ts_utc: i64,
    pub date_local: String,
    pub mode: String,
    pub headline: String,
    pub tags: String,
    pub context: MemoryContext,
}

pub struct MemoryEntryView {
    pub ts_utc: i64,
    pub date_local: Seq<char>,
    pub mode: Seq<char>,
    pub headline: Seq<char>,
    pub tags: Seq<char>,
    pub context: MemoryContext,
}

impl View for MemoryEntry {
    type V = MemoryEntryView;

    open spec fn view(&self) -> MemoryEntryView {
        MemoryEntryView {
            ts_utc: self.ts_utc,
            date_local: self.date_local@,
            mode: self.mode@,
            headline: self.headline@,
            tags: self.tags@,
            context: self.context,
        }
    }
}

/// The coaching journal, oldest entry first.
pub struct MemoryJournal {
    pub entries: Vec<MemoryEntry>,
}

impl View for MemoryJournal {
    type V = Seq<MemoryEntryView>;

    open spec fn view(&self) -> Seq<MemoryEntryView> {
        self.entries@.map_values(|e: MemoryEntry| e@)
    }
}

/// Entries ordered by timestamp, oldest first.
pub open spec fn sorted_by_ts(s: Seq<MemoryEntryView>) -> bool {
    forall|i: int, j: int| 0 <= i < j < s.len() ==> (#[trigger] s[i]).ts_utc <= (#[trigger] s[j]).ts_utc
}

/// A journal holds at most `MEMORY_LIMIT` entries, ordered by timestamp.
pub open spec fn journal_wf(s: Seq<MemoryEntryView>) -> bool {
    s.len() <= MEMORY_LIMIT && sorted_by_ts(s)
}

/// Where an entry stamped `ts` goes: after every entry stamped no later.
pub open spec fn insert_pos_spec(s: Seq<MemoryEntryView>, ts: i64) -> int
    decreases s.len(),
{
    if s.len() == 0 {
        0
    } else if s.last().ts_utc <= ts {
        s.len() as int
    } else {
        insert_pos_spec(s.drop_last(), ts)
    }
}

/// Keeps the most recent `MEMORY_LIMIT` entries of a sequence one longer at most.
pub open spec fn trim_spec(s: Seq<MemoryEntryView>) -> Seq<MemoryEntryView> {
    if s.len() > MEMORY_LIMIT { s.drop_first() } else { s }
}

/// The journal after appending `e`: inserted by timestamp, then trimmed.
pub open spec fn append_spec(s: Seq<MemoryEntryView>, e: MemoryEntryView) -> Seq<MemoryEntryView> {
    trim_spec(s.insert(insert_pos_spec(s, e.ts_utc), e))
}

/// The journal after appending each of `es` in turn.
pub open spec fn append_all_spec(s: Seq<MemoryEntryView>, es: Seq<MemoryEntryView>) -> Seq<MemoryEntryView>
    decreases es.len(),
{
    if es.len() == 0 {
        s
    } else {
        append_spec(append_all_spec(s, es.drop_last()), es.last())
    }
}

pub proof fn lemma_insert_pos(s: Seq<MemoryEntryView>, ts: i64)
    requires
        sorted_by_ts(s),
    ensures
        0 <= insert_pos_spec(s, ts) <= s.len(),
        forall|j: int| 0 <= j < insert_pos_spec(s, ts) ==> (#[trigger] s[j]).ts_utc <= ts,
        forall|j: int| insert_pos_spec(s, ts) <= j < s.len() ==> (#[trigger] s[j]).ts_utc > ts,
    decreases s.len(),
{
    if s.len() > 0 {
        let r = s.drop_last();
        if s.last().ts_utc <= ts {
            assert forall|j: int| 0 <= j < s.len() implies (#[trigger] s[j]).ts_utc <= ts by {
                if j < s.len() - 1 {
                    assert(s[j].ts_utc <= s[s.len() - 1].ts_utc);
                }
            }
        } else {
            assert(sorted_by_ts(r));
            lemma_insert_pos(r, ts);
            assert forall|j: int| insert_pos_spec(s, ts) <= j < s.len() implies (#[trigger] s[j]).ts_utc > ts by {
                if j < s.len() - 1 {
                    assert(s[j] == r[j]);
                }
            }
            assert forall|j: int| 0 <= j < insert_pos_spec(s, ts) implies (#[trigger] s[j]).ts_utc <= ts by {
                assert(s[j] == r[j]);
            }
        }
    }
}

/// Appending keeps a journal well formed: bounded and ordered.
pub proof fn lemma_append_wf(s: Seq<MemoryEntryView>, e: MemoryEntryView)
    requires
        journal_wf(s),
    ensures
        journal_wf(append_spec(s, e)),
{
    let pos = insert_pos_spec(s, e.ts_utc);
    lemma_insert_pos(s, e.ts_utc);
    let t = s.insert(pos, e);
    assert forall|i: int, j: int| 0 <= i < j < t.len() implies (#[trigger] t[i]).ts_utc <= (#[trigger] t[j]).ts_utc by {
        if j < pos {
            assert(t[i] == s[i] && t[j] == s[j]);
        } else if j == pos {
            assert(t[i] == s[i]);
        } else if i < pos {
            assert(t[i] == s[i] && t[j] == s[j - 1]);
            assert(s[i].ts_utc <= e.ts_utc);
        } else if i == pos {
            assert(t[j] == s[j - 1]);
        } else {
            assert(t[i] == s[i - 1] && t[j] == s[j - 1]);
        }
    }
    let r = trim_spec(t);
    assert forall|i: int, j: int| 0 <= i < j < r.len() implies (#[trigger] r[i]).ts_utc <= (#[trigger] r[j]).ts_utc by {
        if t.len() > MEMORY_LIMIT {
            assert(r[i] == t[i + 1] && r[j] == t[j + 1]);
        } else {
            assert(r[i] == t[i] && r[j] == t[j]);
        }
    }
}

/// However many entries are appended, the journal never holds more than
/// `MEMORY_LIMIT` of them.
pub proof fn journal_stays_bounded(s: Seq<MemoryEntryView>, es: Seq<MemoryEntryView>)
    requires
        journal_wf(s),
    ensures
        journal_wf(append_all_spec(s, es)),
        append_all_spec(s, es).len() <= MEMORY_LIMIT,
    decreases es.len(),
{
    if es.len() > 0 {
        journal_stays_bounded(s, es.drop_last());
        lemma_append_wf(append_all_spec(s, es.drop_last()), es.last());
    }
}

impl MemoryJournal {
    /// An empty journal.
    pub fn new() -> (r: MemoryJournal)
        ensures
            r@.len() == 0,
            journal_wf(r@),
    {
        let r = MemoryJournal { entries: Vec::new() };
        assert(r@ =~= Seq::<MemoryEntryView>::empty());
        r
    }

    /// Number of entries.
    pub fn len(&self) -> (r: usize)
        ensures
            r == self@.len(),
    {
        self.entries.len()
    }

    /// The most recent entry, if any.
    pub fn latest(&self) -> (r: Option<&MemoryEntry>)
        ensures
            self@.len() == 0 ==> r is None,
            self@.len() > 0 ==> (r matches Some(e) && e@ == self@.last()),
    {
        let n = self.entries.len();
        if n == 0 {
            None
        } else {
            Some(&self.entries[n - 1])
        }
    }

    /// Whether some entry is dated `date_local`.
    pub fn has_entry_for_date(&self, date_local: &str) -> (r: bool)
        ensures
            r == exists|i: int| 0 <= i < self@.len() && (#[trigger] self@[i]).date_local == date_local@,
    {
        let target = String::from_str(date_local);
        let mut i: usize = 0;
        while i < self.entries.len()
            invariant
                i <= self.entries.len(),
                target@ == date_local@,
                forall|j: int| 0 <= j < i ==> (#[trigger] self@[j]).date_local != date_local@,
            decreases self.entries.len() - i,
        {
            assert(self@[i as int] == self.entries[i as int]@);
            if self.entries[i].date_local == target {
                return true;
            }
            i = i + 1;
        }
        false
    }

    /// Inserts an entry by timestamp, after any entry stamped no later, then
    /// drops the oldest entry when more than `MEMORY_LIMIT` remain.
    pub fn append(&mut self, entry: MemoryEntry)
        requires
            journal_wf(old(self)@),
        ensures
            final(self)@ == append_spec(old(self)@, entry@),
            journal_wf(final(self)@),
            final(self)@.len() <= MEMORY_LIMIT,
    {
        let ghost s = self@;
        let ghost ev = entry@;
        let ts = entry.ts_utc;
        let mut i: usize = self.entries.len();
        assert(s.subrange(0, i as int) =~= s);
        while i > 0 && self.entries[i - 1].ts_utc > ts
            invariant
                i <= self.entries.len(),
                s == self@,
                insert_pos_spec(s, ts) == insert_pos_spec(s.subrange(0, i as int), ts),
            decreases i,
        {
            let ghost sub = s.subrange(0, i as int);
            assert(sub.last() == self.entries[i - 1]@);
            assert(sub.drop_last() =~= s.subrange(0, i - 1));
            i = i - 1;
        }
        proof {
            if i > 0 {
                assert(s.subrange(0, i as int).last() == self.entries[i - 1]@);
            }
        }
        self.entries.insert(i, entry);
        assert(self@ =~= s.insert(i as int, ev));
        if self.entries.len() > MEMORY_LIMIT {
            let _ = self.entries.remove(0);
            assert(self@ =~= s.insert(i as int, ev).drop_first());
        }
        proof {
            lemma_append_wf(s, ev);
        }
    }
}

} // verus!
