//! Traffic statistics collected from Xray, kept by tag, with timestamped snapshots.
use vstd::prelude::*;
use crate::services::traffic::{distinct_tags, lemma_traffic_set, tag_index, traffic_of, traffic_set};
use crate::text::{owned, str_eq};

verus! {

/// Traffic of one tag.
#[derive(Debug, Clone)]
pub struct TrafficEntry {
    pub tag: String,
    pub up: i64,
    pub down: i64,
}

impl View for TrafficEntry {
    type V = (Seq<char>, i64, i64);

    open spec fn view(&self) -> (Seq<char>, i64, i64) {
        (self.tag@, self.up, self.down)
    }
}

/// All entries at one moment.
#[derive(Debug, Clone)]
pub struct TrafficSnapshot {
    pub timestamp: i64,
    pub entries: Vec<TrafficEntry>,
}

/// The views of a sequence of entries.
pub open spec fn entry_views(v: Seq<TrafficEntry>) -> Seq<(Seq<char>, i64, i64)> {
    v.map_values(|e: TrafficEntry| e@)
}

/// A copy of an entry.
fn copy_entry(e: &TrafficEntry) -> (r: TrafficEntry)
    ensures
        r@ == e@,
{
    TrafficEntry { tag: owned(e.tag.as_str()), up: e.up, down: e.down }
}

/// In-memory traffic entries by tag.
pub struct TrafficStore {
    entries: Vec<TrafficEntry>,
}

impl View for TrafficStore {
    type V = Seq<(Seq<char>, i64, i64)>;

    /// The entries in the order their tags first appeared.
    closed spec fn view(&self) -> Seq<(Seq<char>, i64, i64)> {
        entry_views(self.entries@)
    }
}

impl TrafficStore {
    /// Whether no tag occurs twice.
    pub open spec fn wf(&self) -> bool {
        distinct_tags(self@)
    }

    /// An empty store.
    pub fn new() -> (r: TrafficStore)
        ensures
            r.wf(),
            r@ == Seq::<(Seq<char>, i64, i64)>::empty(),
    {
        let r = TrafficStore { entries: Vec::new() };
        assert(r@ =~= Seq::<(Seq<char>, i64, i64)>::empty());
        r
    }

    /// The position of a tag, if it is stored.
    fn find(&self, tag: &str) -> (r: Option<usize>)
        requires
            self.wf(),
        ensures
            match r {
                Some(i) => tag_index(self@, tag@) == Some(i as int),
                None => tag_index(self@, tag@) is None,
            },
    {
        let ghost s = self@;
        let mut i: usize = 0;
        while i < self.entries.len()
            invariant
                i <= self.entries.len(),
                s == self@,
                s == entry_views(self.entries@),
                distinct_tags(s),
                forall|k: int| 0 <= k < i ==> #[trigger] s[k].0 != tag@,
            decreases self.entries.len() - i,
        {
            assert(s[i as int].0 == self.entries@[i as int].tag@);
            if str_eq(self.entries[i].tag.as_str(), tag) {
                proof {
                    crate::services::traffic::lemma_tag_index_unique(s, i as int);
                }
                return Some(i);
            }
            i = i + 1;
        }
        None
    }

    /// Stores the totals of a tag, replacing any earlier entry for it.
    pub fn update(&mut self, tag: &str, up: i64, down: i64)
        requires
            old(self).wf(),
        ensures
            final(self).wf(),
            final(self)@ == traffic_set(old(self)@, tag@, up, down),
            traffic_of(final(self)@, tag@) == Some((up, down)),
            forall|t: Seq<char>| t != tag@ ==> traffic_of(final(self)@, t) == traffic_of(old(self)@, t),
    {
        let at = self.find(tag);
        let e = TrafficEntry { tag: owned(tag), up, down };
        match at {
            Some(i) => {
                self.entries.set(i, e);
            },
            None => {
                self.entries.push(e);
            },
        }
        proof {
            lemma_traffic_set(old(self)@, tag@, up, down);
            assert(self@ =~= traffic_set(old(self)@, tag@, up, down));
        }
    }

    /// The entry of a tag, if it is stored.
    pub fn get(&self, tag: &str) -> (r: Option<TrafficEntry>)
        requires
            self.wf(),
        ensures
            match r {
                Some(e) => e.tag@ == tag@ && traffic_of(self@, tag@) == Some((e.up, e.down)),
                None => traffic_of(self@, tag@) is None,
            },
    {
        match self.find(tag) {
            Some(i) => {
                assert(self@[i as int] == self.entries@[i as int]@);
                Some(copy_entry(&self.entries[i]))
            },
            None => None,
        }
    }

    /// Every stored entry.
    pub fn get_all(&self) -> (r: Vec<TrafficEntry>)
        ensures
            entry_views(r@) == self@,
    {
        let mut out: Vec<TrafficEntry> = Vec::new();
        let mut i: usize = 0;
        while i < self.entries.len()
            invariant
                i <= self.entries.len(),
                out@.len() == i,
                forall|k: int| 0 <= k < i ==> #[trigger] out@[k]@ == self.entries@[k]@,
            decreases self.entries.len() - i,
        {
            out.push(copy_entry(&self.entries[i]));
            i = i + 1;
        }
        assert(entry_views(out@) =~= self@);
        out
    }

    /// Every stored entry, stamped with the current Unix time.
    pub fn snapshot(&self) -> (r: TrafficSnapshot)
        ensures
            entry_views(r.entries@) == self@,
    {
        let timestamp = crate::clock::utc_now_timestamp();
        TrafficSnapshot { timestamp, entries: self.get_all() }
    }

    /// Sets the totals of a stored tag to zero; an unknown tag is left unknown.
    pub fn reset(&mut self, tag: &str)
        requires
            old(self).wf(),
        ensures
            final(self).wf(),
            final(self)@ == (if traffic_of(old(self)@, tag@) is Some {
                traffic_set(old(self)@, tag@, 0, 0)
            } else {
                old(self)@
            }),
    {
        if let Some(i) = self.find(tag) {
            let e = TrafficEntry { tag: owned(tag), up: 0, down: 0 };
            self.entries.set(i, e);
            proof {
                lemma_traffic_set(old(self)@, tag@, 0, 0);
                assert(self@ =~= traffic_set(old(self)@, tag@, 0, 0));
            }
        }
    }
}

impl Default for TrafficStore {
    fn default() -> (r: TrafficStore)
        ensures
            r.wf(),
            r@ == Seq::<(Seq<char>, i64, i64)>::empty(),
    {
        TrafficStore::new()
    }
}

} // verus!
