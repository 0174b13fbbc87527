//! Per-tag traffic counters kept in memory: the latest upload and download totals of each
//! inbound tag, set, increased and reset by tag.
use vstd::prelude::*;
use crate::text::{owned, str_eq};

verus! {

/// Traffic of one tag.
#[derive(Debug, Clone)]
pub struct TrafficData {
    pub tag: String,
    pub up: i64,
    pub down: i64,
}

impl View for TrafficData {
    type V = (Seq<char>, i64, i64);

    open spec fn view(&self) -> (Seq<char>, i64, i64) {
        (self.tag@, self.up, self.down)
    }
}

/// Whether no tag occurs twice.
pub open spec fn distinct_tags(s: Seq<(Seq<char>, i64, i64)>) -> bool {
    forall|i: int, j: int| 0 <= i < j < s.len() ==> #[trigger] s[i].0 != #[trigger] s[j].0
}

/// The position of a tag, if it occurs.
pub open spec fn tag_index(s: Seq<(Seq<char>, i64, i64)>, tag: Seq<char>) -> Option<int> {
    if exists|i: int| 0 <= i < s.len() && #[trigger] s[i].0 == tag {
        Some(choose|i: int| 0 <= i < s.len() && #[trigger] s[i].0 == tag)
    } else {
        None
    }
}

/// The upload and download totals of a tag, if it occurs.
pub open spec fn traffic_of(s: Seq<(Seq<char>, i64, i64)>, tag: Seq<char>) -> Option<(i64, i64)> {
    match tag_index(s, tag) {
        Some(i) => Some((s[i].1, s[i].2)),
        None => None,
    }
}

/// The entries after setting the totals of a tag: its entry is replaced in place, or appended.
pub open spec fn traffic_set(s: Seq<(Seq<char>, i64, i64)>, tag: Seq<char>, up: i64, down: i64) -> Seq<
    (Seq<char>, i64, i64),
> {
    match tag_index(s, tag) {
        Some(i) => s.update(i, (tag, up, down)),
        None => s.push((tag, up, down)),
    }
}

/// In a sequence without repeated tags, the entry at a position is the one found for its tag.
pub proof fn lemma_tag_index_unique(s: Seq<(Seq<char>, i64, i64)>, i: int)
    requires
        distinct_tags(s),
        0 <= i < s.len(),
    ensures
        tag_index(s, s[i].0) == Some(i),
{
    let j = choose|j: int| 0 <= j < s.len() && #[trigger] s[j].0 == s[i].0;
    if j != i {
        if j < i {
            assert(s[j].0 != s[i].0);
        } else {
            assert(s[i].0 != s[j].0);
        }
    }
}

/// Setting a tag's totals makes them what a lookup of the tag gives, leaves every other tag's
/// totals as they were, and keeps tags distinct.
pub proof fn lemma_traffic_set(s: Seq<(Seq<char>, i64, i64)>, tag: Seq<char>, up: i64, down: i64)
    requires
        distinct_tags(s),
    ensures
        distinct_tags(traffic_set(s, tag, up, down)),
        traffic_of(traffic_set(s, tag, up, down), tag) == Some((up, down)),
        forall|t: Seq<char>| t != tag ==> traffic_of(traffic_set(s, tag, up, down), t) == traffic_of(s, t),
{
    let n = traffic_set(s, tag, up, down);
    match tag_index(s, tag) {
        Some(i) => {
            assert(n[i].0 == tag);
            assert(distinct_tags(n)) by {
                assert forall|a: int, b: int| 0 <= a < b < n.len() implies #[trigger] n[a].0 != #[trigger] n[b].0 by {
                    if a == i {
                        assert(s[i].0 == tag);
                        assert(s[a].0 != s[b].0);
                    } else if b == i {
                        assert(s[a].0 != s[b].0);
                    } else {
                        assert(s[a].0 != s[b].0);
                    }
                }
            }
            lemma_tag_index_unique(n, i);
            assert forall|t: Seq<char>| t != tag implies traffic_of(n, t) == traffic_of(s, t) by {
                if exists|k: int| 0 <= k < s.len() && #[trigger] s[k].0 == t {
                    let k = choose|k: int| 0 <= k < s.len() && #[trigger] s[k].0 == t;
                    lemma_tag_index_unique(s, k);
                    assert(k != i);
                    assert(n[k].0 == t);
                    lemma_tag_index_unique(n, k);
                } else {
                    assert forall|k: int| 0 <= k < n.len() implies #[trigger] n[k].0 != t by {
                        if k != i {
                            assert(s[k].0 != t);
                        }
                    }
                }
            }
        },
        None => {
            let i = s.len() as int;
            assert(n[i].0 == tag);
            assert(distinct_tags(n)) by {
                assert forall|a: int, b: int| 0 <= a < b < n.len() implies #[trigger] n[a].0 != #[trigger] n[b].0 by {
                    if b == i {
                        assert(!(0 <= a < s.len() && s[a].0 == tag));
                    } else {
                        assert(s[a].0 != s[b].0);
                    }
                }
            }
            lemma_tag_index_unique(n, i);
            assert forall|t: Seq<char>| t != tag implies traffic_of(n, t) == traffic_of(s, t) by {
                if exists|k: int| 0 <= k < s.len() && #[trigger] s[k].0 == t {
                    let k = choose|k: int| 0 <= k < s.len() && #[trigger] s[k].0 == t;
                    lemma_tag_index_unique(s, k);
                    assert(n[k].0 == t);
                    lemma_tag_index_unique(n, k);
                } else {
                    assert forall|k: int| 0 <= k < n.len() implies #[trigger] n[k].0 != t by {
                        if k < s.len() {
                            assert(s[k].0 != t);
                        }
                    }
                }
            }
        },
    }
}

/// The position of a tag among the entries, if it occurs.
fn find_tag(entries: &Vec<TrafficData>, tag: &str) -> (r: Option<usize>)
    requires
        distinct_tags(entries@.map_values(|d: TrafficData| d@)),
    ensures
        match r {
            Some(i) => tag_index(entries@.map_values(|d: TrafficData| d@), tag@) == Some(i as int),
            None => tag_index(entries@.map_values(|d: TrafficData| d@), tag@) is None,
        },
{
    let ghost s = entries@.map_values(|d: TrafficData| d@);
    let mut i: usize = 0;
    while i < entries.len()
        invariant
            i <= entries.len(),
            s == entries@.map_values(|d: TrafficData| d@),
            distinct_tags(s),
            forall|k: int| 0 <= k < i ==> #[trigger] s[k].0 != tag@,
        decreases entries.len() - i,
    {
        if str_eq(entries[i].tag.as_str(), tag) {
            proof {
                lemma_tag_index_unique(s, i as int);
            }
            return Some(i);
        }
        assert(s[i as int].0 == entries@[i as int].tag@);
        i = i + 1;
    }
    None
}

/// A copy of an entry.
fn copy_data(d: &TrafficData) -> (r: TrafficData)
    ensures
        r@ == d@,
{
    TrafficData { tag: owned(d.tag.as_str()), up: d.up, down: d.down }
}

/// In-memory traffic totals by tag.
pub struct TrafficCollector {
    traffic: Vec<TrafficData>,
}

impl View for TrafficCollector {
    type V = Seq<(Seq<char>, i64, i64)>;

    /// The entries in the order their tags first appeared.
    closed spec fn view(&self) -> Seq<(Seq<char>, i64, i64)> {
        self.traffic@.map_values(|d: TrafficData| d@)
    }
}

impl TrafficCollector {
    /// Whether no tag occurs twice.
    pub open spec fn wf(&self) -> bool {
        distinct_tags(self@)
    }

    /// An empty collector.
    pub fn new() -> (r: TrafficCollector)
        ensures
            r.wf(),
            r@ == Seq::<(Seq<char>, i64, i64)>::empty(),
    {
        let r = TrafficCollector { traffic: Vec::new() };
        assert(r@ =~= Seq::<(Seq<char>, i64, i64)>::empty());
        r
    }

    /// Writes the entry at `i`, or appends it when `i` is none.
    fn put(&mut self, at: Option<usize>, tag: &str, up: i64, down: i64)
        requires
            old(self).wf(),
            at == (match tag_index(old(self)@, tag@) {
                Some(i) => Some(i as usize),
                None => None::<usize>,
            }),
        ensures
            final(self)@ == traffic_set(old(self)@, tag@, up, down),
            final(self).wf(),
    {
        let d = TrafficData { tag: owned(tag), up, down };
        match at {
            Some(i) => {
                self.traffic.set(i, d);
            },
            None => {
                self.traffic.push(d);
            },
        }
        proof {
            lemma_traffic_set(old(self)@, tag@, up, down);
            assert(self@ =~= traffic_set(old(self)@, tag@, up, down));
        }
    }

    /// Sets the totals of a tag, adding the tag if it is new.
    pub fn update(&mut self, tag: &str, up: i64, down: i64)
        requires
            old(self).wf(),
        ensures
            final(self).wf(),
            final(self)@ == traffic_set(old(self)@, tag@, up, down),
            traffic_of(final(self)@, tag@) == Some((up, down)),
            forall|t: Seq<char>| t != tag@ ==> traffic_of(final(self)@, t) == traffic_of(old(self)@, t),
    {
        let at = find_tag(&self.traffic, tag);
        self.put(at, tag, up, down);
        proof {
            lemma_traffic_set(old(self)@, tag@, up, down);
        }
    }

    /// Adds to the totals of a tag, starting from zero for a new tag.
    pub fn increment(&mut self, tag: &str, up_delta: i64, down_delta: i64)
        requires
            old(self).wf(),
            ({
                let (u, d) = match traffic_of(old(self)@, tag@) {
                    Some(p) => p,
                    None => (0i64, 0i64),
                };
                i64::MIN <= u + up_delta <= i64::MAX && i64::MIN <= d + down_delta <= i64::MAX
            }),
        ensures
            final(self).wf(),
            ({
                let (u, d) = match traffic_of(old(self)@, tag@) {
                    Some(p) => p,
                    None => (0i64, 0i64),
                };
                final(self)@ == traffic_set(old(self)@, tag@, (u + up_delta) as i64, (d + down_delta) as i64)
            }),
    {
        let at = find_tag(&self.traffic, tag);
        let (u, d) = match at {
            Some(i) => (self.traffic[i].up, self.traffic[i].down),
            None => (0i64, 0i64),
        };
        self.put(at, tag, u + up_delta, d + down_delta);
    }

    /// The totals of a tag, if it is known.
    pub fn get(&self, tag: &str) -> (r: Option<TrafficData>)
        requires
            self.wf(),
        ensures
            match r {
                Some(d) => d.tag@ == tag@ && traffic_of(self@, tag@) == Some((d.up, d.down)),
                None => traffic_of(self@, tag@) is None,
            },
    {
        match find_tag(&self.traffic, tag) {
            Some(i) => Some(copy_data(&self.traffic[i])),
            None => None,
        }
    }

    /// Every entry.
    pub fn get_all(&self) -> (r: Vec<TrafficData>)
        ensures
            r@.map_values(|d: TrafficData| d@) == self@,
    {
        let mut out: Vec<TrafficData> = Vec::new();
        let mut i: usize = 0;
        while i < self.traffic.len()
            invariant
                i <= self.traffic.len(),
                out@.len() == i,
                forall|k: int| 0 <= k < i ==> #[trigger] out@[k]@ == self.traffic@[k]@,
            decreases self.traffic.len() - i,
        {
            out.push(copy_data(&self.traffic[i]));
            i = i + 1;
        }
        assert(out@.map_values(|d: TrafficData| d@) =~= self@);
        out
    }

    /// Sets the totals of a known tag to zero; an unknown tag is left unknown.
    pub fn reset(&mut self, tag: &str)
        requires
            old(self).wf(),
        ensures
            final(self).wf(),
            final(self)@ == (if traffic_of(old(self)@, tag@) is Some {
                traffic_set(old(self)@, tag@, 0, 0)
            } else {
                old(self)@
            }),
    {
        let at = find_tag(&self.traffic, tag);
        if at.is_some() {
            self.put(at, tag, 0, 0);
        }
    }

    /// Sets the totals of every tag to zero.
    pub fn reset_all(&mut self)
        requires
            old(self).wf(),
        ensures
            final(self).wf(),
            final(self)@.len() == old(self)@.len(),
            forall|i: int| 0 <= i < old(self)@.len() ==> #[trigger] final(self)@[i] == (old(self)@[i].0, 0i64, 0i64),
    {
        let ghost s = self@;
        let mut i: usize = 0;
        assert forall|k: int| 0 <= k < s.len() implies #[trigger] self.traffic@[k]@ == s[k] by {
            assert(s[k] == self.traffic@[k]@);
        }
        while i < self.traffic.len()
            invariant
                i <= self.traffic.len(),
                self.traffic@.len() == s.len(),
                forall|k: int| 0 <= k < i ==> #[trigger] self.traffic@[k]@ == (s[k].0, 0i64, 0i64),
                forall|k: int| i <= k < s.len() ==> #[trigger] self.traffic@[k]@ == s[k],
            decreases self.traffic.len() - i,
        {
            assert(self.traffic@[i as int]@ == s[i as int]);
            let d = TrafficData { tag: owned(self.traffic[i].tag.as_str()), up: 0, down: 0 };
            assert(d@ == (s[i as int].0, 0i64, 0i64));
            self.traffic.set(i, d);
            i = i + 1;
        }
        assert forall|k: int| 0 <= k < s.len() implies #[trigger] self@[k] == (s[k].0, 0i64, 0i64) by {
            assert(self@[k] == self.traffic@[k]@);
        }
        assert(distinct_tags(self@)) by {
            assert forall|a: int, b: int| 0 <= a < b < self@.len() implies #[trigger] self@[a].0
                != #[trigger] self@[b].0 by {
                assert(s[a].0 != s[b].0);
            }
        }
    }
}

impl Default for TrafficCollector {
    fn default() -> (r: TrafficCollector)
        ensures
            r.wf(),
            r@ == Seq::<(Seq<char>, i64, i64)>::empty(),
    {
        TrafficCollector::new()
    }
}

} // verus!
