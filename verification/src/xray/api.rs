//! Names used by Xray's stats API.
use vstd::prelude::*;
use crate::text::{chars_of, owned, push_char, push_str, views};

verus! {

/// Xray stats API response.
#[derive(Debug, Clone)]
pub struct StatsResponse {
    pub stat: Vec<StatValue>,
}

/// One counter of the stats API.
#[derive(Debug, Clone)]
pub struct StatValue {
    pub name: String,
    pub value: i64,
}

/// Whether `sep` occurs in `s` at position `i`.
pub open spec fn occurs_at(s: Seq<char>, sep: Seq<char>, i: int) -> bool {
    0 <= i && i + sep.len() <= s.len() && s.subrange(i, i + sep.len()) == sep
}

/// The pieces of `s` between the non-overlapping occurrences of `>>>`, found left to right.
pub open spec fn split_fields(s: Seq<char>) -> Seq<Seq<char>>
    decreases s.len(),
{
    split_from(s, 0, 0)
}

/// Splitting `s` where the current piece started at `start` and scanning resumes at `i`.
pub open spec fn split_from(s: Seq<char>, start: int, i: int) -> Seq<Seq<char>>
    recommends
        0 <= start <= i <= s.len(),
    decreases s.len() - i,
{
    if i < 0 || i + 3 > s.len() {
        seq![s.subrange(start, s.len() as int)]
    } else if occurs_at(s, ">>>"@, i) {
        seq![s.subrange(start, i)] + split_from(s, i + 3, i + 3)
    } else {
        split_from(s, start, i + 1)
    }
}

/// The scope, tag and direction of a stats counter name
/// (`scope>>>tag>>>traffic>>>direction`): its first, second and fourth fields.
pub open spec fn stats_name_parts(name: Seq<char>) -> Option<(Seq<char>, Seq<char>, Seq<char>)> {
    let parts = split_fields(name);
    if parts.len() >= 4 {
        Some((parts[0], parts[1], parts[3]))
    } else {
        None
    }
}

proof fn lemma_split_step(s: Seq<char>, start: int, i: int)
    requires
        0 <= start <= i,
        i + 3 <= s.len(),
    ensures
        occurs_at(s, ">>>"@, i) <==> (s[i] == '>' && s[i + 1] == '>' && s[i + 2] == '>'),
{
    reveal_strlit(">>>");
    if s[i] == '>' && s[i + 1] == '>' && s[i + 2] == '>' {
        assert(s.subrange(i, i + 3) =~= ">>>"@);
    }
    if occurs_at(s, ">>>"@, i) {
        assert(s.subrange(i, i + 3)[0] == s[i]);
        assert(s.subrange(i, i + 3)[1] == s[i + 1]);
        assert(s.subrange(i, i + 3)[2] == s[i + 2]);
    }
}

/// Splits a string at every non-overlapping `>>>`, left to right.
pub fn split_fields_of(s: &str) -> (r: Vec<String>)
    ensures
        views(r@) == split_fields(s@),
{
    let cs = chars_of(s);
    let n = cs.len();
    let mut parts: Vec<String> = Vec::new();
    let mut cur = String::new();
    let mut start: usize = 0;
    let mut i: usize = 0;
    while i < n
        invariant
            cs@ == s@,
            n == cs@.len(),
            0 <= start <= i <= n,
            cur@ == s@.subrange(start as int, i as int),
            views(parts@) + split_from(s@, start as int, i as int) == split_fields(s@),
        decreases n - i,
    {
        if n - i >= 3 && cs[i] == '>' && cs[i + 1] == '>' && cs[i + 2] == '>' {
            proof {
                lemma_split_step(s@, start as int, i as int);
                assert(views(parts@.push(cur)) == views(parts@).push(cur@));
                assert(views(parts@).push(cur@) + split_from(s@, (i + 3) as int, (i + 3) as int)
                    =~= views(parts@) + split_from(s@, start as int, i as int));
            }
            parts.push(cur);
            cur = String::new();
            i = i + 3;
            start = i;
            assert(cur@ =~= s@.subrange(start as int, i as int));
        } else {
            proof {
                if n - i >= 3 {
                    lemma_split_step(s@, start as int, i as int);
                }
            }
            push_char(&mut cur, cs[i]);
            i = i + 1;
            assert(cur@ =~= s@.subrange(start as int, i as int));
        }
    }
    proof {
        assert(split_from(s@, start as int, i as int) == seq![s@.subrange(start as int, n as int)]);
        assert(views(parts@.push(cur)) =~= views(parts@) + seq![cur@]);
    }
    parts.push(cur);
    parts
}

/// The scope, tag and direction of a stats counter name, when it has at least four fields.
pub fn parse_stats_name(name: &str) -> (r: Option<(String, String, String)>)
    ensures
        match r {
            Some((a, b, c)) => stats_name_parts(name@) == Some((a@, b@, c@)),
            None => stats_name_parts(name@) is None,
        },
{
    let parts = split_fields_of(name);
    if parts.len() >= 4 {
        proof {
            assert(views(parts@)[0] == parts@[0]@);
            assert(views(parts@)[1] == parts@[1]@);
            assert(views(parts@)[3] == parts@[3]@);
        }
        Some((parts[0].clone(), parts[1].clone(), parts[3].clone()))
    } else {
        None
    }
}

/// Stats counter name of an inbound's uplink traffic.
pub fn build_inbound_uplink_name(tag: &str) -> (r: String)
    ensures
        r@ == "inbound>>>"@ + tag@ + ">>>traffic>>>uplink"@,
{
    let mut s = owned("inbound>>>");
    push_str(&mut s, tag);
    push_str(&mut s, ">>>traffic>>>uplink");
    s
}

/// Stats counter name of an inbound's downlink traffic.
pub fn build_inbound_downlink_name(tag: &str) -> (r: String)
    ensures
        r@ == "inbound>>>"@ + tag@ + ">>>traffic>>>downlink"@,
{
    let mut s = owned("inbound>>>");
    push_str(&mut s, tag);
    push_str(&mut s, ">>>traffic>>>downlink");
    s
}

/// Whether no `>` appears in a text.
pub open spec fn no_angle(w: Seq<char>) -> bool {
    forall|k: int| 0 <= k < w.len() ==> w[k] != '>'
}

/// Whether a tag, followed by a separator, shows no separator before that one: it holds no
/// `>>>` and does not end in `>`.
pub open spec fn tag_splits_cleanly(tag: Seq<char>) -> bool {
    forall|k: int| 0 <= k < tag.len() ==> !occurs_at(tag + ">>>"@, ">>>"@, k)
}

proof fn lemma_split_to(s: Seq<char>, start: int, i: int, j: int)
    requires
        0 <= start <= i <= j,
        j + 3 <= s.len(),
        forall|k: int| i <= k < j ==> !occurs_at(s, ">>>"@, k),
        occurs_at(s, ">>>"@, j),
    ensures
        split_from(s, start, i) == seq![s.subrange(start, j)] + split_from(s, j + 3, j + 3),
    decreases j - i,
{
    if i < j {
        lemma_split_to(s, start, i + 1, j);
    }
}

proof fn lemma_split_rest(s: Seq<char>, start: int, i: int)
    requires
        0 <= start <= i <= s.len(),
        forall|k: int| i <= k && k + 3 <= s.len() ==> !occurs_at(s, ">>>"@, k),
    ensures
        split_from(s, start, i) == seq![s.subrange(start, s.len() as int)],
    decreases s.len() - i,
{
    if i + 3 <= s.len() {
        lemma_split_rest(s, start, i + 1);
    }
}

proof fn lemma_split_four(w1: Seq<char>, tag: Seq<char>, w3: Seq<char>, w4: Seq<char>)
    requires
        no_angle(w1),
        no_angle(w3),
        no_angle(w4),
        tag_splits_cleanly(tag),
    ensures
        split_fields(w1 + ">>>"@ + tag + ">>>"@ + w3 + ">>>"@ + w4) == seq![w1, tag, w3, w4],
{
    reveal_strlit(">>>");
    let sep = ">>>"@;
    let s = w1 + sep + tag + sep + w3 + sep + w4;
    let a = w1.len() as int;
    let b = a + 3 + tag.len();
    let c = b + 3 + w3.len();
    assert(s.subrange(a, a + 3) =~= sep);
    assert(s.subrange(b, b + 3) =~= sep);
    assert(s.subrange(c, c + 3) =~= sep);
    assert forall|k: int| 0 <= k < a implies !occurs_at(s, sep, k) by {
        if occurs_at(s, sep, k) {
            assert(s.subrange(k, k + 3)[0] == s[k]);
            assert(s[k] == w1[k]);
        }
    }
    assert forall|k: int| a + 3 <= k < b implies !occurs_at(s, sep, k) by {
        assert(!occurs_at(tag + ">>>"@, ">>>"@, k - a - 3));
        assert(s.subrange(k, k + 3) =~= (tag + sep).subrange(k - a - 3, k - a));
    }
    assert forall|k: int| b + 3 <= k < c implies !occurs_at(s, sep, k) by {
        if occurs_at(s, sep, k) {
            assert(s.subrange(k, k + 3)[0] == s[k]);
            assert(s[k] == w3[k - b - 3]);
        }
    }
    assert forall|k: int| c + 3 <= k && k + 3 <= s.len() implies !occurs_at(s, sep, k) by {
        if occurs_at(s, sep, k) {
            assert(s.subrange(k, k + 3)[0] == s[k]);
            assert(s[k] == w4[k - c - 3]);
        }
    }
    lemma_split_to(s, 0, 0, a);
    lemma_split_to(s, a + 3, a + 3, b);
    lemma_split_to(s, b + 3, b + 3, c);
    lemma_split_rest(s, c + 3, c + 3);
    assert(s.subrange(0, a) =~= w1);
    assert(s.subrange(a + 3, b) =~= tag);
    assert(s.subrange(b + 3, c) =~= w3);
    assert(s.subrange(c + 3, s.len() as int) =~= w4);
    assert(split_fields(s) =~= seq![w1, tag, w3, w4]);
}

/// The counter names of an inbound read back as the inbound scope, the tag and the
/// direction, for every tag that shows no separator of its own (no `>>>`, no final `>`).
pub proof fn lemma_inbound_stats_names_roundtrip(tag: Seq<char>)
    requires
        tag_splits_cleanly(tag),
    ensures
        stats_name_parts("inbound>>>"@ + tag + ">>>traffic>>>uplink"@) == Some(("inbound"@, tag, "uplink"@)),
        stats_name_parts("inbound>>>"@ + tag + ">>>traffic>>>downlink"@) == Some(("inbound"@, tag, "downlink"@)),
{
    reveal_strlit("inbound>>>");
    reveal_strlit(">>>traffic>>>uplink");
    reveal_strlit(">>>traffic>>>downlink");
    reveal_strlit("inbound");
    reveal_strlit(">>>");
    reveal_strlit("traffic");
    reveal_strlit("uplink");
    reveal_strlit("downlink");
    let sep = ">>>"@;
    assert(no_angle("inbound"@));
    assert(no_angle("traffic"@));
    assert(no_angle("uplink"@));
    assert(no_angle("downlink"@));
    lemma_split_four("inbound"@, tag, "traffic"@, "uplink"@);
    lemma_split_four("inbound"@, tag, "traffic"@, "downlink"@);
    assert("inbound>>>"@ + tag + ">>>traffic>>>uplink"@ =~= "inbound"@ + sep + tag + sep + "traffic"@ + sep + "uplink"@);
    assert("inbound>>>"@ + tag + ">>>traffic>>>downlink"@ =~= "inbound"@ + sep + tag + sep + "traffic"@ + sep + "downlink"@);
}

} // verus!
