//! Settings endpoints: the key-value settings map, setting upserts and credential updates.
use vstd::prelude::*;
use crate::text::{owned, str_eq};

verus! {

/// The settings as key-value pairs; no key occurs twice.
#[derive(Debug, Default)]
pub struct SettingsMap {
    pub settings: Vec<(String, String)>,
}

/// Request to update the user's credentials; absent fields stay as they are.
#[derive(Debug)]
pub struct UpdateUserRequest {
    pub username: Option<String>,
    pub password: Option<String>,
    pub old_password: Option<String>,
}

/// The statement that stores one setting, replacing an earlier value of the key.
pub const UPSERT_SETTING_SQL: &'static str = "INSERT INTO settings (key, value) VALUES (?, ?)
         ON CONFLICT(key) DO UPDATE SET value = excluded.value";

/// The value a key ends up with when stored rows are read in order: the last row of the key
/// that has a value (rows without a value are skipped).
pub open spec fn latest_value(rows: Seq<(Seq<char>, Option<Seq<char>>)>, key: Seq<char>) -> Option<Seq<char>>
    decreases rows.len(),
{
    if rows.len() == 0 {
        None
    } else if rows.last().0 == key && rows.last().1 is Some {
        rows.last().1
    } else {
        latest_value(rows.drop_last(), key)
    }
}

/// The views of stored rows.
pub open spec fn rows_view(rows: Seq<(String, Option<String>)>) -> Seq<(Seq<char>, Option<Seq<char>>)> {
    rows.map_values(|r: (String, Option<String>)| (r.0@, crate::text::opt_text(r.1)))
}

/// The value stored under a key in a list of pairs.
pub open spec fn pair_value(pairs: Seq<(String, String)>, key: Seq<char>) -> Option<Seq<char>> {
    if exists|i: int| 0 <= i < pairs.len() && #[trigger] pairs[i].0@ == key {
        Some(pairs[choose|i: int| 0 <= i < pairs.len() && #[trigger] pairs[i].0@ == key].1@)
    } else {
        None
    }
}

/// Whether no key occurs twice.
pub open spec fn distinct_keys(pairs: Seq<(String, String)>) -> bool {
    forall|i: int, j: int| 0 <= i < j < pairs.len() ==> #[trigger] pairs[i].0@ != #[trigger] pairs[j].0@
}

proof fn lemma_pair_value_at(pairs: Seq<(String, String)>, i: int)
    requires
        distinct_keys(pairs),
        0 <= i < pairs.len(),
    ensures
        pair_value(pairs, pairs[i].0@) == Some(pairs[i].1@),
{
    let j = choose|j: int| 0 <= j < pairs.len() && #[trigger] pairs[j].0@ == pairs[i].0@;
    if j != i {
        if j < i {
            assert(pairs[j].0@ != pairs[i].0@);
        } else {
            assert(pairs[i].0@ != pairs[j].0@);
        }
    }
}

/// The settings map built from stored rows (see `latest_value`).
pub fn settings_map(rows: &Vec<(String, Option<String>)>) -> (r: SettingsMap)
    ensures
        distinct_keys(r.settings@),
        forall|k: Seq<char>| #[trigger] pair_value(r.settings@, k) == latest_value(rows_view(rows@), k),
{
    let mut pairs: Vec<(String, String)> = Vec::new();
    let mut i: usize = 0;
    assert(rows_view(rows@.take(0)) =~= Seq::<(Seq<char>, Option<Seq<char>>)>::empty());
    while i < rows.len()
        invariant
            i <= rows.len(),
            distinct_keys(pairs@),
            forall|k: Seq<char>| #[trigger] pair_value(pairs@, k) == latest_value(rows_view(rows@.take(i as int)), k),
        decreases rows.len() - i,
    {
        let ghost before = pairs@;
        let ghost rv = rows_view(rows@.take(i + 1));
        assert(rv.drop_last() =~= rows_view(rows@.take(i as int)));
        assert(rv.last() == (rows@[i as int].0@, crate::text::opt_text(rows@[i as int].1)));
        match &rows[i].1 {
            Some(value) => {
                let key = rows[i].0.as_str();
                let mut j: usize = 0;
                while j < pairs.len() && !str_eq(pairs[j].0.as_str(), key)
                    invariant
                        j <= pairs.len(),
                        pairs@ == before,
                        forall|k: int| 0 <= k < j ==> #[trigger] pairs@[k].0@ != key@,
                    decreases pairs.len() - j,
                {
                    j = j + 1;
                }
                let entry = (owned(key), owned(value.as_str()));
                if j < pairs.len() && str_eq(pairs[j].0.as_str(), key) {
                    pairs.set(j, entry);
                    proof {
                        assert(distinct_keys(pairs@)) by {
                            assert forall|a: int, b: int| 0 <= a < b < pairs@.len() implies #[trigger] pairs@[a].0@ != #[trigger] pairs@[b].0@ by {
                                assert(before[a].0@ != before[b].0@);
                            }
                        }
                        assert forall|k: Seq<char>| #[trigger] pair_value(pairs@, k) == latest_value(rv, k) by {
                            if k == key@ {
                                lemma_pair_value_at(pairs@, j as int);
                            } else if exists|x: int| 0 <= x < before.len() && #[trigger] before[x].0@ == k {
                                let x = choose|x: int| 0 <= x < before.len() && #[trigger] before[x].0@ == k;
                                lemma_pair_value_at(before, x);
                                assert(x != j);
                                assert(pairs@[x] == before[x]);
                                lemma_pair_value_at(pairs@, x);
                            } else {
                                assert forall|x: int| 0 <= x < pairs@.len() implies #[trigger] pairs@[x].0@ != k by {
                                    if x != j {
                                        assert(before[x].0@ != k);
                                    }
                                }
                            }
                        }
                    }
                } else {
                    pairs.push(entry);
                    proof {
                        assert(forall|k: int| 0 <= k < before.len() ==> #[trigger] before[k].0@ != key@);
                        assert(distinct_keys(pairs@)) by {
                            assert forall|a: int, b: int| 0 <= a < b < pairs@.len() implies #[trigger] pairs@[a].0@ != #[trigger] pairs@[b].0@ by {
                                if b < before.len() {
                                    assert(before[a].0@ != before[b].0@);
                                } else {
                                    assert(before[a].0@ != key@);
                                }
                            }
                        }
                        assert forall|k: Seq<char>| #[trigger] pair_value(pairs@, k) == latest_value(rv, k) by {
                            if k == key@ {
                                lemma_pair_value_at(pairs@, before.len() as int);
                            } else if exists|x: int| 0 <= x < before.len() && #[trigger] before[x].0@ == k {
                                let x = choose|x: int| 0 <= x < before.len() && #[trigger] before[x].0@ == k;
                                lemma_pair_value_at(before, x);
                                assert(pairs@[x] == before[x]);
                                lemma_pair_value_at(pairs@, x);
                            } else {
                                assert forall|x: int| 0 <= x < pairs@.len() implies #[trigger] pairs@[x].0@ != k by {
                                    if x < before.len() {
                                        assert(before[x].0@ != k);
                                    }
                                }
                            }
                        }
                    }
                }
            },
            None => {
                assert forall|k: Seq<char>| #[trigger] pair_value(pairs@, k) == latest_value(rv, k) by {
                    assert(latest_value(rv, k) == latest_value(rv.drop_last(), k));
                }
            },
        }
        i = i + 1;
    }
    assert(rows@.take(i as int) =~= rows@);
    SettingsMap { settings: pairs }
}

/// Reading rows in order, a row with a value sets its key to that value and leaves the other
/// keys as they were, and a row without a value changes nothing.
pub proof fn lemma_latest_value_step(rows: Seq<(Seq<char>, Option<Seq<char>>)>, key: Seq<char>, value: Option<Seq<char>>, other: Seq<char>)
    ensures
        value is Some ==> latest_value(rows.push((key, value)), key) == value,
        other != key ==> latest_value(rows.push((key, value)), other) == latest_value(rows, other),
        value is None ==> latest_value(rows.push((key, value)), other) == latest_value(rows, other),
{
    assert(rows.push((key, value)).drop_last() =~= rows);
}

} // verus!
