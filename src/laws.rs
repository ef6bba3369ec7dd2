use vstd::prelude::*;
use crate::snapshot::parsed_snapshot;
use crate::storage::loaded_map;

verus! {

/// The store that a run of writes leaves, each write `(key, value)` applied in
/// order to `m` as `Storage::set` applies it.
pub open spec fn after_writes(
    m: Map<Seq<char>, Seq<char>>,
    writes: Seq<(Seq<char>, Seq<char>)>,
) -> Map<Seq<char>, Seq<char>>
    decreases writes.len(),
{
    if writes.len() == 0 {
        m
    } else {
        after_writes(m, writes.drop_last()).insert(writes.last().0, writes.last().1)
    }
}

/// The keys of a run of writes.
pub open spec fn written_keys(writes: Seq<(Seq<char>, Seq<char>)>) -> Seq<Seq<char>> {
    writes.map_values(|w: (Seq<char>, Seq<char>)| w.0)
}

/// `states` are the contents of one store over a run of `Storage::set` calls:
/// `states[0]` before the first, and `states[i + 1]` what `set` ensures after
/// the write `writes[i]`. Calls made from several callers count in the order
/// in which the store's lock admitted them.
pub open spec fn is_set_run(
    states: Seq<Map<Seq<char>, Seq<char>>>,
    writes: Seq<(Seq<char>, Seq<char>)>,
) -> bool {
    &&& states.len() == writes.len() + 1
    &&& forall|i: int|
        0 <= i < writes.len() ==> #[trigger] states[i + 1] == states[i].insert(
            writes[i].0,
            writes[i].1,
        )
}

/// After a run of `set` calls the store holds what the writes, applied in order
/// to its first contents, give.
pub proof fn law_set_run(
    states: Seq<Map<Seq<char>, Seq<char>>>,
    writes: Seq<(Seq<char>, Seq<char>)>,
)
    requires
        is_set_run(states, writes),
    ensures
        states.last() == after_writes(states[0], writes),
    decreases writes.len(),
{
    if writes.len() > 0 {
        let n = writes.len() - 1;
        let s = states.drop_last();
        let w = writes.drop_last();
        assert forall|i: int| 0 <= i < w.len() implies #[trigger] s[i + 1] == s[i].insert(
            w[i].0,
            w[i].1,
        ) by {
            assert(states[i + 1] == states[i].insert(writes[i].0, writes[i].1));
        }
        law_set_run(s, w);
        assert(states[n + 1] == states[n].insert(writes[n].0, writes[n].1));
    }
}

/// A value that has just been set under a key is what a lookup of that key gives.
pub proof fn law_set_then_get(m: Map<Seq<char>, Seq<char>>, k: Seq<char>, v: Seq<char>)
    ensures
        m.insert(k, v).contains_key(k),
        m.insert(k, v)[k] == v,
{
}

/// After several writes to one key, a lookup gives the value of the last of them.
pub proof fn law_last_write_wins(
    m: Map<Seq<char>, Seq<char>>,
    k: Seq<char>,
    writes: Seq<(Seq<char>, Seq<char>)>,
)
    requires
        writes.len() > 0,
        forall|i: int| 0 <= i < writes.len() ==> writes[i].0 == k,
    ensures
        after_writes(m, writes).contains_key(k),
        after_writes(m, writes)[k] == writes.last().1,
{
}

/// Writes to distinct keys, applied in any order, all remain in the result.
pub proof fn lemma_distinct_writes_all_kept(
    m: Map<Seq<char>, Seq<char>>,
    writes: Seq<(Seq<char>, Seq<char>)>,
)
    requires
        written_keys(writes).no_duplicates(),
    ensures
        forall|i: int|
            0 <= i < writes.len() ==> after_writes(m, writes).contains_key(#[trigger] writes[i].0)
                && after_writes(m, writes)[writes[i].0] == writes[i].1,
    decreases writes.len(),
{
    if writes.len() > 0 {
        let t = writes.drop_last();
        assert(written_keys(t) =~= written_keys(writes).drop_last());
        lemma_distinct_writes_all_kept(m, t);
        assert forall|i: int| 0 <= i < writes.len() implies after_writes(m, writes).contains_key(
            #[trigger] writes[i].0,
        ) && after_writes(m, writes)[writes[i].0] == writes[i].1 by {
            if i < writes.len() - 1 {
                assert(written_keys(writes)[i] != written_keys(writes)[writes.len() - 1]);
                assert(t[i] == writes[i]);
            }
        }
    }
}

/// Writing distinct keys into an empty map leaves exactly those keys.
pub proof fn lemma_distinct_writes_keys(writes: Seq<(Seq<char>, Seq<char>)>)
    requires
        written_keys(writes).no_duplicates(),
    ensures
        after_writes(Map::empty(), writes).dom() == written_keys(writes).to_set(),
        after_writes(Map::empty(), writes).len() == writes.len(),
    decreases writes.len(),
{
    if writes.len() > 0 {
        let t = writes.drop_last();
        assert(written_keys(t) =~= written_keys(writes).drop_last());
        lemma_distinct_writes_keys(t);
        assert(written_keys(writes) =~= written_keys(t).push(writes.last().0));
        assert(!written_keys(t).contains(writes.last().0)) by {
            if written_keys(t).contains(writes.last().0) {
                let i = choose|i: int| 0 <= i < t.len() && written_keys(t)[i] == writes.last().0;
                assert(written_keys(writes)[i] == written_keys(writes)[writes.len() - 1]);
            }
        }
        written_keys(t).lemma_push_to_set_commute(writes.last().0);
        assert(after_writes(Map::empty(), writes).dom() =~= written_keys(writes).to_set());
    } else {
        assert(written_keys(writes).to_set() =~= Set::empty());
    }
}

/// `set` calls on distinct keys lose nothing: whatever order the callers'
/// calls were admitted in, each value can be read back under its key once
/// they have all returned.
pub proof fn law_distinct_writes_all_kept(
    states: Seq<Map<Seq<char>, Seq<char>>>,
    writes: Seq<(Seq<char>, Seq<char>)>,
)
    requires
        is_set_run(states, writes),
        written_keys(writes).no_duplicates(),
    ensures
        forall|i: int|
            0 <= i < writes.len() ==> states.last().contains_key(#[trigger] writes[i].0)
                && states.last()[writes[i].0] == writes[i].1,
{
    law_set_run(states, writes);
    lemma_distinct_writes_all_kept(states[0], writes);
}

/// After `set` calls on N distinct keys into an empty store, the keys that
/// `Storage::keys` lists (no duplicates, the store's keys) are exactly those N
/// keys, and there are N of them.
pub proof fn law_distinct_writes_keys(
    states: Seq<Map<Seq<char>, Seq<char>>>,
    writes: Seq<(Seq<char>, Seq<char>)>,
    listed: Seq<Seq<char>>,
)
    requires
        is_set_run(states, writes),
        states[0] == Map::<Seq<char>, Seq<char>>::empty(),
        written_keys(writes).no_duplicates(),
        listed.no_duplicates(),
        listed.to_set() == states.last().dom(),
    ensures
        listed.to_set() == written_keys(writes).to_set(),
        listed.len() == writes.len(),
        states.last().len() == writes.len(),
{
    law_set_run(states, writes);
    lemma_distinct_writes_keys(writes);
    listed.unique_seq_to_set();
}

/// A snapshot that `Storage::set` handed out after writing `v` under `k` loads
/// back as a store in which `k` holds `v`.
pub proof fn law_reload_after_set(
    m: Map<Seq<char>, Seq<char>>,
    k: Seq<char>,
    v: Seq<char>,
    snapshot: String,
)
    requires
        snapshot@.len() > 0,
        parsed_snapshot(snapshot@) == Some(m.insert(k, v)),
    ensures
        loaded_map(Some(snapshot)) == Some(m.insert(k, v)),
        loaded_map(Some(snapshot)).unwrap()[k] == v,
{
}

} // verus!
