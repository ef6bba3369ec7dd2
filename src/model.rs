use vstd::prelude::*;
use vstd::string::StrSliceExecFns;

verus! {

/// The keys of a sequence of entries, in order.
pub open spec fn keys_of(s: Seq<(String, String)>) -> Seq<Seq<char>> {
    s.map_values(|e: (String, String)| e.0@)
}

/// No key occurs twice among the entries.
pub open spec fn keys_distinct(s: Seq<(String, String)>) -> bool {
    keys_of(s).no_duplicates()
}

/// The mapping that a sequence of entries stands for: a later entry for a key
/// overrides an earlier one.
pub open spec fn entries_map(s: Seq<(String, String)>) -> Map<Seq<char>, Seq<char>>
    decreases s.len(),
{
    if s.len() == 0 {
        Map::empty()
    } else {
        entries_map(s.drop_last()).insert(s.last().0@, s.last().1@)
    }
}

/// The domain of the mapping is the set of keys of the entries.
pub proof fn lemma_entries_map_dom(s: Seq<(String, String)>)
    ensures
        entries_map(s).dom() == keys_of(s).to_set(),
    decreases s.len(),
{
    if s.len() > 0 {
        lemma_entries_map_dom(s.drop_last());
        assert(keys_of(s.drop_last()) =~= keys_of(s).drop_last());
        assert(entries_map(s).dom() =~= keys_of(s).to_set()) by {
            assert forall|k: Seq<char>| keys_of(s).to_set().contains(k) implies entries_map(
                s,
            ).dom().contains(k) by {
                let i = choose|i: int| 0 <= i < keys_of(s).len() && keys_of(s)[i] == k;
                if i < s.len() - 1 {
                    assert(keys_of(s.drop_last())[i] == k);
                }
            }
            assert forall|k: Seq<char>| entries_map(s).dom().contains(k) implies keys_of(
                s,
            ).to_set().contains(k) by {
                if k != s.last().0@ {
                    let i = choose|i: int|
                        0 <= i < keys_of(s.drop_last()).len() && keys_of(s.drop_last())[i] == k;
                    assert(keys_of(s)[i] == k);
                } else {
                    assert(keys_of(s)[s.len() - 1] == k);
                }
            }
        }
    }
}

/// With distinct keys, each entry's value is what the mapping gives for its key.
pub proof fn lemma_entries_map_index(s: Seq<(String, String)>, i: int)
    requires
        keys_distinct(s),
        0 <= i < s.len(),
    ensures
        entries_map(s).contains_key(s[i].0@),
        entries_map(s)[s[i].0@] == s[i].1@,
    decreases s.len(),
{
    if i < s.len() - 1 {
        let t = s.drop_last();
        assert(keys_of(t) =~= keys_of(s).drop_last());
        assert(keys_distinct(t)) by {
            assert forall|a: int, b: int|
                0 <= a < keys_of(t).len() && 0 <= b < keys_of(t).len() && a != b implies keys_of(
                t,
            )[a] != keys_of(t)[b] by {
                assert(keys_of(s)[a] != keys_of(s)[b]);
            }
        }
        lemma_entries_map_index(t, i);
        assert(keys_of(s)[i] != keys_of(s)[s.len() - 1]);
    }
}

/// With distinct keys, the mapping holds no key outside the entries.
pub proof fn lemma_entries_map_absent(s: Seq<(String, String)>, k: Seq<char>)
    requires
        forall|i: int| 0 <= i < s.len() ==> s[i].0@ != k,
    ensures
        !entries_map(s).contains_key(k),
{
    lemma_entries_map_dom(s);
    if keys_of(s).to_set().contains(k) {
        let i = choose|i: int| 0 <= i < keys_of(s).len() && keys_of(s)[i] == k;
        assert(s[i].0@ == k);
    }
}

/// Replacing the value of an entry in place updates the mapping at its key.
pub proof fn lemma_entries_map_update(s: Seq<(String, String)>, i: int, e: (String, String))
    requires
        keys_distinct(s),
        0 <= i < s.len(),
        e.0@ == s[i].0@,
    ensures
        keys_distinct(s.update(i, e)),
        entries_map(s.update(i, e)) == entries_map(s).insert(e.0@, e.1@),
    decreases s.len(),
{
    let u = s.update(i, e);
    assert(keys_of(u) =~= keys_of(s));
    let t = s.drop_last();
    assert(keys_of(t) =~= keys_of(s).drop_last());
    assert(keys_distinct(t)) by {
        assert forall|a: int, b: int|
            0 <= a < keys_of(t).len() && 0 <= b < keys_of(t).len() && a != b implies keys_of(
            t,
        )[a] != keys_of(t)[b] by {
            assert(keys_of(s)[a] != keys_of(s)[b]);
        }
    }
    if i == s.len() - 1 {
        assert(u.drop_last() =~= t);
        assert(entries_map(u) =~= entries_map(s).insert(e.0@, e.1@));
    } else {
        lemma_entries_map_update(t, i, e);
        assert(u.drop_last() =~= t.update(i, e));
        assert(keys_of(s)[i] != keys_of(s)[s.len() - 1]);
        assert(entries_map(u) =~= entries_map(s).insert(e.0@, e.1@));
    }
}

/// Appending an entry with a new key keeps the keys distinct and adds it to the mapping.
pub proof fn lemma_entries_map_push(s: Seq<(String, String)>, e: (String, String))
    requires
        keys_distinct(s),
        forall|i: int| 0 <= i < s.len() ==> s[i].0@ != e.0@,
    ensures
        keys_distinct(s.push(e)),
        entries_map(s.push(e)) == entries_map(s).insert(e.0@, e.1@),
{
    let u = s.push(e);
    assert(u.drop_last() =~= s);
    assert(keys_of(u) =~= keys_of(s).push(e.0@));
    assert(keys_distinct(u)) by {
        assert forall|a: int, b: int|
            0 <= a < keys_of(u).len() && 0 <= b < keys_of(u).len() && a != b implies keys_of(
            u,
        )[a] != keys_of(u)[b] by {
            if a < s.len() && b < s.len() {
                assert(keys_of(s)[a] != keys_of(s)[b]);
            } else if a < s.len() {
                assert(s[a].0@ != e.0@);
            } else {
                assert(s[b].0@ != e.0@);
            }
        }
    }
}

/// With distinct keys, the mapping has one key per entry.
pub proof fn lemma_entries_map_len(s: Seq<(String, String)>)
    requires
        keys_distinct(s),
    ensures
        entries_map(s).len() == s.len(),
{
    lemma_entries_map_dom(s);
    keys_of(s).unique_seq_to_set();
}

/// Index of the first occurrence of `c` in `s`, or the length of `s` where
/// there is none.
pub open spec fn first_index(s: Seq<char>, c: char) -> int
    decreases s.len(),
{
    if s.len() == 0 {
        0
    } else if s[0] == c {
        0
    } else {
        1 + first_index(s.drop_first(), c)
    }
}

/// The first occurrence is the one that nothing before it matches.
pub proof fn lemma_first_index(s: Seq<char>, c: char, i: int)
    requires
        0 <= i <= s.len(),
        forall|j: int| 0 <= j < i ==> s[j] != c,
        i == s.len() || s[i] == c,
    ensures
        first_index(s, c) == i,
    decreases i,
{
    if i > 0 {
        let t = s.drop_first();
        assert forall|j: int| 0 <= j < i - 1 implies t[j] != c by {
            assert(s[j + 1] != c);
        }
        lemma_first_index(t, c, i - 1);
    }
}

/// Index of the first `c` in `s` at or after `from`, or `n` where there is none.
pub fn find_char(s: &str, c: char, from: usize, n: usize) -> (r: usize)
    requires
        n == s@.len(),
        from <= n,
    ensures
        from <= r <= n,
        forall|k: int| from <= k < r ==> s@[k] != c,
        r == n || s@[r as int] == c,
        first_index(s@.subrange(from as int, n as int), c) == r - from,
{
    let mut i: usize = from;
    while i < n && s.get_char(i) != c
        invariant
            n == s@.len(),
            from <= i <= n,
            forall|k: int| from <= k < i ==> s@[k] != c,
        decreases n - i,
    {
        i = i + 1;
    }
    proof {
        lemma_first_index(s@.subrange(from as int, n as int), c, (i - from) as int);
    }
    i
}

} // verus!
