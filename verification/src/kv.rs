//! Text-keyed tables with map semantics, kept as vectors of pairs with
//! distinct keys.
use crate::text::{chars_eq, chars_of};
use vstd::prelude::*;

verus! {

/// The map that inserting the entries of `es`, in order, into an empty map gives.
pub open spec fn entries_map<V>(es: Seq<(Seq<char>, V)>) -> Map<Seq<char>, V>
    decreases es.len(),
{
    if es.len() == 0 {
        Map::empty()
    } else {
        entries_map(es.drop_last()).insert(es.last().0, es.last().1)
    }
}

/// The entries of a table, keys taken by their text.
pub open spec fn pairs_view<V>(s: Seq<(String, V)>) -> Seq<(Seq<char>, V)> {
    s.map_values(|p: (String, V)| (p.0@, p.1))
}

/// No key occurs twice.
pub open spec fn distinct_keys<V>(s: Seq<(Seq<char>, V)>) -> bool {
    forall|i: int, j: int| 0 <= i < j < s.len() ==> #[trigger] s[i].0 != #[trigger] s[j].0
}

/// With distinct keys, the map holds exactly the entries.
pub proof fn lemma_entries_map_distinct<V>(s: Seq<(Seq<char>, V)>)
    requires
        distinct_keys(s),
    ensures
        forall|j: int|
            0 <= j < s.len() ==> #[trigger] entries_map(s).contains_key(s[j].0) && entries_map(
                s,
            )[s[j].0] == s[j].1,
        forall|k: Seq<char>|
            #[trigger] entries_map(s).contains_key(k) ==> exists|j: int|
                0 <= j < s.len() && s[j].0 == k,
    decreases s.len(),
{
    if s.len() > 0 {
        let t = s.drop_last();
        assert forall|i: int, j: int| 0 <= i < j < t.len() implies #[trigger] t[i].0 != #[trigger] t[j].0 by {
            assert(s[i].0 != s[j].0);
        }
        lemma_entries_map_distinct(t);
        assert forall|j: int| 0 <= j < s.len() implies #[trigger] entries_map(s).contains_key(
            s[j].0,
        ) && entries_map(s)[s[j].0] == s[j].1 by {
            assert(entries_map(s) == entries_map(t).insert(s.last().0, s.last().1));
            if j < s.len() - 1 {
                assert(t[j] == s[j]);
                assert(entries_map(t).contains_key(t[j].0));
                assert(s[j].0 != s[s.len() - 1].0);
            }
        }
        assert forall|k: Seq<char>| #[trigger] entries_map(s).contains_key(k) implies exists|j: int|
            0 <= j < s.len() && s[j].0 == k by {
            if k != s.last().0 {
                assert(entries_map(t).contains_key(k));
                let j = choose|j: int| 0 <= j < t.len() && t[j].0 == k;
                assert(s[j] == t[j]);
            }
        }
    }
}

proof fn lemma_entries_map_update<V>(s: Seq<(Seq<char>, V)>, j: int, v: V)
    requires
        distinct_keys(s),
        0 <= j < s.len(),
    ensures
        entries_map(s.update(j, (s[j].0, v))) == entries_map(s).insert(s[j].0, v),
    decreases s.len(),
{
    let k = s[j].0;
    let u = s.update(j, (k, v));
    if j == s.len() - 1 {
        assert(u.drop_last() =~= s.drop_last());
        assert(entries_map(u) =~= entries_map(s).insert(k, v));
    } else {
        let t = s.drop_last();
        assert forall|a: int, b: int| 0 <= a < b < t.len() implies #[trigger] t[a].0 != #[trigger] t[b].0 by {
            assert(s[a].0 != s[b].0);
        }
        lemma_entries_map_update(t, j, v);
        assert(u.drop_last() =~= t.update(j, (k, v)));
        assert(s.last().0 != k);
        assert(entries_map(u) =~= entries_map(s).insert(k, v));
    }
}

/// Sets `key` to `value`: replaces the entry with that key, or adds one.
pub fn upsert<V: Copy>(table: &mut Vec<(String, V)>, key: String, value: V)
    requires
        distinct_keys(pairs_view(old(table)@)),
    ensures
        distinct_keys(pairs_view(final(table)@)),
        entries_map(pairs_view(final(table)@)) == entries_map(pairs_view(old(table)@)).insert(
            key@,
            value,
        ),
{
    let k = chars_of(key.as_str());
    let ghost before = pairs_view(table@);
    let mut i: usize = 0;
    while i < table.len()
        invariant
            i <= table.len(),
            k@ == key@,
            before == pairs_view(table@),
            before == pairs_view(old(table)@),
            distinct_keys(before),
            forall|j: int| 0 <= j < i ==> #[trigger] before[j].0 != key@,
        decreases table.len() - i,
    {
        let ki = chars_of(table[i].0.as_str());
        if chars_eq(ki.as_slice(), k.as_slice()) {
            assert(before[i as int].0 == key@);
            let ghost u = before.update(i as int, (key@, value));
            proof {
                lemma_entries_map_update(before, i as int, value);
            }
            table.set(i, (key, value));
            proof {
                assert(pairs_view(table@) =~= u);
                assert(u == before.update(i as int, (before[i as int].0, value)));
                assert(entries_map(pairs_view(table@)) == entries_map(before).insert(key@, value));
                assert forall|a: int, b: int| 0 <= a < b < u.len() implies #[trigger] u[a].0
                    != #[trigger] u[b].0 by {
                    assert(before[a].0 != before[b].0);
                }
            }
            return;
        }
        i = i + 1;
    }
    table.push((key, value));
    proof {
        let p = pairs_view(table@);
        assert(p =~= before.push((key@, value)));
        assert(p.drop_last() =~= before);
        assert forall|a: int, b: int| 0 <= a < b < p.len() implies #[trigger] p[a].0
            != #[trigger] p[b].0 by {
            if b < before.len() {
                assert(before[a].0 != before[b].0);
            } else {
                assert(before[a].0 != key@);
            }
        }
    }
}

/// The value that `table` holds for `key`, if any.
pub fn lookup<V: Copy>(table: &Vec<(String, V)>, key: &str) -> (r: Option<V>)
    requires
        distinct_keys(pairs_view(table@)),
    ensures
        r == (if entries_map(pairs_view(table@)).contains_key(key@) {
            Some(entries_map(pairs_view(table@))[key@])
        } else {
            None
        }),
{
    let ghost s = pairs_view(table@);
    proof {
        lemma_entries_map_distinct(s);
    }
    let k = chars_of(key);
    let mut i: usize = 0;
    while i < table.len()
        invariant
            i <= table.len(),
            k@ == key@,
            s == pairs_view(table@),
            distinct_keys(s),
            forall|j: int| 0 <= j < i ==> #[trigger] s[j].0 != key@,
        decreases table.len() - i,
    {
        let ki = chars_of(table[i].0.as_str());
        if chars_eq(ki.as_slice(), k.as_slice()) {
            proof {
                lemma_entries_map_distinct(s);
                assert(s[i as int].0 == key@);
                assert(entries_map(s).contains_key(s[i as int].0));
            }
            return Some(table[i].1);
        }
        i = i + 1;
    }
    proof {
        if entries_map(s).contains_key(key@) {
            let j = choose|j: int| 0 <= j < s.len() && s[j].0 == key@;
            assert(s[j].0 != key@);
        }
    }
    None
}


/// The entries of a text table, keys and values taken by their text.
pub open spec fn text_pairs_view(s: Seq<(String, String)>) -> Seq<(Seq<char>, Seq<char>)> {
    s.map_values(|p: (String, String)| (p.0@, p.1@))
}

/// Sets `key` to `value` in a text table.
pub fn upsert_text(table: &mut Vec<(String, String)>, key: String, value: String)
    requires
        distinct_keys(text_pairs_view(old(table)@)),
    ensures
        distinct_keys(text_pairs_view(final(table)@)),
        entries_map(text_pairs_view(final(table)@)) == entries_map(
            text_pairs_view(old(table)@),
        ).insert(key@, value@),
{
    let k = chars_of(key.as_str());
    let ghost before = text_pairs_view(table@);
    let ghost kv = key@;
    let ghost vv = value@;
    let mut i: usize = 0;
    while i < table.len()
        invariant
            i <= table.len(),
            k@ == kv,
            kv == key@,
            vv == value@,
            before == text_pairs_view(table@),
            before == text_pairs_view(old(table)@),
            distinct_keys(before),
            forall|j: int| 0 <= j < i ==> #[trigger] before[j].0 != kv,
        decreases table.len() - i,
    {
        let ki = chars_of(table[i].0.as_str());
        if chars_eq(ki.as_slice(), k.as_slice()) {
            assert(before[i as int].0 == kv);
            let ghost u = before.update(i as int, (kv, vv));
            proof {
                lemma_entries_map_update(before, i as int, vv);
            }
            let ghost old_t = table@;
            let pair = (key, value);
            assert(pair.0@ == kv && pair.1@ == vv);
            table.set(i, pair);
            proof {
                assert(table@ == old_t.update(i as int, pair));
                assert forall|j: int| 0 <= j < u.len() implies text_pairs_view(table@)[j] == u[j] by {
                    if j != i {
                        assert(table@[j] == old_t[j]);
                    }
                }
                assert(text_pairs_view(table@) =~= u);
                assert(u == before.update(i as int, (before[i as int].0, vv)));
                assert forall|a: int, b: int| 0 <= a < b < u.len() implies #[trigger] u[a].0
                    != #[trigger] u[b].0 by {
                    assert(before[a].0 != before[b].0);
                }
            }
            return;
        }
        i = i + 1;
    }
    table.push((key, value));
    proof {
        let p = text_pairs_view(table@);
        assert(p =~= before.push((kv, vv)));
        assert(p.drop_last() =~= before);
        assert forall|a: int, b: int| 0 <= a < b < p.len() implies #[trigger] p[a].0
            != #[trigger] p[b].0 by {
            if b < before.len() {
                assert(before[a].0 != before[b].0);
            } else {
                assert(before[a].0 != kv);
            }
        }
    }
}

/// The text that a text table holds for `key`, if any.
pub fn lookup_text(table: &Vec<(String, String)>, key: &str) -> (r: Option<String>)
    requires
        distinct_keys(text_pairs_view(table@)),
    ensures
        match r {
            Some(v) => entries_map(text_pairs_view(table@)).contains_key(key@) && v@
                == entries_map(text_pairs_view(table@))[key@],
            None => !entries_map(text_pairs_view(table@)).contains_key(key@),
        },
{
    let ghost s = text_pairs_view(table@);
    let k = chars_of(key);
    let mut i: usize = 0;
    while i < table.len()
        invariant
            i <= table.len(),
            k@ == key@,
            s == text_pairs_view(table@),
            distinct_keys(s),
            forall|j: int| 0 <= j < i ==> #[trigger] s[j].0 != key@,
        decreases table.len() - i,
    {
        let ki = chars_of(table[i].0.as_str());
        if chars_eq(ki.as_slice(), k.as_slice()) {
            proof {
                lemma_entries_map_distinct(s);
                assert(s[i as int].0 == key@);
                assert(entries_map(s).contains_key(s[i as int].0));
            }
            return Some(table[i].1.clone());
        }
        i = i + 1;
    }
    proof {
        lemma_entries_map_distinct(s);
        if entries_map(s).contains_key(key@) {
            let j = choose|j: int| 0 <= j < s.len() && s[j].0 == key@;
            assert(s[j].0 != key@);
        }
    }
    None
}

} // verus!
