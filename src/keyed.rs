//! Tables keyed by strings, held as vectors of pairs with distinct keys.

use vstd::prelude::*;

verus! {

/// No two entries of `s` have the same key.
pub open spec fn keys_distinct<V>(s: Seq<(String, V)>) -> bool {
    forall|i: int, j: int|
        0 <= i < s.len() && 0 <= j < s.len() && i != j ==> #[trigger] s[i].0@ != #[trigger] s[j].0@
}

/// The map that a table of pairs stands for; a later entry overrides an earlier one.
pub open spec fn table_view<V>(s: Seq<(String, V)>) -> Map<Seq<char>, V>
    decreases s.len(),
{
    if s.len() == 0 {
        Map::empty()
    } else {
        table_view(s.drop_last()).insert(s.last().0@, s.last().1)
    }
}

/// The value at `k`, if any.
pub open spec fn lookup<K, V>(m: Map<K, V>, k: K) -> Option<V> {
    if m.contains_key(k) {
        Some(m[k])
    } else {
        None
    }
}

pub proof fn lemma_table_contains<V>(s: Seq<(String, V)>, k: Seq<char>)
    ensures
        table_view(s).contains_key(k) <==> exists|i: int| 0 <= i < s.len() && s[i].0@ == k,
    decreases s.len(),
{
    if s.len() > 0 {
        let d = s.drop_last();
        lemma_table_contains(d, k);
        if table_view(d).contains_key(k) {
            let i = choose|i: int| 0 <= i < d.len() && d[i].0@ == k;
            assert(s[i].0@ == k);
        }
        if exists|i: int| 0 <= i < s.len() && s[i].0@ == k {
            let i = choose|i: int| 0 <= i < s.len() && s[i].0@ == k;
            if i < s.len() - 1 {
                assert(d[i].0@ == k);
            }
        }
    }
}

pub proof fn lemma_table_index<V>(s: Seq<(String, V)>, i: int)
    requires
        keys_distinct(s),
        0 <= i < s.len(),
    ensures
        table_view(s).contains_key(s[i].0@),
        table_view(s)[s[i].0@] == s[i].1,
    decreases s.len(),
{
    if i < s.len() - 1 {
        let d = s.drop_last();
        assert(keys_distinct(d)) by {
            assert forall|a: int, b: int|
                0 <= a < d.len() && 0 <= b < d.len() && a != b implies #[trigger] d[a].0@
                != #[trigger] d[b].0@ by {
                assert(s[a].0@ != s[b].0@);
            }
        }
        lemma_table_index(d, i);
        assert(s[s.len() - 1].0@ != s[i].0@);
    }
}

pub proof fn lemma_table_push<V>(s: Seq<(String, V)>, p: (String, V))
    requires
        keys_distinct(s),
        !table_view(s).contains_key(p.0@),
    ensures
        keys_distinct(s.push(p)),
        table_view(s.push(p)) == table_view(s).insert(p.0@, p.1),
{
    lemma_table_contains(s, p.0@);
    assert(s.push(p).drop_last() =~= s);
    let t = s.push(p);
    assert forall|a: int, b: int|
        0 <= a < t.len() && 0 <= b < t.len() && a != b implies #[trigger] t[a].0@
        != #[trigger] t[b].0@ by {
        if a < s.len() && b < s.len() {
            assert(s[a].0@ != s[b].0@);
        } else if a < s.len() {
            assert(s[a].0@ != p.0@);
        } else if b < s.len() {
            assert(s[b].0@ != p.0@);
        }
    }
}

pub proof fn lemma_table_update<V>(s: Seq<(String, V)>, i: int, p: (String, V))
    requires
        keys_distinct(s),
        0 <= i < s.len(),
        p.0@ == s[i].0@,
    ensures
        keys_distinct(s.update(i, p)),
        table_view(s.update(i, p)) == table_view(s).insert(p.0@, p.1),
    decreases s.len(),
{
    let t = s.update(i, p);
    let d = s.drop_last();
    assert forall|a: int, b: int|
        0 <= a < t.len() && 0 <= b < t.len() && a != b implies #[trigger] t[a].0@
        != #[trigger] t[b].0@ by {
        assert(s[a].0@ != s[b].0@);
    }
    assert(keys_distinct(d)) by {
        assert forall|a: int, b: int|
            0 <= a < d.len() && 0 <= b < d.len() && a != b implies #[trigger] d[a].0@
            != #[trigger] d[b].0@ by {
            assert(s[a].0@ != s[b].0@);
        }
    }
    if i == s.len() - 1 {
        assert(t.drop_last() =~= d);
    } else {
        lemma_table_update(d, i, p);
        assert(t.drop_last() =~= d.update(i, p));
        assert(s.last().0@ != p.0@);
    }
    assert(table_view(t) =~= table_view(s).insert(p.0@, p.1));
}

pub proof fn lemma_table_remove<V>(s: Seq<(String, V)>, i: int)
    requires
        keys_distinct(s),
        0 <= i < s.len(),
    ensures
        keys_distinct(s.remove(i)),
        table_view(s.remove(i)) == table_view(s).remove(s[i].0@),
    decreases s.len(),
{
    let t = s.remove(i);
    let d = s.drop_last();
    let k = s[i].0@;
    assert forall|a: int, b: int|
        0 <= a < t.len() && 0 <= b < t.len() && a != b implies #[trigger] t[a].0@
        != #[trigger] t[b].0@ by {
        let sa = if a < i { a } else { a + 1 };
        let sb = if b < i { b } else { b + 1 };
        assert(t[a] == s[sa] && t[b] == s[sb]);
        assert(s[sa].0@ != s[sb].0@);
    }
    assert(keys_distinct(d)) by {
        assert forall|a: int, b: int|
            0 <= a < d.len() && 0 <= b < d.len() && a != b implies #[trigger] d[a].0@
            != #[trigger] d[b].0@ by {
            assert(s[a].0@ != s[b].0@);
        }
    }
    if i == s.len() - 1 {
        assert(t =~= d);
        lemma_table_contains(d, k);
        assert forall|j: int| 0 <= j < d.len() implies d[j].0@ != k by {
            assert(s[j].0@ != s[i].0@);
        }
        assert(table_view(t) =~= table_view(s).remove(k));
    } else {
        lemma_table_remove(d, i);
        assert(t.drop_last() =~= d.remove(i));
        assert(t.last() == s.last());
        assert(s.last().0@ != k);
        assert(table_view(t) =~= table_view(s).remove(k));
    }
}

/// Position of the entry with key `k`.
pub fn find_key<V>(t: &Vec<(String, V)>, k: &String) -> (r: Option<usize>)
    ensures
        match r {
            Some(i) => i < t@.len() && t@[i as int].0@ == k@,
            None => forall|i: int| 0 <= i < t@.len() ==> t@[i].0@ != k@,
        },
{
    let mut i: usize = 0;
    while i < t.len()
        invariant
            i <= t@.len(),
            forall|j: int| 0 <= j < i ==> t@[j].0@ != k@,
        decreases t@.len() - i,
    {
        if t[i].0 == *k {
            return Some(i);
        }
        i = i + 1;
    }
    None
}

/// Looks `k` up and says what the table maps it to.
pub fn find_entry<V>(t: &Vec<(String, V)>, k: &String) -> (r: Option<usize>)
    requires
        keys_distinct(t@),
    ensures
        match r {
            Some(i) => i < t@.len() && t@[i as int].0@ == k@ && table_view(t@).contains_key(k@)
                && table_view(t@)[k@] == t@[i as int].1,
            None => !table_view(t@).contains_key(k@),
        },
{
    let r = find_key(t, k);
    proof {
        lemma_table_contains(t@, k@);
        if let Some(i) = r {
            lemma_table_index(t@, i as int);
        }
    }
    r
}

/// Sets the value of `k`, adding an entry where there is none.
pub fn table_insert<V>(t: &mut Vec<(String, V)>, k: String, v: V)
    requires
        keys_distinct(old(t)@),
    ensures
        keys_distinct(final(t)@),
        table_view(final(t)@) == table_view(old(t)@).insert(k@, v),
{
    match find_entry(t, &k) {
        Some(i) => {
            proof {
                lemma_table_update(t@, i as int, (k, v));
            }
            t.set(i, (k, v));
        },
        None => {
            proof {
                lemma_table_push(t@, (k, v));
            }
            t.push((k, v));
        },
    }
}

} // verus!
