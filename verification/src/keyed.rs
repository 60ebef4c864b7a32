//! Entries keyed by name, each name at most once, read as a map: what the workspace keeps
//! per scenario, per variable and per request.
use vstd::prelude::*;
use crate::loading::{
    insert_by_name, is_insert_point, lemma_insert_ordered, lemma_insert_point, ordered_by_name, text_le, text_le_exec,
};
use crate::text::eq_str;

verus! {

/// Entries keyed by name, each name at most once.
pub open spec fn keys_unique<V>(s: Seq<(String, V)>) -> bool {
    forall|i: int, j: int| 0 <= i < s.len() && 0 <= j < s.len() && i != j ==> s[i].0@ != s[j].0@
}

pub open spec fn has_key<V>(s: Seq<(String, V)>, k: Seq<char>) -> bool {
    exists|i: int| 0 <= i < s.len() && (#[trigger] s[i]).0@ == k
}

/// The entries as a map from name to the value's view.
pub open spec fn stash_view<V: DeepView>(s: Seq<(String, V)>) -> Map<Seq<char>, V::V> {
    Map::new(
        |k: Seq<char>| has_key(s, k),
        |k: Seq<char>| s[choose|i: int| 0 <= i < s.len() && (#[trigger] s[i]).0@ == k].1.deep_view(),
    )
}

pub proof fn lemma_stash_at<V: DeepView>(s: Seq<(String, V)>, i: int)
    requires
        keys_unique(s),
        0 <= i < s.len(),
    ensures
        stash_view(s).contains_key(s[i].0@),
        stash_view(s)[s[i].0@] == s[i].1.deep_view(),
{
    let k = s[i].0@;
    assert(has_key(s, k));
    let c = choose|j: int| 0 <= j < s.len() && (#[trigger] s[j]).0@ == k;
    assert(c == i);
}

pub fn stash_position<V>(entries: &Vec<(String, V)>, name: &str) -> (r: Option<usize>)
    ensures
        match r {
            Some(i) => i < entries@.len() && entries@[i as int].0@ == name@,
            None => !has_key(entries@, name@),
        },
{
    let mut i: usize = 0;
    while i < entries.len()
        invariant
            i <= entries@.len(),
            forall|j: int| 0 <= j < i ==> (#[trigger] entries@[j]).0@ != name@,
        decreases entries@.len() - i,
    {
        if eq_str(entries[i].0.as_str(), name) {
            return Some(i);
        }
        i = i + 1;
    }
    None
}

/// Takes the value kept under `name` out of the entries.
pub fn take_stashed<V: DeepView>(entries: &mut Vec<(String, V)>, name: &str) -> (r: Option<V>)
    requires
        keys_unique(old(entries)@),
    ensures
        keys_unique(final(entries)@),
        stash_view(final(entries)@) == stash_view(old(entries)@).remove(name@),
        match r {
            Some(v) => stash_view(old(entries)@).contains_key(name@) && v.deep_view() == stash_view(
                old(entries)@,
            )[name@],
            None => !stash_view(old(entries)@).contains_key(name@),
        },
{
    let ghost s = entries@;
    match stash_position(entries, name) {
        None => {
            assert(stash_view(s).remove(name@) =~= stash_view(s));
            None
        },
        Some(p) => {
            proof {
                lemma_stash_at(s, p as int);
            }
            let (_, v) = entries.remove(p);
            proof {
                let t = entries@;
                assert(t =~= s.remove(p as int));
                assert forall|a: int, b: int| 0 <= a < t.len() && 0 <= b < t.len() && a != b implies t[a].0@ != t[b].0@ by {
                    let fa = if a < p { a } else { a + 1 };
                    let fb = if b < p { b } else { b + 1 };
                    assert(t[a] == s[fa] && t[b] == s[fb]);
                }
                assert forall|k: Seq<char>| #[trigger] has_key(t, k) == (has_key(s, k) && k != name@) by {
                    if has_key(t, k) {
                        let j = choose|j: int| 0 <= j < t.len() && (#[trigger] t[j]).0@ == k;
                        let f = if j < p { j } else { j + 1 };
                        assert(s[f] == t[j]);
                        assert(f != p);
                    }
                    if has_key(s, k) && k != name@ {
                        let j = choose|j: int| 0 <= j < s.len() && (#[trigger] s[j]).0@ == k;
                        assert(j != p);
                        let g = if j < p { j } else { j - 1 };
                        assert(t[g] == s[j]);
                    }
                }
                assert forall|k: Seq<char>| #[trigger] stash_view(t).contains_key(k) implies stash_view(t)[k]
                    == stash_view(s)[k] by {
                    let j = choose|j: int| 0 <= j < t.len() && (#[trigger] t[j]).0@ == k;
                    let f = if j < p { j } else { j + 1 };
                    assert(s[f] == t[j]);
                    lemma_stash_at(t, j);
                    lemma_stash_at(s, f);
                }
                assert(stash_view(t) =~= stash_view(s).remove(name@));
            }
            Some(v)
        },
    }
}

/// Keeps `value` under `name`, in place of what was kept there.
pub fn put_stashed<V: DeepView>(entries: &mut Vec<(String, V)>, name: String, value: V)
    requires
        keys_unique(old(entries)@),
    ensures
        keys_unique(final(entries)@),
        stash_view(final(entries)@) == stash_view(old(entries)@).insert(name@, value.deep_view()),
{
    let ghost s0 = entries@;
    let _ = take_stashed(entries, name.as_str());
    let ghost s = entries@;
    let ghost n = name@;
    let ghost dv = value.deep_view();
    assert(!has_key(s, n)) by {
        if has_key(s, n) {
            let j = choose|j: int| 0 <= j < s.len() && (#[trigger] s[j]).0@ == n;
            lemma_stash_at(s, j);
        }
    }
    entries.push((name, value));
    proof {
        let t = entries@;
        assert(t =~= s.push(t[s.len() as int]));
        assert forall|a: int, b: int| 0 <= a < t.len() && 0 <= b < t.len() && a != b implies t[a].0@ != t[b].0@ by {
            if a < s.len() && b < s.len() {
                assert(t[a] == s[a] && t[b] == s[b]);
            } else if a < s.len() {
                assert(t[a] == s[a]);
            } else {
                assert(t[b] == s[b]);
            }
        }
        assert forall|k: Seq<char>| #[trigger] has_key(t, k) == (has_key(s, k) || k == n) by {
            if has_key(t, k) {
                let j = choose|j: int| 0 <= j < t.len() && (#[trigger] t[j]).0@ == k;
                if j < s.len() {
                    assert(s[j] == t[j]);
                }
            }
            if has_key(s, k) {
                let j = choose|j: int| 0 <= j < s.len() && (#[trigger] s[j]).0@ == k;
                assert(t[j] == s[j]);
            }
            if k == n {
                assert(t[s.len() as int].0@ == n);
            }
        }
        lemma_stash_at(t, s.len() as int);
        assert forall|k: Seq<char>| #[trigger] stash_view(t).contains_key(k) implies stash_view(t)[k]
            == stash_view(s).insert(n, dv)[k] by {
            let j = choose|j: int| 0 <= j < t.len() && (#[trigger] t[j]).0@ == k;
            lemma_stash_at(t, j);
            if j < s.len() {
                assert(t[j] == s[j]);
                lemma_stash_at(s, j);
            }
        }
        assert(stash_view(t) =~= stash_view(s).insert(n, dv));
        assert(stash_view(s0).remove(n).insert(n, dv) =~= stash_view(s0).insert(n, dv));
    }
}

/// Pairs whose first parts differ.
pub open spec fn pairs_unique(s: Seq<(Seq<char>, Seq<char>)>) -> bool {
    forall|i: int, j: int| 0 <= i < s.len() && 0 <= j < s.len() && i != j ==> s[i].0 != s[j].0
}

pub proof fn lemma_pairs_unique(v: Vec<(String, String)>)
    ensures
        keys_unique(v@) == pairs_unique(v.deep_view()),
{
    let d = v.deep_view();
    assert(d.len() == v@.len());
    assert forall|i: int| 0 <= i < v@.len() implies #[trigger] d[i] == (v@[i].0@, v@[i].1@) by {}
    if keys_unique(v@) {
        assert forall|i: int, j: int| 0 <= i < d.len() && 0 <= j < d.len() && i != j implies d[i].0 != d[j].0 by {
            assert(d[i] == (v@[i].0@, v@[i].1@));
            assert(d[j] == (v@[j].0@, v@[j].1@));
        }
    }
    if pairs_unique(d) {
        assert forall|i: int, j: int| 0 <= i < v@.len() && 0 <= j < v@.len() && i != j implies v@[i].0@ != v@[j].0@ by {
            assert(d[i] == (v@[i].0@, v@[i].1@));
            assert(d[j] == (v@[j].0@, v@[j].1@));
        }
    }
}

/// The entries as pairs of name and the value's view.
pub open spec fn keyed_views<V: DeepView>(s: Seq<(String, V)>) -> Seq<(Seq<char>, V::V)> {
    s.map_values(|e: (String, V)| (e.0@, e.1.deep_view()))
}

/// Puts a new name among entries ordered by name, where a map keyed by name keeps it.
pub fn insert_ordered<V: DeepView>(entries: &mut Vec<(String, V)>, name: String, value: V)
    requires
        keys_unique(old(entries)@),
        !has_key(old(entries)@, name@),
        ordered_by_name(keyed_views(old(entries)@)),
    ensures
        keys_unique(final(entries)@),
        ordered_by_name(keyed_views(final(entries)@)),
        keyed_views(final(entries)@) == insert_by_name(keyed_views(old(entries)@), (name@, value.deep_view())),
        stash_view(final(entries)@) == stash_view(old(entries)@).insert(name@, value.deep_view()),
{
    let ghost s = entries@;
    let ghost ov = keyed_views(s);
    let ghost xv = (name@, value.deep_view());
    let mut k: usize = 0;
    while k < entries.len() && !text_le_exec(name.as_str(), entries[k].0.as_str())
        invariant
            k <= s.len(),
            entries@ == s,
            ov == keyed_views(s),
            xv.0 == name@,
            forall|j: int| 0 <= j < k ==> !text_le(xv.0, #[trigger] ov[j].0),
        decreases s.len() - k,
    {
        assert(ov[k as int].0 == s[k as int].0@);
        k = k + 1;
    }
    proof {
        if k < s.len() {
            assert(ov[k as int].0 == s[k as int].0@);
        }
        assert(is_insert_point(ov, xv.0, k as int));
        lemma_insert_point(ov, xv, k as int);
        lemma_insert_ordered(ov, xv);
    }
    entries.insert(k, (name, value));
    proof {
        let t = entries@;
        assert(t =~= s.insert(k as int, t[k as int]));
        assert(keyed_views(t) =~= ov.insert(k as int, xv));
        assert forall|a: int, b: int| 0 <= a < t.len() && 0 <= b < t.len() && a != b implies t[a].0@ != t[b].0@ by {
            let fa = if a < k { a } else { a - 1 };
            let fb = if b < k { b } else { b - 1 };
            if a != k as int && b != k as int {
                assert(t[a] == s[fa] && t[b] == s[fb]);
            } else if a == k as int {
                assert(t[b] == s[fb]);
            } else {
                assert(t[a] == s[fa]);
            }
        }
        assert forall|key: Seq<char>| #[trigger] has_key(t, key) == (has_key(s, key) || key == name@) by {
            if has_key(t, key) {
                let j = choose|j: int| 0 <= j < t.len() && (#[trigger] t[j]).0@ == key;
                if j < k {
                    assert(s[j] == t[j]);
                } else if j > k {
                    assert(s[j - 1] == t[j]);
                }
            }
            if has_key(s, key) {
                let j = choose|j: int| 0 <= j < s.len() && (#[trigger] s[j]).0@ == key;
                if j < k {
                    assert(t[j] == s[j]);
                } else {
                    assert(t[j + 1] == s[j]);
                }
            }
            if key == name@ {
                assert(t[k as int].0@ == key);
            }
        }
        lemma_stash_at(t, k as int);
        assert forall|key: Seq<char>| #[trigger] stash_view(t).contains_key(key) implies stash_view(t)[key]
            == stash_view(s).insert(name@, xv.1)[key] by {
            let j = choose|j: int| 0 <= j < t.len() && (#[trigger] t[j]).0@ == key;
            lemma_stash_at(t, j);
            if j < k {
                assert(t[j] == s[j]);
                lemma_stash_at(s, j);
            } else if j > k {
                assert(t[j] == s[j - 1]);
                lemma_stash_at(s, j - 1);
            }
        }
        assert(stash_view(t) =~= stash_view(s).insert(name@, xv.1));
    }
}

} // verus!
