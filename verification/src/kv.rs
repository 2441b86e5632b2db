//! Maps from strings, kept as vectors sorted by key with no key twice.
//!
//! They stand where an ordered map keyed by strings would stand, and iterate in
//! the same order: by key, comparing characters by code point.

use vstd::prelude::*;

verus! {

/// Strict lexicographic order on character sequences.
pub open spec fn str_lt(a: Seq<char>, b: Seq<char>) -> bool
    decreases a.len(),
{
    if a.len() == 0 {
        b.len() > 0
    } else if b.len() == 0 {
        false
    } else if a[0] < b[0] {
        true
    } else if a[0] > b[0] {
        false
    } else {
        str_lt(a.drop_first(), b.drop_first())
    }
}

/// The keys are strictly increasing.
pub open spec fn sorted_keys<T>(m: Seq<(String, T)>) -> bool {
    forall|i: int, j: int| 0 <= i < j < m.len() ==> str_lt(#[trigger] m[i].0@, #[trigger] m[j].0@)
}

/// Index of the entry whose key is `k`.
pub open spec fn kv_find_from<T>(m: Seq<(String, T)>, k: Seq<char>, i: int) -> Option<int>
    decreases m.len() - i,
{
    if i < 0 || i >= m.len() {
        None
    } else if m[i].0@ == k {
        Some(i)
    } else {
        kv_find_from(m, k, i + 1)
    }
}

/// Index of the entry whose key is `k`.
pub open spec fn kv_find<T>(m: Seq<(String, T)>, k: Seq<char>) -> Option<int> {
    kv_find_from(m, k, 0)
}

/// The value stored under `k`.
pub open spec fn kv_get<T>(m: Seq<(String, T)>, k: Seq<char>) -> Option<T> {
    match kv_find(m, k) {
        Some(i) => Some(m[i].1),
        None => None,
    }
}

/// The keys, as character sequences.
pub open spec fn kv_keys<T>(m: Seq<(String, T)>) -> Seq<Seq<char>> {
    m.map_values(|e: (String, T)| e.0@)
}

// ---------------------------------------------------------------------------
// Order lemmas
// ---------------------------------------------------------------------------

/// `str_lt` is irreflexive.
pub proof fn lemma_str_lt_irrefl(a: Seq<char>)
    ensures
        !str_lt(a, a),
    decreases a.len(),
{
    if a.len() > 0 {
        lemma_str_lt_irrefl(a.drop_first());
    }
}

/// Two different sequences are ordered one way or the other.
pub proof fn lemma_str_lt_total(a: Seq<char>, b: Seq<char>)
    ensures
        a == b || str_lt(a, b) || str_lt(b, a),
    decreases a.len(),
{
    if a.len() > 0 && b.len() > 0 && a[0] == b[0] {
        lemma_str_lt_total(a.drop_first(), b.drop_first());
        if a.drop_first() == b.drop_first() {
            assert(a =~= seq![a[0]] + a.drop_first());
            assert(b =~= seq![b[0]] + b.drop_first());
        }
    } else if a.len() == 0 && b.len() == 0 {
        assert(a =~= b);
    }
}

/// `str_lt` is asymmetric.
pub proof fn lemma_str_lt_asym(a: Seq<char>, b: Seq<char>)
    ensures
        !(str_lt(a, b) && str_lt(b, a)),
    decreases a.len(),
{
    if a.len() > 0 && b.len() > 0 && a[0] == b[0] {
        lemma_str_lt_asym(a.drop_first(), b.drop_first());
    }
}

/// `str_lt` is transitive.
pub proof fn lemma_str_lt_trans(a: Seq<char>, b: Seq<char>, c: Seq<char>)
    requires
        str_lt(a, b),
        str_lt(b, c),
    ensures
        str_lt(a, c),
    decreases a.len(),
{
    if a.len() > 0 && b.len() > 0 && c.len() > 0 && a[0] == b[0] && b[0] == c[0] {
        lemma_str_lt_trans(a.drop_first(), b.drop_first(), c.drop_first());
    }
}

proof fn lemma_kv_find_from<T>(m: Seq<(String, T)>, k: Seq<char>, i: int)
    requires
        0 <= i,
    ensures
        match kv_find_from(m, k, i) {
            Some(j) => i <= j < m.len() && m[j].0@ == k && forall|x: int|
                i <= x < j ==> m[x].0@ != k,
            None => forall|x: int| i <= x < m.len() ==> m[x].0@ != k,
        },
    decreases m.len() - i,
{
    if i < m.len() && m[i].0@ != k {
        lemma_kv_find_from(m, k, i + 1);
    }
}

/// What `kv_find` gives, stated over positions.
pub proof fn lemma_kv_find<T>(m: Seq<(String, T)>, k: Seq<char>)
    ensures
        match kv_find(m, k) {
            Some(j) => 0 <= j < m.len() && m[j].0@ == k && forall|x: int| 0 <= x < j ==> m[x].0@ != k,
            None => forall|x: int| 0 <= x < m.len() ==> m[x].0@ != k,
        },
{
    lemma_kv_find_from(m, k, 0);
}

/// In a sorted map, an entry's own key finds that entry.
pub proof fn lemma_kv_find_sorted<T>(m: Seq<(String, T)>, i: int)
    requires
        sorted_keys(m),
        0 <= i < m.len(),
    ensures
        kv_find(m, m[i].0@) == Some(i),
{
    lemma_kv_find(m, m[i].0@);
    match kv_find(m, m[i].0@) {
        Some(j) => {
            if j < i {
                lemma_str_lt_irrefl(m[i].0@);
                assert(str_lt(m[j].0@, m[i].0@));
            }
        },
        None => {},
    }
}

// ---------------------------------------------------------------------------
// Executable operations
// ---------------------------------------------------------------------------

/// Whether `a` sorts strictly before `b`.
pub fn str_lt_exec(a: &[char], b: &[char]) -> (r: bool)
    ensures
        r == str_lt(a@, b@),
{
    let mut i: usize = 0;
    assert(a@.skip(0) =~= a@);
    assert(b@.skip(0) =~= b@);
    while i < a.len() && i < b.len()
        invariant
            i <= a.len(),
            i <= b.len(),
            str_lt(a@, b@) == str_lt(a@.skip(i as int), b@.skip(i as int)),
        decreases a.len() - i,
    {
        if a[i] < b[i] {
            return true;
        }
        if a[i] > b[i] {
            return false;
        }
        assert(a@.skip(i as int).drop_first() =~= a@.skip(i + 1));
        assert(b@.skip(i as int).drop_first() =~= b@.skip(i + 1));
        i = i + 1;
    }
    assert(i == a.len() ==> a@.skip(i as int).len() == 0);
    assert(i == b.len() ==> b@.skip(i as int).len() == 0);
    i == a.len() && i < b.len()
}

/// Index of the entry whose key is `key`.
pub fn kv_find_exec<T>(m: &Vec<(String, T)>, key: &str) -> (r: Option<usize>)
    ensures
        match r {
            Some(i) => kv_find(m@, key@) == Some(i as int),
            None => kv_find(m@, key@) is None,
        },
{
    let mut i: usize = 0;
    while i < m.len()
        invariant
            i <= m.len(),
            kv_find(m@, key@) == kv_find_from(m@, key@, i as int),
        decreases m.len() - i,
    {
        if crate::text::str_eq(m[i].0.as_str(), key) {
            return Some(i);
        }
        i = i + 1;
    }
    None
}

/// Stores `v` under `k`, keeping the keys sorted.
pub fn kv_insert<T>(m: &mut Vec<(String, T)>, k: String, v: T)
    requires
        sorted_keys(old(m)@),
    ensures
        sorted_keys(final(m)@),
        kv_get(final(m)@, k@) == Some(v),
        forall|k2: Seq<char>| k2 != k@ ==> #[trigger] kv_get(final(m)@, k2) == kv_get(old(m)@, k2),
{
    let kc = crate::text::chars_of(k.as_str());
    let mut p: usize = 0;
    while p < m.len()
        invariant
            p <= m.len(),
            kc@ == k@,
            m@ == old(m)@,
            sorted_keys(m@),
            forall|i: int| 0 <= i < p ==> str_lt(#[trigger] m@[i].0@, k@),
        ensures
            p <= m.len(),
            m@ == old(m)@,
            forall|i: int| 0 <= i < p ==> str_lt(#[trigger] m@[i].0@, k@),
            p < m.len() ==> !str_lt(m@[p as int].0@, k@),
        decreases m.len() - p,
    {
        let cur = crate::text::chars_of(m[p].0.as_str());
        if !str_lt_exec(&cur, &kc) {
            break;
        }
        p = p + 1;
    }
    let ghost m0 = m@;
    let same = p < m.len() && crate::text::str_eq(m[p].0.as_str(), k.as_str());
    proof {
        lemma_kv_find(m0, k@);
        // Every entry before `p` sorts before `k`; every entry from `p` on does not.
        assert forall|i: int| p <= i < m0.len() implies !str_lt(#[trigger] m0[i].0@, k@) by {
            if i > p {
                assert(str_lt(m0[p as int].0@, m0[i].0@));
                if str_lt(m0[i].0@, k@) {
                    lemma_str_lt_trans(m0[p as int].0@, m0[i].0@, k@);
                }
            }
        }
    }
    if same {
        m.set(p, (k, v));
        proof {
            let m1 = m@;
            assert forall|i: int, j: int| 0 <= i < j < m1.len() implies str_lt(
                #[trigger] m1[i].0@,
                #[trigger] m1[j].0@,
            ) by {
                assert(m0[p as int].0@ == m1[p as int].0@);
            }
            assert forall|i: int| 0 <= i < m0.len() && i != p implies m0[i].0@ != k@ by {
                if i < p {
                    lemma_str_lt_irrefl(k@);
                } else {
                    assert(str_lt(m0[p as int].0@, m0[i].0@));
                    lemma_str_lt_irrefl(k@);
                }
            }
            lemma_kv_find(m1, k@);
            assert forall|k2: Seq<char>| k2 != k@ implies #[trigger] kv_get(m1, k2) == kv_get(
                m0,
                k2,
            ) by {
                lemma_kv_find(m0, k2);
                lemma_kv_find(m1, k2);
                if kv_find(m0, k2) is Some {
                    assert(m1[kv_find(m0, k2).unwrap()] == m0[kv_find(m0, k2).unwrap()]);
                }
                if kv_find(m1, k2) is Some {
                    assert(m1[kv_find(m1, k2).unwrap()] == m0[kv_find(m1, k2).unwrap()]);
                }
            }
            assert(kv_find(m1, k@) == Some(p as int)) by {
                lemma_kv_find_sorted(m1, p as int);
            }
        }
    } else {
        proof {
            if p < m0.len() {
                lemma_str_lt_total(m0[p as int].0@, k@);
            }
            assert forall|i: int| 0 <= i < m0.len() implies m0[i].0@ != k@ by {
                if i < p {
                    lemma_str_lt_irrefl(k@);
                } else {
                    lemma_str_lt_total(m0[p as int].0@, k@);
                    if i > p {
                        assert(str_lt(m0[p as int].0@, m0[i].0@));
                        lemma_str_lt_trans(k@, m0[p as int].0@, m0[i].0@);
                    }
                    lemma_str_lt_irrefl(k@);
                }
            }
        }
        m.insert(p, (k, v));
        proof {
            let m1 = m@;
            assert forall|i: int, j: int| 0 <= i < j < m1.len() implies str_lt(
                #[trigger] m1[i].0@,
                #[trigger] m1[j].0@,
            ) by {
                if i < p && j == p {
                } else if i < p && j > p {
                    assert(m1[j] == m0[j - 1]);
                    lemma_str_lt_total(m0[p as int].0@, k@);
                    lemma_str_lt_trans(m1[i].0@, k@, m0[p as int].0@);
                    if j - 1 > p {
                        assert(str_lt(m0[p as int].0@, m0[j - 1].0@));
                        lemma_str_lt_trans(m1[i].0@, m0[p as int].0@, m0[j - 1].0@);
                    }
                } else if i == p {
                    assert(m1[j] == m0[j - 1]);
                    lemma_str_lt_total(m0[p as int].0@, k@);
                    if j - 1 > p {
                        assert(str_lt(m0[p as int].0@, m0[j - 1].0@));
                        lemma_str_lt_trans(k@, m0[p as int].0@, m0[j - 1].0@);
                    }
                } else if i > p {
                    assert(m1[i] == m0[i - 1]);
                    assert(m1[j] == m0[j - 1]);
                } else {
                    assert(m1[i] == m0[i]);
                    assert(m1[j] == m0[j]);
                }
            }
            lemma_kv_find_sorted(m1, p as int);
            assert forall|k2: Seq<char>| k2 != k@ implies #[trigger] kv_get(m1, k2) == kv_get(
                m0,
                k2,
            ) by {
                lemma_kv_find(m0, k2);
                lemma_kv_find(m1, k2);
                match kv_find(m0, k2) {
                    Some(x) => {
                        let y = if x < p {
                            x
                        } else {
                            x + 1
                        };
                        assert(m1[y] == m0[x]);
                        lemma_kv_find_sorted(m1, y);
                    },
                    None => {
                        if kv_find(m1, k2) is Some {
                            let y = kv_find(m1, k2).unwrap();
                            if y < p {
                                assert(m1[y] == m0[y]);
                            } else if y > p {
                                assert(m1[y] == m0[y - 1]);
                            }
                        }
                    },
                }
            }
        }
    }
}

/// The value stored under `key`.
pub fn kv_get_exec<'a, T>(m: &'a Vec<(String, T)>, key: &str) -> (r: Option<&'a T>)
    ensures
        match r {
            Some(v) => kv_get(m@, key@) == Some(*v),
            None => kv_get(m@, key@) is None,
        },
{
    proof {
        lemma_kv_find(m@, key@);
    }
    match kv_find_exec(m, key) {
        Some(i) => Some(&m[i].1),
        None => None,
    }
}

} // verus!
