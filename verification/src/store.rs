//! The key-value substrate: each table is an association list whose keys are
//! pairwise distinct, viewed in contracts as a mathematical `Map`.

use vstd::prelude::*;

verus! {

/// The map a string-keyed association list denotes (later entries win;
/// under [`skeys_unique`] there is at most one entry per key).
pub open spec fn smap_of<V>(s: Seq<(String, V)>) -> Map<Seq<char>, V>
    decreases s.len(),
{
    if s.len() == 0 {
        Map::empty()
    } else {
        smap_of(s.drop_last()).insert(s.last().0@, s.last().1)
    }
}

pub open spec fn skeys_unique<V>(s: Seq<(String, V)>) -> bool {
    forall|i: int, j: int| 0 <= i < j < s.len() ==> s[i].0@ != s[j].0@
}

/// The map a u64-keyed association list denotes.
pub open spec fn umap_of<V>(s: Seq<(u64, V)>) -> Map<u64, V>
    decreases s.len(),
{
    if s.len() == 0 {
        Map::empty()
    } else {
        umap_of(s.drop_last()).insert(s.last().0, s.last().1)
    }
}

pub open spec fn ukeys_unique<V>(s: Seq<(u64, V)>) -> bool {
    forall|i: int, j: int| 0 <= i < j < s.len() ==> s[i].0 != s[j].0
}

pub proof fn lemma_smap_contains<V>(s: Seq<(String, V)>, k: Seq<char>)
    ensures
        smap_of(s).contains_key(k) <==> exists|i: int| 0 <= i < s.len() && s[i].0@ == k,
    decreases s.len(),
{
    if s.len() > 0 {
        lemma_smap_contains(s.drop_last(), k);
        if s.last().0@ == k {
            assert(s[s.len() - 1].0@ == k);
        } else if exists|i: int| 0 <= i < s.len() && s[i].0@ == k {
            let i = choose|i: int| 0 <= i < s.len() && s[i].0@ == k;
            assert(s.drop_last()[i] == s[i]);
        }
    }
}

pub proof fn lemma_smap_at<V>(s: Seq<(String, V)>, i: int)
    requires
        skeys_unique(s),
        0 <= i < s.len(),
    ensures
        smap_of(s).contains_key(s[i].0@),
        smap_of(s)[s[i].0@] == s[i].1,
    decreases s.len(),
{
    if i < s.len() - 1 {
        assert(s.drop_last()[i] == s[i]);
        lemma_smap_at(s.drop_last(), i);
    }
}

pub proof fn lemma_smap_update<V>(s: Seq<(String, V)>, i: int, p: (String, V))
    requires
        skeys_unique(s),
        0 <= i < s.len(),
        p.0@ == s[i].0@,
    ensures
        skeys_unique(s.update(i, p)),
        smap_of(s.update(i, p)) == smap_of(s).insert(p.0@, p.1),
    decreases s.len(),
{
    let t = s.update(i, p);
    assert forall|x: int, y: int| 0 <= x < y < t.len() implies t[x].0@ != t[y].0@ by {
        assert(s[x].0@ != s[y].0@);
    }
    if i == s.len() - 1 {
        assert(t.drop_last() =~= s.drop_last());
        assert(t.last() == p);
        assert(smap_of(t) =~= smap_of(s).insert(p.0@, p.1));
    } else {
        lemma_smap_update(s.drop_last(), i, p);
        assert(t.drop_last() =~= s.drop_last().update(i, p));
        assert(t.last() == s.last());
        assert(smap_of(t) =~= smap_of(s).insert(p.0@, p.1));
    }
}

pub proof fn lemma_smap_push<V>(s: Seq<(String, V)>, p: (String, V))
    requires
        skeys_unique(s),
        forall|i: int| 0 <= i < s.len() ==> s[i].0@ != p.0@,
    ensures
        skeys_unique(s.push(p)),
        smap_of(s.push(p)) == smap_of(s).insert(p.0@, p.1),
{
    assert(s.push(p).drop_last() =~= s);
    assert(smap_of(s.push(p)) =~= smap_of(s).insert(p.0@, p.1));
}

pub proof fn lemma_umap_contains<V>(s: Seq<(u64, V)>, k: u64)
    ensures
        umap_of(s).contains_key(k) <==> exists|i: int| 0 <= i < s.len() && s[i].0 == k,
    decreases s.len(),
{
    if s.len() > 0 {
        lemma_umap_contains(s.drop_last(), k);
        if s.last().0 == k {
            assert(s[s.len() - 1].0 == k);
        } else if exists|i: int| 0 <= i < s.len() && s[i].0 == k {
            let i = choose|i: int| 0 <= i < s.len() && s[i].0 == k;
            assert(s.drop_last()[i] == s[i]);
        }
    }
}

pub proof fn lemma_umap_at<V>(s: Seq<(u64, V)>, i: int)
    requires
        ukeys_unique(s),
        0 <= i < s.len(),
    ensures
        umap_of(s).contains_key(s[i].0),
        umap_of(s)[s[i].0] == s[i].1,
    decreases s.len(),
{
    if i < s.len() - 1 {
        assert(s.drop_last()[i] == s[i]);
        lemma_umap_at(s.drop_last(), i);
    }
}

pub proof fn lemma_umap_update<V>(s: Seq<(u64, V)>, i: int, p: (u64, V))
    requires
        ukeys_unique(s),
        0 <= i < s.len(),
        p.0 == s[i].0,
    ensures
        ukeys_unique(s.update(i, p)),
        umap_of(s.update(i, p)) == umap_of(s).insert(p.0, p.1),
    decreases s.len(),
{
    let t = s.update(i, p);
    assert forall|x: int, y: int| 0 <= x < y < t.len() implies t[x].0 != t[y].0 by {
        assert(s[x].0 != s[y].0);
    }
    if i == s.len() - 1 {
        assert(t.drop_last() =~= s.drop_last());
        assert(t.last() == p);
        assert(umap_of(t) =~= umap_of(s).insert(p.0, p.1));
    } else {
        lemma_umap_update(s.drop_last(), i, p);
        assert(t.drop_last() =~= s.drop_last().update(i, p));
        assert(t.last() == s.last());
        assert(umap_of(t) =~= umap_of(s).insert(p.0, p.1));
    }
}

/// Position of the entry for key `k` in a string-keyed table, if any.
pub fn sfind<V>(table: &Vec<(String, V)>, k: &String) -> (r: Option<usize>)
    ensures
        match r {
            Some(i) => i < table@.len() && table@[i as int].0@ == k@,
            None => forall|i: int| 0 <= i < table@.len() ==> table@[i].0@ != k@,
        },
{
    let mut i: usize = 0;
    while i < table.len()
        invariant
            i <= table@.len(),
            forall|j: int| 0 <= j < i ==> table@[j].0@ != k@,
        decreases table@.len() - i,
    {
        if table[i].0.eq(k) {
            return Some(i);
        }
        i = i + 1;
    }
    None
}

/// Position of the entry for key `k` in a u64-keyed table, if any.
pub fn ufind<V>(table: &Vec<(u64, V)>, k: u64) -> (r: Option<usize>)
    ensures
        match r {
            Some(i) => i < table@.len() && table@[i as int].0 == k,
            None => forall|i: int| 0 <= i < table@.len() ==> table@[i].0 != k,
        },
{
    let mut i: usize = 0;
    while i < table.len()
        invariant
            i <= table@.len(),
            forall|j: int| 0 <= j < i ==> table@[j].0 != k,
        decreases table@.len() - i,
    {
        if table[i].0 == k {
            return Some(i);
        }
        i = i + 1;
    }
    None
}

} // verus!
