//! Organising the pages found under a manga directory: by parent directory, and by size.
use vstd::prelude::*;
use crate::paths::{parent_dir, parent_path};
use crate::types::MangaDirData;

verus! {

/// The text of each string.
pub open spec fn texts(v: Seq<String>) -> Seq<Seq<char>> {
    v.map_values(|s: String| s@)
}

/// The paths among `ps` whose parent directory is `d`, in order.
pub open spec fn paths_under(ps: Seq<String>, d: Seq<char>) -> Seq<Seq<char>>
    decreases ps.len(),
{
    if ps.len() == 0 {
        Seq::empty()
    } else if parent_dir(ps.last()@) == Some(d) {
        paths_under(ps.drop_last(), d).push(ps.last()@)
    } else {
        paths_under(ps.drop_last(), d)
    }
}

/// Pages grouped by parent directory.
pub struct DirGroups {
    pub dirs: Vec<String>,
    pub groups: Vec<Vec<String>>,
}

impl DirGroups {
    /// One group per distinct directory, none empty.
    pub open spec fn wf(&self) -> bool {
        &&& self.dirs@.len() == self.groups@.len()
        &&& forall|i: int, j: int| 0 <= i < j < self.dirs@.len() ==> #[trigger] self.dirs@[i]@ != #[trigger] self.dirs@[j]@
        &&& forall|g: int| 0 <= g < self.groups@.len() ==> (#[trigger] self.groups@[g])@.len() > 0
    }
}

/// Groups page paths by their parent directory, directories in order of first appearance and
/// pages in input order. A path without a parent is left out.
pub fn group_by_parent(paths: &Vec<String>) -> (r: DirGroups)
    ensures
        r.wf(),
        forall|g: int| 0 <= g < r.groups@.len() ==> texts(#[trigger] r.groups@[g]@) == paths_under(paths@, r.dirs@[g]@),
        forall|k: int| 0 <= k < paths@.len() && (#[trigger] parent_dir(paths@[k]@)) is Some ==>
            exists|g: int| 0 <= g < r.dirs@.len() && Some(#[trigger] r.dirs@[g]@) == parent_dir(paths@[k]@),
{
    let mut dirs: Vec<String> = Vec::new();
    let mut groups: Vec<Vec<String>> = Vec::new();
    let mut i: usize = 0;
    while i < paths.len()
        invariant
            i <= paths@.len(),
            dirs@.len() == groups@.len(),
            forall|a: int, b: int| 0 <= a < b < dirs@.len() ==> #[trigger] dirs@[a]@ != #[trigger] dirs@[b]@,
            forall|g: int| 0 <= g < groups@.len() ==> (#[trigger] groups@[g])@.len() > 0,
            forall|g: int| 0 <= g < groups@.len() ==> texts(#[trigger] groups@[g]@) == paths_under(paths@.take(i as int), dirs@[g]@),
            forall|d: Seq<char>| (forall|g: int| 0 <= g < dirs@.len() ==> #[trigger] dirs@[g]@ != d)
                ==> #[trigger] paths_under(paths@.take(i as int), d) == Seq::<Seq<char>>::empty(),
            forall|k: int| 0 <= k < i && (#[trigger] parent_dir(paths@[k]@)) is Some ==>
                exists|g: int| 0 <= g < dirs@.len() && Some(#[trigger] dirs@[g]@) == parent_dir(paths@[k]@),
        decreases paths@.len() - i,
    {
        let ghost prev = paths@.take(i as int);
        let ghost next = paths@.take(i + 1);
        assert(next.drop_last() =~= prev);
        assert(next.last() == paths@[i as int]);
        match parent_path(paths[i].as_str()) {
            None => {
                assert forall|d: Seq<char>| paths_under(next, d) == paths_under(prev, d) by {}
            },
            Some(parent) => {
                let ghost pd = parent@;
                let mut g: usize = 0;
                while g < dirs.len() && !(dirs[g] == parent)
                    invariant
                        g <= dirs@.len(),
                        pd == parent@,
                        forall|h: int| 0 <= h < g ==> #[trigger] dirs@[h]@ != pd,
                    decreases dirs@.len() - g,
                {
                    g = g + 1;
                }
                if g < dirs.len() {
                    let ghost before = groups@[g as int]@;
                    let mut grp = Vec::new();
                    std::mem::swap(&mut grp, &mut groups[g]);
                    grp.push(paths[i].clone());
                    std::mem::swap(&mut grp, &mut groups[g]);
                    proof {
                        assert(groups@[g as int]@ == before.push(paths@[i as int]));
                        assert(texts(before.push(paths@[i as int])) =~= texts(before).push(paths@[i as int]@));
                        assert forall|h: int| 0 <= h < groups@.len() implies texts(#[trigger] groups@[h]@) == paths_under(next, dirs@[h]@) by {
                            if h != g {
                                assert(dirs@[h]@ != pd);
                            }
                        }
                        assert forall|d: Seq<char>| (forall|h: int| 0 <= h < dirs@.len() ==> #[trigger] dirs@[h]@ != d)
                            implies #[trigger] paths_under(next, d) == Seq::<Seq<char>>::empty() by {
                            assert(dirs@[g as int]@ != d);
                            assert(paths_under(next, d) == paths_under(prev, d));
                        }
                        assert forall|k: int| 0 <= k < i + 1 && (#[trigger] parent_dir(paths@[k]@)) is Some implies
                            exists|h: int| 0 <= h < dirs@.len() && Some(#[trigger] dirs@[h]@) == parent_dir(paths@[k]@) by {
                            if k == i {
                                assert(Some(dirs@[g as int]@) == parent_dir(paths@[k]@));
                            }
                        }
                    }
                } else {
                    let mut grp: Vec<String> = Vec::new();
                    grp.push(paths[i].clone());
                    let ghost old_dirs = dirs@;
                    dirs.push(parent);
                    groups.push(grp);
                    proof {
                        assert(paths_under(prev, pd) == Seq::<Seq<char>>::empty());
                        assert(texts(grp@) =~= seq![paths@[i as int]@]);
                        assert(paths_under(next, pd) =~= seq![paths@[i as int]@]);
                        assert forall|h: int| 0 <= h < groups@.len() implies texts(#[trigger] groups@[h]@) == paths_under(next, dirs@[h]@) by {
                            if h < g {
                                assert(old_dirs[h] == dirs@[h]);
                                assert(dirs@[h]@ != pd);
                            }
                        }
                        assert forall|a: int, b: int| 0 <= a < b < dirs@.len() implies #[trigger] dirs@[a]@ != #[trigger] dirs@[b]@ by {
                            if b == g {
                                assert(old_dirs[a] == dirs@[a]);
                            } else {
                                assert(old_dirs[a] == dirs@[a]);
                                assert(old_dirs[b] == dirs@[b]);
                            }
                        }
                        assert forall|d: Seq<char>| (forall|h: int| 0 <= h < dirs@.len() ==> #[trigger] dirs@[h]@ != d)
                            implies #[trigger] paths_under(next, d) == Seq::<Seq<char>>::empty() by {
                            assert(dirs@[g as int]@ != d);
                            assert forall|h: int| 0 <= h < old_dirs.len() implies #[trigger] old_dirs[h]@ != d by {
                                assert(old_dirs[h] == dirs@[h]);
                            }
                            assert(paths_under(next, d) == paths_under(prev, d));
                        }
                        assert forall|k: int| 0 <= k < i + 1 && (#[trigger] parent_dir(paths@[k]@)) is Some implies
                            exists|h: int| 0 <= h < dirs@.len() && Some(#[trigger] dirs@[h]@) == parent_dir(paths@[k]@) by {
                            if k == i {
                                assert(Some(dirs@[g as int]@) == parent_dir(paths@[k]@));
                            } else {
                                let h0 = choose|h: int| 0 <= h < old_dirs.len() && Some(#[trigger] old_dirs[h]@) == parent_dir(paths@[k]@);
                                assert(old_dirs[h0] == dirs@[h0]);
                            }
                        }
                    }
                }
            },
        }
        i = i + 1;
    }
    assert(paths@.take(paths@.len() as int) =~= paths@);
    DirGroups { dirs, groups }
}

/// How many times the size `(w, h)` occurs in `sizes`.
pub open spec fn occurrences(sizes: Seq<(u32, u32)>, w: u32, h: u32) -> nat
    decreases sizes.len(),
{
    if sizes.len() == 0 {
        0
    } else {
        occurrences(sizes.drop_last(), w, h) + if sizes.last() == (w, h) { 1nat } else { 0nat }
    }
}

pub proof fn lemma_occurrences_bound(sizes: Seq<(u32, u32)>, w: u32, h: u32)
    ensures
        occurrences(sizes, w, h) <= sizes.len(),
        (exists|k: int| 0 <= k < sizes.len() && sizes[k] == (w, h)) ==> occurrences(sizes, w, h) > 0,
    decreases sizes.len(),
{
    if sizes.len() > 0 {
        lemma_occurrences_bound(sizes.drop_last(), w, h);
        if exists|k: int| 0 <= k < sizes.len() && sizes[k] == (w, h) {
            let k = choose|k: int| 0 <= k < sizes.len() && sizes[k] == (w, h);
            if k < sizes.len() - 1 {
                assert(sizes.drop_last()[k] == sizes[k]);
            }
        }
    }
}

/// Some key equals `s`.
pub open spec fn covered(keys: Seq<(u32, u32)>, s: (u32, u32)) -> bool {
    exists|g: int| 0 <= g < keys.len() && keys[g] == s
}

/// Some row of `out` has the key `k`.
pub open spec fn has_key(out: Seq<MangaDirData>, k: (u32, u32)) -> bool {
    exists|p: int| 0 <= p < out.len() && key_of(out[p]) == k
}

/// Some key among the first `g` is `k`, with count `c`.
pub open spec fn listed(keys: Seq<(u32, u32)>, counts: Seq<u32>, g: int, k: (u32, u32), c: u32) -> bool {
    exists|q: int| 0 <= q < g && keys[q] == k && counts[q] == c
}

/// The entry key of a size row.
pub open spec fn key_of(d: MangaDirData) -> (u32, u32) {
    (d.width, d.height)
}

/// `out` lists the first `g` keys with their counts, each once, most frequent first.
pub open spec fn table_ok(out: Seq<MangaDirData>, keys: Seq<(u32, u32)>, counts: Seq<u32>, g: int) -> bool {
    &&& forall|p: int| 0 <= p < out.len() ==> #[trigger] listed(keys, counts, g, key_of(out[p]), out[p].count)
    &&& forall|q: int| 0 <= q < g ==> #[trigger] has_key(out, keys[q])
    &&& forall|p: int| 0 <= p < out.len() ==> (#[trigger] out[p]).black_background is None && out[p].white_background is None
    &&& forall|a: int, b: int| 0 <= a < b < out.len() ==> (#[trigger] out[a]).count >= (#[trigger] out[b]).count
    &&& forall|a: int, b: int| 0 <= a < b < out.len() ==> key_of(#[trigger] out[a]) != key_of(#[trigger] out[b])
}

proof fn lemma_insert_at(before: Seq<MangaDirData>, p: int, item: MangaDirData)
    requires
        0 <= p <= before.len(),
    ensures
        forall|a: int| 0 <= a < before.len() + 1 ==>
            #[trigger] before.insert(p, item)[a] == if a < p { before[a] } else if a == p { item } else { before[a - 1] },
{
}

proof fn lemma_insert_step(before: Seq<MangaDirData>, keys: Seq<(u32, u32)>, counts: Seq<u32>, g: int, p: int, item: MangaDirData)
    requires
        0 <= g < keys.len(),
        keys.len() == counts.len(),
        forall|a: int, b: int| 0 <= a < b < keys.len() ==> #[trigger] keys[a] != #[trigger] keys[b],
        table_ok(before, keys, counts, g),
        0 <= p <= before.len(),
        forall|a: int| 0 <= a < p ==> (#[trigger] before[a]).count >= item.count,
        p < before.len() ==> before[p].count < item.count,
        key_of(item) == keys[g],
        item.count == counts[g],
        item.black_background is None && item.white_background is None,
    ensures
        table_ok(before.insert(p, item), keys, counts, g + 1),
{
    lemma_insert_at(before, p, item);
    lemma_insert_covers(before, keys, counts, g, p, item);
    lemma_insert_sorted(before, keys, counts, g, p, item);
    lemma_insert_distinct(before, keys, counts, g, p, item);
}

proof fn lemma_insert_covers(before: Seq<MangaDirData>, keys: Seq<(u32, u32)>, counts: Seq<u32>, g: int, p: int, item: MangaDirData)
    requires
        0 <= g < keys.len(),
        keys.len() == counts.len(),
        table_ok(before, keys, counts, g),
        0 <= p <= before.len(),
        key_of(item) == keys[g],
        item.count == counts[g],
    ensures
        forall|q: int| 0 <= q < g + 1 ==> #[trigger] has_key(before.insert(p, item), keys[q]),
        forall|pp: int| 0 <= pp < before.len() + 1 ==>
            #[trigger] listed(keys, counts, g + 1, key_of(before.insert(p, item)[pp]), before.insert(p, item)[pp].count),
{
    lemma_insert_at(before, p, item);
    let out = before.insert(p, item);
    assert forall|q: int| 0 <= q < g + 1 implies #[trigger] has_key(out, keys[q]) by {
        if q == g {
            assert(key_of(out[p]) == keys[q]);
        } else {
            assert(has_key(before, keys[q]));
            let p0 = choose|pp: int| 0 <= pp < before.len() && key_of(before[pp]) == keys[q];
            if p0 < p {
                assert(out[p0] == before[p0]);
            } else {
                assert(out[p0 + 1] == before[p0]);
            }
        }
    }
    assert forall|pp: int| 0 <= pp < before.len() + 1 implies #[trigger] listed(keys, counts, g + 1, key_of(out[pp]), out[pp].count) by {
        if pp == p {
            assert(keys[g] == key_of(out[pp]) && counts[g] == out[pp].count);
        } else {
            let b = if pp < p { pp } else { pp - 1 };
            assert(out[pp] == before[b]);
            assert(listed(keys, counts, g, key_of(before[b]), before[b].count));
            let q0 = choose|q: int| 0 <= q < g && keys[q] == key_of(before[b]) && counts[q] == before[b].count;
            assert(0 <= q0 < g + 1 && keys[q0] == key_of(out[pp]) && counts[q0] == out[pp].count);
        }
    }
}

proof fn lemma_insert_sorted(before: Seq<MangaDirData>, keys: Seq<(u32, u32)>, counts: Seq<u32>, g: int, p: int, item: MangaDirData)
    requires
        table_ok(before, keys, counts, g),
        0 <= p <= before.len(),
        forall|a: int| 0 <= a < p ==> (#[trigger] before[a]).count >= item.count,
        p < before.len() ==> before[p].count < item.count,
    ensures
        forall|a: int, b: int| 0 <= a < b < before.len() + 1 ==>
            (#[trigger] before.insert(p, item)[a]).count >= (#[trigger] before.insert(p, item)[b]).count,
{
    lemma_insert_at(before, p, item);
    let out = before.insert(p, item);
    assert forall|a: int, b: int| 0 <= a < b < before.len() + 1 implies (#[trigger] out[a]).count >= (#[trigger] out[b]).count by {
        if b == p {
            assert(out[a] == before[a]);
        } else if a == p {
            assert(out[b] == before[b - 1]);
            if b - 1 > p {
                assert(before[p].count >= before[b - 1].count);
            }
        } else {
            let a0 = if a < p { a } else { a - 1 };
            let b0 = if b < p { b } else { b - 1 };
            assert(out[a] == before[a0]);
            assert(out[b] == before[b0]);
        }
    }
}

proof fn lemma_insert_distinct(before: Seq<MangaDirData>, keys: Seq<(u32, u32)>, counts: Seq<u32>, g: int, p: int, item: MangaDirData)
    requires
        0 <= g < keys.len(),
        forall|a: int, b: int| 0 <= a < b < keys.len() ==> #[trigger] keys[a] != #[trigger] keys[b],
        table_ok(before, keys, counts, g),
        0 <= p <= before.len(),
        key_of(item) == keys[g],
    ensures
        forall|a: int, b: int| 0 <= a < b < before.len() + 1 ==>
            key_of(#[trigger] before.insert(p, item)[a]) != key_of(#[trigger] before.insert(p, item)[b]),
{
    lemma_insert_at(before, p, item);
    let out = before.insert(p, item);
    assert forall|a: int, b: int| 0 <= a < b < before.len() + 1 implies key_of(#[trigger] out[a]) != key_of(#[trigger] out[b]) by {
        if a == p || b == p {
            let other = if a == p { b } else { a };
            let oi = if other < p { other } else { other - 1 };
            assert(out[other] == before[oi]);
            assert(listed(keys, counts, g, key_of(before[oi]), before[oi].count));
            let q0 = choose|q: int| 0 <= q < g && keys[q] == key_of(before[oi]) && counts[q] == before[oi].count;
            assert(keys[q0] != keys[g]);
        } else {
            let a0 = if a < p { a } else { a - 1 };
            let b0 = if b < p { b } else { b - 1 };
            assert(out[a] == before[a0]);
            assert(out[b] == before[b0]);
        }
    }
}

/// The distinct sizes of a page list with how often each occurs, most frequent first; the
/// stored reference pairs are not looked up yet.
pub fn size_counts(sizes: &Vec<(u32, u32)>) -> (r: Vec<MangaDirData>)
    requires
        sizes@.len() <= u32::MAX,
    ensures
        forall|i: int| 0 <= i < r@.len() ==> (#[trigger] r@[i]).count == occurrences(sizes@, r@[i].width, r@[i].height)
            && r@[i].count > 0 && r@[i].black_background is None && r@[i].white_background is None,
        forall|i: int, j: int| 0 <= i < j < r@.len() ==> (#[trigger] r@[i]).count >= (#[trigger] r@[j]).count,
        forall|i: int, j: int| 0 <= i < j < r@.len() ==>
            ((#[trigger] r@[i]).width, r@[i].height) != ((#[trigger] r@[j]).width, r@[j].height),
        forall|k: int| 0 <= k < sizes@.len() ==> has_key(r@, #[trigger] sizes@[k]),
{
    let mut keys: Vec<(u32, u32)> = Vec::new();
    let mut counts: Vec<u32> = Vec::new();
    let mut i: usize = 0;
    while i < sizes.len()
        invariant
            sizes@.len() <= u32::MAX,
            i <= sizes@.len(),
            keys@.len() == counts@.len(),
            forall|a: int, b: int| 0 <= a < b < keys@.len() ==> #[trigger] keys@[a] != #[trigger] keys@[b],
            forall|g: int| 0 <= g < keys@.len() ==> #[trigger] counts@[g] == occurrences(sizes@.take(i as int), keys@[g].0, keys@[g].1),
            forall|g: int| 0 <= g < keys@.len() ==> #[trigger] counts@[g] > 0,
            forall|w: u32, h: u32| (forall|g: int| 0 <= g < keys@.len() ==> #[trigger] keys@[g] != (w, h))
                ==> #[trigger] occurrences(sizes@.take(i as int), w, h) == 0,
            forall|k: int| 0 <= k < i ==> #[trigger] covered(keys@, sizes@[k]),
        decreases sizes@.len() - i,
    {
        let ghost prev = sizes@.take(i as int);
        let ghost next = sizes@.take(i + 1);
        assert(next.drop_last() =~= prev);
        let s = sizes[i];
        proof {
            assert forall|g: int| 0 <= g < keys@.len() implies #[trigger] counts@[g] <= i by {
                lemma_occurrences_bound(prev, keys@[g].0, keys@[g].1);
            }
        }
        let mut g: usize = 0;
        while g < keys.len() && !(keys[g].0 == s.0 && keys[g].1 == s.1)
            invariant
                g <= keys@.len(),
                forall|h: int| 0 <= h < g ==> #[trigger] keys@[h] != s,
            decreases keys@.len() - g,
        {
            g = g + 1;
        }
        if g < keys.len() {
            let c = counts[g];
            counts.set(g, c + 1);
            proof {
                assert forall|h: int| 0 <= h < keys@.len() implies #[trigger] counts@[h] == occurrences(next, keys@[h].0, keys@[h].1) by {
                    if h != g {
                        assert(keys@[h] != keys@[g as int]);
                    }
                }
                assert forall|w: u32, h: u32| (forall|q: int| 0 <= q < keys@.len() ==> #[trigger] keys@[q] != (w, h))
                    implies #[trigger] occurrences(next, w, h) == 0 by {
                    assert(keys@[g as int] != (w, h));
                    assert(next.last() == s);
                    assert(occurrences(next, w, h) == occurrences(prev, w, h));
                }
                assert forall|k: int| 0 <= k < i + 1 implies #[trigger] covered(keys@, sizes@[k]) by {
                    if k == i {
                        assert(keys@[g as int] == sizes@[k]);
                    }
                }
            }
        } else {
            let ghost old_keys = keys@;
            let ghost old_counts = counts@;
            keys.push(s);
            counts.push(1);
            proof {
                assert(occurrences(prev, s.0, s.1) == 0);
                assert forall|h: int| 0 <= h < keys@.len() implies #[trigger] counts@[h] == occurrences(next, keys@[h].0, keys@[h].1) by {
                    if h < g {
                        assert(old_keys[h] == keys@[h]);
                        assert(keys@[h] != s);
                    }
                }
                assert forall|a: int, b: int| 0 <= a < b < keys@.len() implies #[trigger] keys@[a] != #[trigger] keys@[b] by {
                    assert(old_keys[a] == keys@[a]);
                    if b < g {
                        assert(old_keys[b] == keys@[b]);
                    }
                }
                assert forall|w: u32, h: u32| (forall|q: int| 0 <= q < keys@.len() ==> #[trigger] keys@[q] != (w, h))
                    implies #[trigger] occurrences(next, w, h) == 0 by {
                    assert(keys@[g as int] != (w, h));
                    assert forall|q: int| 0 <= q < old_keys.len() implies #[trigger] old_keys[q] != (w, h) by {
                        assert(old_keys[q] == keys@[q]);
                    }
                    assert(next.last() == s);
                    assert(occurrences(next, w, h) == occurrences(prev, w, h));
                }
                assert forall|k: int| 0 <= k < i + 1 implies #[trigger] covered(keys@, sizes@[k]) by {
                    if k == i {
                        assert(keys@[g as int] == sizes@[k]);
                    } else {
                        assert(covered(old_keys, sizes@[k]));
                        let q0 = choose|q: int| 0 <= q < old_keys.len() && old_keys[q] == sizes@[k];
                        assert(old_keys[q0] == keys@[q0]);
                    }
                }
            }
        }
        i = i + 1;
    }
    assert(sizes@.take(sizes@.len() as int) =~= sizes@);
    let mut out: Vec<MangaDirData> = Vec::new();
    let mut g: usize = 0;
    while g < keys.len()
        invariant
            g <= keys@.len(),
            keys@.len() == counts@.len(),
            forall|a: int, b: int| 0 <= a < b < keys@.len() ==> #[trigger] keys@[a] != #[trigger] keys@[b],
            forall|q: int| 0 <= q < keys@.len() ==> #[trigger] counts@[q] == occurrences(sizes@, keys@[q].0, keys@[q].1),
            forall|q: int| 0 <= q < keys@.len() ==> #[trigger] counts@[q] > 0,
            forall|k: int| 0 <= k < sizes@.len() ==> #[trigger] covered(keys@, sizes@[k]),
            table_ok(out@, keys@, counts@, g as int),
        decreases keys@.len() - g,
    {
        let c = counts[g];
        let mut p: usize = 0;
        while p < out.len() && out[p].count >= c
            invariant
                p <= out@.len(),
                forall|a: int| 0 <= a < p ==> (#[trigger] out@[a]).count >= c,
            decreases out@.len() - p,
        {
            p = p + 1;
        }
        let ghost before = out@;
        let item = MangaDirData { width: keys[g].0, height: keys[g].1, count: c, black_background: None, white_background: None };
        out.insert(p, item);
        proof {
            lemma_insert_step(before, keys@, counts@, g as int, p as int, item);
        }
        g = g + 1;
    }
    proof {
        assert forall|k: int| 0 <= k < sizes@.len() implies has_key(out@, #[trigger] sizes@[k]) by {
            assert(covered(keys@, sizes@[k]));
            let q = choose|q: int| 0 <= q < keys@.len() && keys@[q] == sizes@[k];
            assert(has_key(out@, keys@[q]));
        }
        assert forall|i: int| 0 <= i < out@.len() implies (#[trigger] out@[i]).count == occurrences(sizes@, out@[i].width, out@[i].height)
            && out@[i].count > 0 by {
            assert(listed(keys@, counts@, keys@.len() as int, key_of(out@[i]), out@[i].count));
            let q = choose|q: int| 0 <= q < keys@.len() && keys@[q] == key_of(out@[i]) && counts@[q] == out@[i].count;
            assert(counts@[q] == occurrences(sizes@, keys@[q].0, keys@[q].1));
        }
        assert forall|a: int, b: int| 0 <= a < b < out@.len() implies
            ((#[trigger] out@[a]).width, out@[a].height) != ((#[trigger] out@[b]).width, out@[b].height) by {
            assert(key_of(out@[a]) != key_of(out@[b]));
        }
    }
    out
}

} // verus!
