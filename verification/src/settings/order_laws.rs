use vstd::prelude::*;
use crate::settings::model::AppSettingsView;
use crate::settings::preserve::{
    reorder, reorder_fold, append_all, reorder_items, collect_missing, collect_keys, collect_items, insert_at,
    insert_all, insert_each_keeping, preserve_spec, SegmentView,
};
use crate::settings::reorder_laws::lemma_map_insert;
use crate::settings::reorder_laws::{
    has_key, keys_unique, entry_of, lemma_find_key_none, lemma_find_key_found, lemma_fold_facts, lemma_reordered_items,
};
use crate::yaml::{YamlView, map_get, find_key, key_at, map_insert, swap_remove_at, lemma_find_key_some, lemma_key_at_unique};

verus! {

// ---------------------------------------------------------------- documents and key order

/// Each mapping of `v`, at any depth, holds each key once.
pub open spec fn keys_unique_deep(v: YamlView) -> bool
    decreases v,
{
    match v {
        YamlView::Mapping(es) => keys_unique(es) && forall|i: int|
            0 <= i < es.len() ==> keys_unique_deep(#[trigger] es[i].1),
        YamlView::Sequence(items) => forall|i: int| 0 <= i < items.len() ==> keys_unique_deep(#[trigger] items[i]),
        YamlView::Tagged(_, inner) => keys_unique_deep(*inner),
        _ => true,
    }
}

/// In the entries `out`, the keys that `pe` has come before all others, in the order in
/// which `pe` first has them.
pub open spec fn in_previous_order(out: Seq<(YamlView, YamlView)>, pe: Seq<(YamlView, YamlView)>) -> bool {
    forall|i: int, j: int|
        0 <= i < j < out.len() && has_key(pe, #[trigger] out[j].0) ==> has_key(pe, #[trigger] out[i].0)
            && find_key(pe, out[i].0)->0 < find_key(pe, out[j].0)->0
}

/// Every mapping of `v` that stands where `previous` has a mapping has the keys they share
/// first, in `previous`'s order; below a shared key, the values are compared in turn, and
/// so are the items of sequences, position by position.
pub open spec fn ordered_like(v: YamlView, previous: YamlView) -> bool
    decreases previous,
{
    match (v, previous) {
        (YamlView::Mapping(c), YamlView::Mapping(pe)) => in_previous_order(c, pe) && forall|i: int, a: int|
            0 <= i < c.len() && key_at(pe, c[i].0, a) ==> ordered_like(#[trigger] c[i].1, #[trigger] pe[a].1),
        (YamlView::Sequence(c), YamlView::Sequence(pi)) => forall|i: int|
            0 <= i < c.len() && i < pi.len() ==> ordered_like(#[trigger] c[i], pi[i]),
        _ => true,
    }
}

// ---------------------------------------------------------------- first positions in a prefix

proof fn lemma_has_key_found(es: Seq<(YamlView, YamlView)>, k: YamlView)
    requires
        has_key(es, k),
    ensures
        find_key(es, k) is Some,
        key_at(es, k, find_key(es, k)->0),
{
    let i = choose|i: int| 0 <= i < es.len() && es[i].0 == k;
    lemma_find_key_some(es, k, i);
    lemma_find_key_found(es, k);
}

proof fn lemma_has_key_last(p: Seq<(YamlView, YamlView)>, k: YamlView)
    requires
        p.len() > 0,
    ensures
        has_key(p, k) == (has_key(p.drop_last(), k) || p.last().0 == k),
{
    let p0 = p.drop_last();
    if has_key(p0, k) {
        let i = choose|i: int| 0 <= i < p0.len() && p0[i].0 == k;
        assert(p[i].0 == k);
    }
    if p.last().0 == k {
        assert(p[p.len() - 1].0 == k);
    }
    if has_key(p, k) && p.last().0 != k {
        let i = choose|i: int| 0 <= i < p.len() && p[i].0 == k;
        assert(p0[i].0 == k);
    }
}

proof fn lemma_find_key_prefix(p: Seq<(YamlView, YamlView)>, k: YamlView)
    requires
        p.len() > 0,
    ensures
        has_key(p.drop_last(), k) ==> find_key(p, k) == find_key(p.drop_last(), k),
        !has_key(p.drop_last(), k) && p.last().0 == k ==> find_key(p, k) == Some((p.len() - 1) as int),
{
    let p0 = p.drop_last();
    if has_key(p0, k) {
        lemma_has_key_found(p0, k);
        let f = find_key(p0, k)->0;
        assert forall|j: int| 0 <= j < f implies #[trigger] p[j].0 != k by {
            assert(p[j] == p0[j]);
            assert(p0[j].0 != k);
        }
        assert(p[f] == p0[f]);
        assert(key_at(p, k, f));
        lemma_find_key_some(p, k, f);
        lemma_find_key_found(p, k);
        lemma_key_at_unique(p, k, f, find_key(p, k)->0);
    } else if p.last().0 == k {
        let n = (p.len() - 1) as int;
        assert forall|j: int| 0 <= j < n implies #[trigger] p[j].0 != k by {
            if p[j].0 == k {
                assert(p0[j].0 == k);
            }
        }
        assert(key_at(p, k, n));
        lemma_find_key_some(p, k, n);
        lemma_find_key_found(p, k);
        lemma_key_at_unique(p, k, n, find_key(p, k)->0);
    }
}

// ---------------------------------------------------------------- taking out the previous keys

/// What taking the keys of `p` out of `c` (whose keys are unique) leaves and builds: what is
/// left has no key of `p`; what is built has keys of `p` only, in the order `p` first has
/// them, each holding the value of `c` under it reordered like the value `p` first has.
proof fn lemma_fold_order(c: Seq<(YamlView, YamlView)>, p: Seq<(YamlView, YamlView)>)
    requires
        keys_unique(c),
    ensures
        ({
            let (rest, ordered) = reorder_fold(c, p);
            &&& keys_unique(rest)
            &&& forall|i: int| 0 <= i < rest.len() ==> !has_key(p, #[trigger] rest[i].0)
            &&& forall|i: int| 0 <= i < ordered.len() ==> has_key(p, #[trigger] ordered[i].0)
            &&& forall|i: int, j: int| 0 <= i < j < ordered.len() ==> find_key(p, #[trigger] ordered[i].0)->0
                < find_key(p, #[trigger] ordered[j].0)->0
            &&& forall|i: int| 0 <= i < ordered.len() ==> exists|a: int| 0 <= a < c.len() && #[trigger] c[a].0
                == #[trigger] ordered[i].0 && ordered[i].1 == reorder(c[a].1, p[find_key(p, ordered[i].0)->0].1)
        }),
    decreases p.len(),
{
    lemma_fold_facts(c, p);
    if p.len() == 0 {
    } else {
        let p0 = p.drop_last();
        let last = p[p.len() - 1];
        lemma_fold_order(c, p0);
        lemma_fold_facts(c, p0);
        let (rest0, ord0) = reorder_fold(c, p0);
        assert forall|k: YamlView| has_key(p0, k) implies find_key(p, k) == find_key(p0, k) && has_key(p, k) by {
            lemma_find_key_prefix(p, k);
            lemma_has_key_last(p, k);
        }
        match find_key(rest0, last.0) {
            Some(j) => {
                lemma_find_key_found(rest0, last.0);
                let rest1 = swap_remove_at(rest0, j);
                let child = reorder(rest0[j].1, last.1);
                assert(!has_key(p0, last.0));
                lemma_find_key_prefix(p, last.0);
                lemma_has_key_last(p, last.0);
                assert(!has_key(ord0, last.0)) by {
                    if has_key(ord0, last.0) {
                        let i = choose|i: int| 0 <= i < ord0.len() && ord0[i].0 == last.0;
                        assert(has_key(p0, ord0[i].0));
                    }
                }
                if find_key(ord0, last.0) is Some {
                    lemma_find_key_found(ord0, last.0);
                    let f = find_key(ord0, last.0)->0;
                    assert(ord0[f].0 == last.0);
                }
                let ord1 = ord0.push((last.0, child));
                assert(map_insert(ord0, last.0, child) == ord1);
                assert(reorder_fold(c, p) == (rest1, ord1));
                assert forall|a: int, b: int| 0 <= a < b < rest1.len() implies #[trigger] rest1[a].0 != #[trigger] rest1[b].0 by {
                    let n = rest0.len() - 1;
                    let ia = if a == j { n } else { a };
                    let ib = if b == j { n } else { b };
                    assert(rest1[a] == rest0[ia]);
                    assert(rest1[b] == rest0[ib]);
                }
                assert forall|i: int| 0 <= i < rest1.len() implies !has_key(p, #[trigger] rest1[i].0) by {
                    let n = rest0.len() - 1;
                    let ii = if i == j { n } else { i };
                    assert(rest1[i] == rest0[ii]);
                    assert(ii != j);
                    assert(rest0[ii].0 != rest0[j].0);
                    lemma_has_key_last(p, rest0[ii].0);
                }
                assert forall|i: int| 0 <= i < ord1.len() implies has_key(p, #[trigger] ord1[i].0) by {
                    if i < ord0.len() {
                        assert(ord1[i] == ord0[i]);
                    }
                }
                assert forall|i: int, k: int| 0 <= i < k < ord1.len() implies find_key(p, #[trigger] ord1[i].0)->0
                    < find_key(p, #[trigger] ord1[k].0)->0 by {
                    assert(ord1[i] == ord0[i]);
                    assert(has_key(p0, ord0[i].0));
                    lemma_has_key_found(p0, ord0[i].0);
                    if k < ord0.len() {
                        assert(ord1[k] == ord0[k]);
                    }
                }
                assert(entry_of(c, rest0[j]));
                let a0 = choose|a: int| 0 <= a < c.len() && c[a] == rest0[j];
                assert forall|i: int| 0 <= i < ord1.len() implies exists|a: int| 0 <= a < c.len() && #[trigger] c[a].0
                    == #[trigger] ord1[i].0 && ord1[i].1 == reorder(c[a].1, p[find_key(p, ord1[i].0)->0].1) by {
                    if i < ord0.len() {
                        assert(ord1[i] == ord0[i]);
                        let a = choose|a: int| 0 <= a < c.len() && #[trigger] c[a].0 == ord0[i].0 && ord0[i].1
                            == reorder(c[a].1, p0[find_key(p0, ord0[i].0)->0].1);
                        assert(has_key(p0, ord0[i].0));
                        lemma_has_key_found(p0, ord0[i].0);
                        assert(p0[find_key(p0, ord0[i].0)->0] == p[find_key(p, ord0[i].0)->0]);
                        assert(c[a].0 == ord1[i].0);
                    } else {
                        assert(ord1[i] == (last.0, child));
                        assert(c[a0].0 == ord1[i].0);
                    }
                }
            },
            None => {
                lemma_find_key_none(rest0, last.0);
                assert(reorder_fold(c, p) == (rest0, ord0));
                assert forall|i: int| 0 <= i < rest0.len() implies !has_key(p, #[trigger] rest0[i].0) by {
                    lemma_has_key_last(p, rest0[i].0);
                    if rest0[i].0 == last.0 {
                        assert(has_key(rest0, last.0));
                    }
                }
                assert forall|i: int, k: int| 0 <= i < k < ord0.len() implies find_key(p, #[trigger] ord0[i].0)->0
                    < find_key(p, #[trigger] ord0[k].0)->0 by {
                    assert(has_key(p0, ord0[i].0));
                    assert(has_key(p0, ord0[k].0));
                }
                assert forall|i: int| 0 <= i < ord0.len() implies exists|a: int| 0 <= a < c.len() && #[trigger] c[a].0
                    == #[trigger] ord0[i].0 && ord0[i].1 == reorder(c[a].1, p[find_key(p, ord0[i].0)->0].1) by {
                    let a = choose|a: int| 0 <= a < c.len() && #[trigger] c[a].0 == ord0[i].0 && ord0[i].1
                        == reorder(c[a].1, p0[find_key(p0, ord0[i].0)->0].1);
                    assert(has_key(p0, ord0[i].0));
                    lemma_has_key_found(p0, ord0[i].0);
                    assert(p0[find_key(p0, ord0[i].0)->0] == p[find_key(p, ord0[i].0)->0]);
                }
            },
        }
    }
}

/// Appending entries whose keys are new and unique puts them after the others, as they are.
proof fn lemma_append_new(ordered: Seq<(YamlView, YamlView)>, rest: Seq<(YamlView, YamlView)>)
    requires
        keys_unique(rest),
        forall|i: int| 0 <= i < rest.len() ==> !has_key(ordered, #[trigger] rest[i].0),
    ensures
        append_all(ordered, rest) == ordered + rest,
    decreases rest.len(),
{
    if rest.len() > 0 {
        let r0 = rest.drop_last();
        let last = rest[rest.len() - 1];
        assert forall|a: int, b: int| 0 <= a < b < r0.len() implies #[trigger] r0[a].0 != #[trigger] r0[b].0 by {
            assert(r0[a] == rest[a] && r0[b] == rest[b]);
        }
        assert forall|i: int| 0 <= i < r0.len() implies !has_key(ordered, #[trigger] r0[i].0) by {
            assert(r0[i] == rest[i]);
        }
        lemma_append_new(ordered, r0);
        let prev = ordered + r0;
        assert(!has_key(prev, last.0)) by {
            if has_key(prev, last.0) {
                let i = choose|i: int| 0 <= i < prev.len() && prev[i].0 == last.0;
                if i < ordered.len() {
                    assert(prev[i] == ordered[i]);
                    assert(has_key(ordered, last.0));
                } else {
                    assert(prev[i] == rest[i - ordered.len()]);
                }
            }
        }
        if find_key(prev, last.0) is Some {
            lemma_find_key_found(prev, last.0);
            assert(prev[find_key(prev, last.0)->0].0 == last.0);
        }
        assert(prev.push(last) =~= ordered + rest);
    }
}

/// Putting the keys of a mapping in the order of a previous document gives, at every
/// depth, the keys shared with the previous document first, in its order.
pub proof fn lemma_reorder_ordered_like(v: YamlView, q: YamlView)
    requires
        keys_unique_deep(v),
    ensures
        ordered_like(reorder(v, q), q),
    decreases q,
{
    match (v, q) {
        (YamlView::Mapping(c), YamlView::Mapping(pe)) => {
            lemma_fold_order(c, pe);
            let (rest, ordered) = reorder_fold(c, pe);
            assert forall|i: int| 0 <= i < rest.len() implies !has_key(ordered, #[trigger] rest[i].0) by {
                if has_key(ordered, rest[i].0) {
                    let o = choose|o: int| 0 <= o < ordered.len() && ordered[o].0 == rest[i].0;
                    assert(has_key(pe, ordered[o].0));
                }
            }
            lemma_append_new(ordered, rest);
            let out = ordered + rest;
            assert(reorder(v, q) == YamlView::Mapping(out));
            assert forall|i: int, j: int| 0 <= i < j < out.len() && has_key(pe, #[trigger] out[j].0) implies has_key(
                pe,
                #[trigger] out[i].0,
            ) && find_key(pe, out[i].0)->0 < find_key(pe, out[j].0)->0 by {
                if j >= ordered.len() {
                    assert(out[j] == rest[j - ordered.len()]);
                }
                assert(out[j] == ordered[j]);
                assert(out[i] == ordered[i]);
            }
            assert forall|i: int, a: int| 0 <= i < out.len() && key_at(pe, out[i].0, a) implies ordered_like(
                #[trigger] out[i].1,
                #[trigger] pe[a].1,
            ) by {
                assert(has_key(pe, out[i].0));
                if i >= ordered.len() {
                    assert(out[i] == rest[i - ordered.len()]);
                }
                assert(out[i] == ordered[i]);
                let b = choose|b: int| 0 <= b < c.len() && #[trigger] c[b].0 == ordered[i].0 && ordered[i].1 == reorder(
                    c[b].1,
                    pe[find_key(pe, ordered[i].0)->0].1,
                );
                lemma_find_key_found(pe, out[i].0);
                lemma_key_at_unique(pe, out[i].0, a, find_key(pe, out[i].0)->0);
                assert(keys_unique_deep(c[b].1));
                lemma_reorder_ordered_like(c[b].1, pe[a].1);
            }
        },
        (YamlView::Sequence(c), YamlView::Sequence(pi)) => {
            lemma_reordered_items(c, pi, c.len());
            let out = reorder_items(c, pi, c.len());
            assert forall|i: int| 0 <= i < out.len() && i < pi.len() implies ordered_like(#[trigger] out[i], pi[i]) by {
                assert(keys_unique_deep(c[i]));
                lemma_reorder_ordered_like(c[i], pi[i]);
            }
        },
        _ => {},
    }
}

// ---------------------------------------------------------------- writing a document back

/// Every entry put back holds a document whose mappings hold each key once.
pub open spec fn entries_unique(m: Seq<(Seq<SegmentView>, YamlView)>) -> bool {
    forall|i: int| 0 <= i < m.len() ==> keys_unique_deep(#[trigger] m[i].1)
}

proof fn lemma_concat_unique(a: Seq<(Seq<SegmentView>, YamlView)>, b: Seq<(Seq<SegmentView>, YamlView)>)
    requires
        entries_unique(a),
        entries_unique(b),
    ensures
        entries_unique(a + b),
{
    assert forall|i: int| 0 <= i < (a + b).len() implies keys_unique_deep(#[trigger] (a + b)[i].1) by {
        if i < a.len() {
            assert((a + b)[i] == a[i]);
        } else {
            assert((a + b)[i] == b[i - a.len()]);
        }
    }
}

proof fn lemma_missing_unique(cur: Option<YamlView>, prev: YamlView, path: Seq<SegmentView>)
    requires
        keys_unique_deep(prev),
    ensures
        entries_unique(collect_missing(cur, prev, path)),
    decreases prev, 0int,
{
    match cur {
        None => {
            let m = seq![(path, prev)];
            assert(m[0].1 == prev);
        },
        Some(c) => match (c, prev) {
            (YamlView::Mapping(ce), YamlView::Mapping(pe)) => lemma_keys_unique(ce, pe, path),
            (YamlView::Sequence(ci), YamlView::Sequence(pi)) => {
                lemma_items_unique(ci, pi, path, if ci.len() < pi.len() { ci.len() } else { pi.len() })
            },
            _ => {},
        },
    }
}

proof fn lemma_keys_unique(ce: Seq<(YamlView, YamlView)>, pe: Seq<(YamlView, YamlView)>, path: Seq<SegmentView>)
    requires
        forall|i: int| 0 <= i < pe.len() ==> keys_unique_deep(#[trigger] pe[i].1),
    ensures
        entries_unique(collect_keys(ce, pe, path)),
    decreases pe, 0int,
{
    if pe.len() > 0 {
        let last = pe[pe.len() - 1];
        let p0 = pe.drop_last();
        assert forall|i: int| 0 <= i < p0.len() implies keys_unique_deep(#[trigger] p0[i].1) by {
            assert(p0[i] == pe[i]);
        }
        lemma_keys_unique(ce, p0, path);
        lemma_missing_unique(map_get(ce, last.0), last.1, path.push(SegmentView::Key(last.0)));
        lemma_concat_unique(
            collect_keys(ce, p0, path),
            collect_missing(map_get(ce, last.0), last.1, path.push(SegmentView::Key(last.0))),
        );
    }
}

proof fn lemma_items_unique(ci: Seq<YamlView>, pi: Seq<YamlView>, path: Seq<SegmentView>, n: nat)
    requires
        forall|i: int| 0 <= i < pi.len() ==> keys_unique_deep(#[trigger] pi[i]),
    ensures
        entries_unique(collect_items(ci, pi, path, n)),
    decreases pi, n,
{
    if !(n == 0 || n > pi.len() || n > ci.len()) {
        lemma_items_unique(ci, pi, path, (n - 1) as nat);
        lemma_missing_unique(Some(ci[n - 1]), pi[n - 1], path.push(SegmentView::Index((n - 1) as nat)));
        lemma_concat_unique(
            collect_items(ci, pi, path, (n - 1) as nat),
            collect_missing(Some(ci[n - 1]), pi[n - 1], path.push(SegmentView::Index((n - 1) as nat))),
        );
    }
}

proof fn lemma_insert_unique(v: YamlView, path: Seq<SegmentView>, e: YamlView)
    requires
        keys_unique_deep(v),
        keys_unique_deep(e),
        insert_at(v, path, e) is Some,
    ensures
        keys_unique_deep(insert_at(v, path, e)->0),
    decreases path.len(),
{
    if path.len() == 1 {
        match path[0] {
            SegmentView::Key(k) => {
                let es = v->Mapping_0;
                lemma_map_insert(es, k, e);
                let r = map_insert(es, k, e);
                assert forall|i: int| 0 <= i < r.len() implies keys_unique_deep(#[trigger] r[i].1) by {
                    if !(r[i].0 == k && r[i].1 == e) {
                        assert(r[i] == es[i]);
                    }
                }
            },
            SegmentView::Index(x) => {
                let items = v->Sequence_0;
                let r = items.insert(x as int, e);
                assert forall|i: int| 0 <= i < r.len() implies keys_unique_deep(#[trigger] r[i]) by {
                    if i < x {
                        assert(r[i] == items[i]);
                    } else if i > x {
                        assert(r[i] == items[i - 1]);
                    }
                }
            },
        }
    } else if path.len() > 1 {
        match path[0] {
            SegmentView::Key(k) => {
                let es = v->Mapping_0;
                let j = find_key(es, k)->0;
                lemma_find_key_found(es, k);
                lemma_insert_unique(es[j].1, path.drop_first(), e);
                let c = insert_at(es[j].1, path.drop_first(), e)->0;
                let r = es.update(j, (es[j].0, c));
                assert forall|a: int, b: int| 0 <= a < b < r.len() implies #[trigger] r[a].0 != #[trigger] r[b].0 by {
                    assert(r[a].0 == es[a].0 && r[b].0 == es[b].0);
                }
                assert forall|i: int| 0 <= i < r.len() implies keys_unique_deep(#[trigger] r[i].1) by {
                    if i != j {
                        assert(r[i] == es[i]);
                    }
                }
            },
            SegmentView::Index(x) => {
                let items = v->Sequence_0;
                lemma_insert_unique(items[x as int], path.drop_first(), e);
                let c = insert_at(items[x as int], path.drop_first(), e)->0;
                let r = items.update(x as int, c);
                assert forall|i: int| 0 <= i < r.len() implies keys_unique_deep(#[trigger] r[i]) by {
                    if i != x {
                        assert(r[i] == items[i]);
                    }
                }
            },
        }
    }
}

proof fn lemma_insert_all_unique(v: YamlView, missing: Seq<(Seq<SegmentView>, YamlView)>)
    requires
        keys_unique_deep(v),
        entries_unique(missing),
        insert_all(v, missing) is Some,
    ensures
        keys_unique_deep(insert_all(v, missing)->0),
    decreases missing.len(),
{
    if missing.len() > 0 {
        let init = missing.drop_last();
        assert forall|i: int| 0 <= i < init.len() implies keys_unique_deep(#[trigger] init[i].1) by {
            assert(init[i] == missing[i]);
        }
        lemma_insert_all_unique(v, init);
        let last = missing[missing.len() - 1];
        lemma_insert_unique(insert_all(v, init)->0, last.0, last.1);
    }
}

proof fn lemma_insert_each_unique(v: YamlView, missing: Seq<(Seq<SegmentView>, YamlView)>, s: AppSettingsView)
    requires
        keys_unique_deep(v),
        entries_unique(missing),
    ensures
        keys_unique_deep(insert_each_keeping(v, missing, s)),
    decreases missing.len(),
{
    if missing.len() > 0 {
        let init = missing.drop_last();
        assert forall|i: int| 0 <= i < init.len() implies keys_unique_deep(#[trigger] init[i].1) by {
            assert(init[i] == missing[i]);
        }
        lemma_insert_each_unique(v, init, s);
        let w = insert_each_keeping(v, init, s);
        let last = missing[missing.len() - 1];
        if insert_at(w, last.0, last.1) is Some {
            lemma_insert_unique(w, last.0, last.1);
        }
    }
}

/// Writing a document back over a previous one gives every mapping that stands where the
/// previous document has a mapping the keys they share first, in the previous document's
/// order, at every depth.
pub proof fn lemma_preserve_keeps_previous_order(value: YamlView, previous: YamlView, s: AppSettingsView)
    requires
        keys_unique_deep(value),
        keys_unique_deep(previous),
    ensures
        ordered_like(preserve_spec(value, previous, s), previous),
{
    let missing = collect_missing(Some(value), previous, Seq::empty());
    lemma_missing_unique(Some(value), previous, Seq::empty());
    lemma_insert_each_unique(value, missing, s);
    if insert_all(value, missing) is Some {
        lemma_insert_all_unique(value, missing);
    }
    let kept = match insert_all(value, missing) {
        Some(b) => if crate::settings::decode::decode_settings_spec(b) == Some(s) {
            b
        } else {
            insert_each_keeping(value, missing, s)
        },
        None => insert_each_keeping(value, missing, s),
    };
    assert(keys_unique_deep(kept));
    lemma_reorder_ordered_like(kept, previous);
}

// ---------------------------------------------------------------- what the previous document kept

/// Every key of each mapping of `prev` is a key of the mapping at the same place in `v`, at
/// every depth where both hold a mapping there (and, item by item, where both hold a
/// sequence).
pub open spec fn covers(v: YamlView, prev: YamlView) -> bool
    decreases prev,
{
    match (v, prev) {
        (YamlView::Mapping(c), YamlView::Mapping(pe)) => forall|a: int|
            0 <= a < pe.len() ==> has_key(c, #[trigger] pe[a].0) && covers(map_get(c, pe[a].0)->0, pe[a].1),
        (YamlView::Sequence(ci), YamlView::Sequence(pi)) => forall|i: int|
            0 <= i < ci.len() && i < pi.len() ==> covers(#[trigger] ci[i], pi[i]),
        _ => true,
    }
}

/// Entries `m` with `pre` put in front of each path.
pub open spec fn lift(m: Seq<(Seq<SegmentView>, YamlView)>, pre: Seq<SegmentView>) -> Seq<(Seq<SegmentView>, YamlView)> {
    m.map_values(|e: (Seq<SegmentView>, YamlView)| (pre + e.0, e.1))
}

/// Entries `m` with the first segment of each path taken off.
pub open spec fn drop_front(m: Seq<(Seq<SegmentView>, YamlView)>) -> Seq<(Seq<SegmentView>, YamlView)> {
    m.map_values(|e: (Seq<SegmentView>, YamlView)| (e.0.drop_first(), e.1))
}

proof fn lemma_find_unique(es: Seq<(YamlView, YamlView)>, i: int)
    requires
        keys_unique(es),
        0 <= i < es.len(),
    ensures
        find_key(es, es[i].0) == Some(i),
        map_get(es, es[i].0) == Some(es[i].1),
{
    assert forall|j: int| 0 <= j < i implies #[trigger] es[j].0 != es[i].0 by {}
    assert(key_at(es, es[i].0, i));
    lemma_find_key_some(es, es[i].0, i);
    lemma_find_key_found(es, es[i].0);
    lemma_key_at_unique(es, es[i].0, i, find_key(es, es[i].0)->0);
}

proof fn lemma_find_absent(es: Seq<(YamlView, YamlView)>, k: YamlView)
    requires
        !has_key(es, k),
    ensures
        find_key(es, k) is None,
        map_get(es, k) is None,
{
    if find_key(es, k) is Some {
        lemma_find_key_found(es, k);
        assert(es[find_key(es, k)->0].0 == k);
    }
}

proof fn lemma_get_after_update(es: Seq<(YamlView, YamlView)>, j: int, c: YamlView, y: YamlView)
    requires
        keys_unique(es),
        0 <= j < es.len(),
    ensures
        keys_unique(es.update(j, (es[j].0, c))),
        has_key(es.update(j, (es[j].0, c)), y) == has_key(es, y),
        map_get(es.update(j, (es[j].0, c)), y) == if y == es[j].0 { Some(c) } else { map_get(es, y) },
{
    let r = es.update(j, (es[j].0, c));
    assert forall|a: int, b: int| 0 <= a < b < r.len() implies #[trigger] r[a].0 != #[trigger] r[b].0 by {
        assert(r[a].0 == es[a].0 && r[b].0 == es[b].0);
    }
    if has_key(es, y) {
        let i = choose|i: int| 0 <= i < es.len() && es[i].0 == y;
        assert(r[i].0 == y);
        lemma_find_unique(es, i);
        lemma_find_unique(r, i);
    } else {
        assert(!has_key(r, y)) by {
            if has_key(r, y) {
                let i = choose|i: int| 0 <= i < r.len() && r[i].0 == y;
                assert(es[i].0 == y);
            }
        }
        lemma_find_absent(es, y);
        lemma_find_absent(r, y);
    }
}

proof fn lemma_get_after_push(es: Seq<(YamlView, YamlView)>, k: YamlView, x: YamlView, y: YamlView)
    requires
        keys_unique(es),
        !has_key(es, k),
    ensures
        keys_unique(es.push((k, x))),
        has_key(es.push((k, x)), y) == (has_key(es, y) || y == k),
        map_get(es.push((k, x)), y) == if y == k { Some(x) } else { map_get(es, y) },
{
    let r = es.push((k, x));
    assert forall|a: int, b: int| 0 <= a < b < r.len() implies #[trigger] r[a].0 != #[trigger] r[b].0 by {
        if b == es.len() {
            assert(r[a] == es[a]);
            if es[a].0 == k {
                assert(has_key(es, k));
            }
        } else {
            assert(r[a] == es[a] && r[b] == es[b]);
        }
    }
    lemma_has_key_last(r, y);
    assert(r.drop_last() =~= es);
    if y == k {
        lemma_find_unique(r, es.len() as int);
    } else if has_key(es, y) {
        let i = choose|i: int| 0 <= i < es.len() && es[i].0 == y;
        assert(r[i] == es[i]);
        lemma_find_unique(es, i);
        lemma_find_unique(r, i);
    } else {
        lemma_find_absent(es, y);
        lemma_find_absent(r, y);
    }
}

/// The missing entries below `path` are those below the empty path with `path` in front.
proof fn lemma_missing_lift(cur: Option<YamlView>, prev: YamlView, path: Seq<SegmentView>)
    ensures
        collect_missing(cur, prev, path) == lift(collect_missing(cur, prev, Seq::empty()), path),
    decreases prev, 0int,
{
    match cur {
        None => {
            assert(path + Seq::<SegmentView>::empty() =~= path);
            assert(collect_missing(cur, prev, path) =~= lift(collect_missing(cur, prev, Seq::empty()), path));
        },
        Some(c) => match (c, prev) {
            (YamlView::Mapping(ce), YamlView::Mapping(pe)) => lemma_keys_lift(ce, pe, path),
            (YamlView::Sequence(ci), YamlView::Sequence(pi)) => {
                lemma_items_lift(ci, pi, path, if ci.len() < pi.len() { ci.len() } else { pi.len() })
            },
            _ => {
                assert(collect_missing(cur, prev, path) =~= lift(collect_missing(cur, prev, Seq::empty()), path));
            },
        },
    }
}

proof fn lemma_lift_concat(a: Seq<(Seq<SegmentView>, YamlView)>, b: Seq<(Seq<SegmentView>, YamlView)>, pre: Seq<SegmentView>)
    ensures
        lift(a + b, pre) == lift(a, pre) + lift(b, pre),
{
    assert(lift(a + b, pre) =~= lift(a, pre) + lift(b, pre));
}

proof fn lemma_lift_lift(m: Seq<(Seq<SegmentView>, YamlView)>, pre: Seq<SegmentView>, seg: SegmentView)
    ensures
        lift(lift(m, seq![seg]), pre) == lift(m, pre.push(seg)),
{
    assert forall|i: int| 0 <= i < m.len() implies pre + (seq![seg] + m[i].0) == #[trigger] pre.push(seg) + m[i].0 by {
        assert(pre + (seq![seg] + m[i].0) =~= pre.push(seg) + m[i].0);
    }
    assert(lift(lift(m, seq![seg]), pre) =~= lift(m, pre.push(seg)));
}

proof fn lemma_keys_lift(ce: Seq<(YamlView, YamlView)>, pe: Seq<(YamlView, YamlView)>, path: Seq<SegmentView>)
    ensures
        collect_keys(ce, pe, path) == lift(collect_keys(ce, pe, Seq::empty()), path),
    decreases pe, 0int,
{
    if pe.len() == 0 {
        assert(collect_keys(ce, pe, path) =~= lift(collect_keys(ce, pe, Seq::empty()), path));
    } else {
        let last = pe[pe.len() - 1];
        let seg = SegmentView::Key(last.0);
        let cur = map_get(ce, last.0);
        lemma_keys_lift(ce, pe.drop_last(), path);
        lemma_missing_lift(cur, last.1, path.push(seg));
        lemma_missing_lift(cur, last.1, Seq::<SegmentView>::empty().push(seg));
        assert(Seq::<SegmentView>::empty().push(seg) =~= seq![seg]);
        lemma_lift_lift(collect_missing(cur, last.1, Seq::empty()), path, seg);
        lemma_lift_concat(
            collect_keys(ce, pe.drop_last(), Seq::empty()),
            collect_missing(cur, last.1, Seq::<SegmentView>::empty().push(seg)),
            path,
        );
    }
}

proof fn lemma_items_lift(ci: Seq<YamlView>, pi: Seq<YamlView>, path: Seq<SegmentView>, n: nat)
    ensures
        collect_items(ci, pi, path, n) == lift(collect_items(ci, pi, Seq::empty(), n), path),
    decreases pi, n,
{
    if n == 0 || n > pi.len() || n > ci.len() {
        assert(collect_items(ci, pi, path, n) =~= lift(collect_items(ci, pi, Seq::empty(), n), path));
    } else {
        let seg = SegmentView::Index((n - 1) as nat);
        lemma_items_lift(ci, pi, path, (n - 1) as nat);
        lemma_missing_lift(Some(ci[n - 1]), pi[n - 1], path.push(seg));
        lemma_missing_lift(Some(ci[n - 1]), pi[n - 1], Seq::<SegmentView>::empty().push(seg));
        assert(Seq::<SegmentView>::empty().push(seg) =~= seq![seg]);
        lemma_lift_lift(collect_missing(Some(ci[n - 1]), pi[n - 1], Seq::empty()), path, seg);
        lemma_lift_concat(
            collect_items(ci, pi, Seq::empty(), (n - 1) as nat),
            collect_missing(Some(ci[n - 1]), pi[n - 1], Seq::<SegmentView>::empty().push(seg)),
            path,
        );
    }
}

/// Putting back `a` and then `b` is putting back `a + b`.
proof fn lemma_insert_all_concat(v: YamlView, a: Seq<(Seq<SegmentView>, YamlView)>, b: Seq<(Seq<SegmentView>, YamlView)>)
    ensures
        insert_all(v, a + b) == match insert_all(v, a) {
            Some(w) => insert_all(w, b),
            None => None,
        },
    decreases b.len(),
{
    if b.len() == 0 {
        assert(a + b =~= a);
    } else {
        assert((a + b).drop_last() =~= a + b.drop_last());
        assert((a + b).last() == b.last());
        lemma_insert_all_concat(v, a, b.drop_last());
    }
}

/// Entries whose paths all go through key `es[j].0` are put back inside the value under it.
proof fn lemma_insert_all_under_key(es: Seq<(YamlView, YamlView)>, j: int, m: Seq<(Seq<SegmentView>, YamlView)>)
    requires
        keys_unique(es),
        0 <= j < es.len(),
        forall|i: int| 0 <= i < m.len() ==> (#[trigger] m[i]).0.len() >= 2 && m[i].0[0] == SegmentView::Key(es[j].0),
    ensures
        insert_all(YamlView::Mapping(es), m) == match insert_all(es[j].1, drop_front(m)) {
            Some(c) => Some(YamlView::Mapping(es.update(j, (es[j].0, c)))),
            None => None,
        },
    decreases m.len(),
{
    if m.len() == 0 {
        assert(es.update(j, (es[j].0, es[j].1)) =~= es);
    } else {
        let m0 = m.drop_last();
        let e = m[m.len() - 1];
        assert forall|i: int| 0 <= i < m0.len() implies (#[trigger] m0[i]).0.len() >= 2 && m0[i].0[0] == SegmentView::Key(es[j].0) by {
            assert(m0[i] == m[i]);
        }
        lemma_insert_all_under_key(es, j, m0);
        assert(drop_front(m).drop_last() =~= drop_front(m0));
        assert(drop_front(m).last() == (e.0.drop_first(), e.1));
        match insert_all(es[j].1, drop_front(m0)) {
            Some(c0) => {
                let es0 = es.update(j, (es[j].0, c0));
                lemma_get_after_update(es, j, c0, es[j].0);
                lemma_find_unique(es0, j);
                assert(e.0.len() >= 2);
                match insert_at(c0, e.0.drop_first(), e.1) {
                    Some(c) => {
                        assert(es0.update(j, (es0[j].0, c)) =~= es.update(j, (es[j].0, c)));
                    },
                    None => {},
                }
            },
            None => {},
        }
    }
}

/// Entries whose paths all go through position `i` are put back inside the item there.
proof fn lemma_insert_all_under_index(items: Seq<YamlView>, i: nat, m: Seq<(Seq<SegmentView>, YamlView)>)
    requires
        i < items.len(),
        forall|a: int| 0 <= a < m.len() ==> (#[trigger] m[a]).0.len() >= 2 && m[a].0[0] == SegmentView::Index(i),
    ensures
        insert_all(YamlView::Sequence(items), m) == match insert_all(items[i as int], drop_front(m)) {
            Some(c) => Some(YamlView::Sequence(items.update(i as int, c))),
            None => None,
        },
    decreases m.len(),
{
    if m.len() == 0 {
        assert(items.update(i as int, items[i as int]) =~= items);
    } else {
        let m0 = m.drop_last();
        let e = m[m.len() - 1];
        assert forall|a: int| 0 <= a < m0.len() implies (#[trigger] m0[a]).0.len() >= 2 && m0[a].0[0] == SegmentView::Index(i) by {
            assert(m0[a] == m[a]);
        }
        lemma_insert_all_under_index(items, i, m0);
        assert(drop_front(m).drop_last() =~= drop_front(m0));
        assert(drop_front(m).last() == (e.0.drop_first(), e.1));
        match insert_all(items[i as int], drop_front(m0)) {
            Some(c0) => {
                let items0 = items.update(i as int, c0);
                match insert_at(c0, e.0.drop_first(), e.1) {
                    Some(c) => {
                        assert(items0.update(i as int, c) =~= items.update(i as int, c));
                    },
                    None => {},
                }
            },
            None => {},
        }
    }
}

/// The entries missing below a key or a position, with that segment in front.
proof fn lemma_group_shape(cur: YamlView, prev: YamlView, seg: SegmentView)
    ensures
        collect_missing(Some(cur), prev, seq![seg]) == lift(collect_missing(Some(cur), prev, Seq::empty()), seq![seg]),
        drop_front(collect_missing(Some(cur), prev, seq![seg])) == collect_missing(Some(cur), prev, Seq::empty()),
        forall|i: int| 0 <= i < collect_missing(Some(cur), prev, seq![seg]).len() ==> (#[trigger] collect_missing(
            Some(cur),
            prev,
            seq![seg],
        )[i]).0.len() >= 2 && collect_missing(Some(cur), prev, seq![seg])[i].0[0] == seg,
{
    let inner = collect_missing(Some(cur), prev, Seq::empty());
    lemma_missing_lift(Some(cur), prev, seq![seg]);
    crate::settings::preserve_laws::lemma_missing_paths_below(Some(cur), prev, Seq::empty());
    let g = lift(inner, seq![seg]);
    assert forall|i: int| 0 <= i < g.len() implies (#[trigger] g[i]).0.len() >= 2 && g[i].0[0] == seg by {
        assert(g[i].0 == seq![seg] + inner[i].0);
        assert(inner[i].0.len() >= 1);
    }
    assert forall|i: int| 0 <= i < inner.len() implies (seq![seg] + #[trigger] inner[i].0).drop_first() == inner[i].0 by {
        assert((seq![seg] + inner[i].0).drop_first() =~= inner[i].0);
    }
    assert(drop_front(g) =~= inner);
}

proof fn lemma_covers_self(x: YamlView)
    requires
        keys_unique_deep(x),
    ensures
        covers(x, x),
    decreases x,
{
    match x {
        YamlView::Mapping(pe) => {
            assert forall|a: int| 0 <= a < pe.len() implies has_key(pe, #[trigger] pe[a].0) && covers(
                map_get(pe, pe[a].0)->0,
                pe[a].1,
            ) by {
                lemma_find_unique(pe, a);
                lemma_covers_self(pe[a].1);
            }
        },
        YamlView::Sequence(pi) => {
            assert forall|i: int| 0 <= i < pi.len() && i < pi.len() implies covers(#[trigger] pi[i], pi[i]) by {
                lemma_covers_self(pi[i]);
            }
        },
        _ => {},
    }
}

/// Putting back every missing entry at once gives a document that covers the previous one.
proof fn lemma_batch_covers(v: YamlView, prev: YamlView)
    requires
        keys_unique_deep(v),
        keys_unique_deep(prev),
        insert_all(v, collect_missing(Some(v), prev, Seq::empty())) is Some,
    ensures
        covers(insert_all(v, collect_missing(Some(v), prev, Seq::empty()))->0, prev),
        keys_unique_deep(insert_all(v, collect_missing(Some(v), prev, Seq::empty()))->0),
    decreases prev, 1int,
{
    lemma_missing_unique(Some(v), prev, Seq::empty());
    lemma_insert_all_unique(v, collect_missing(Some(v), prev, Seq::empty()));
    match (v, prev) {
        (YamlView::Mapping(ce), YamlView::Mapping(pe)) => {
            lemma_keys_covers(ce, pe);
            let b = insert_all(v, collect_keys(ce, pe, Seq::empty()))->0;
            let es = b->Mapping_0;
            assert forall|a: int| 0 <= a < pe.len() implies has_key(es, #[trigger] pe[a].0) && covers(
                map_get(es, pe[a].0)->0,
                pe[a].1,
            ) by {}
        },
        (YamlView::Sequence(ci), YamlView::Sequence(pi)) => {
            let n: nat = if ci.len() < pi.len() { ci.len() } else { pi.len() };
            lemma_items_covers(ci, pi, n);
        },
        _ => {},
    }
}

proof fn lemma_keys_covers(ce: Seq<(YamlView, YamlView)>, p: Seq<(YamlView, YamlView)>)
    requires
        keys_unique_deep(YamlView::Mapping(ce)),
        keys_unique_deep(YamlView::Mapping(p)),
        insert_all(YamlView::Mapping(ce), collect_keys(ce, p, Seq::empty())) is Some,
    ensures
        ({
            let b = insert_all(YamlView::Mapping(ce), collect_keys(ce, p, Seq::empty()))->0;
            &&& b is Mapping
            &&& keys_unique(b->Mapping_0)
            &&& forall|y: YamlView| #[trigger] has_key(b->Mapping_0, y) ==> has_key(ce, y) || has_key(p, y)
            &&& forall|y: YamlView| has_key(ce, y) ==> #[trigger] has_key(b->Mapping_0, y)
            &&& forall|y: YamlView| has_key(ce, y) && !has_key(p, y) ==> #[trigger] map_get(b->Mapping_0, y) == map_get(ce, y)
            &&& forall|a: int| 0 <= a < p.len() ==> has_key(b->Mapping_0, #[trigger] p[a].0) && covers(
                map_get(b->Mapping_0, p[a].0)->0,
                p[a].1,
            )
        }),
    decreases p, 0int,
{
    if p.len() == 0 {
    } else {
        let p0 = p.drop_last();
        let last = p[p.len() - 1];
        let k = last.0;
        let x = last.1;
        assert forall|a: int, b: int| 0 <= a < b < p0.len() implies #[trigger] p0[a].0 != #[trigger] p0[b].0 by {
            assert(p0[a] == p[a] && p0[b] == p[b]);
        }
        assert forall|a: int| 0 <= a < p0.len() implies keys_unique_deep(#[trigger] p0[a].1) by {
            assert(p0[a] == p[a]);
        }
        assert(keys_unique_deep(YamlView::Mapping(p0)));
        assert(keys_unique_deep(x));
        let g = collect_missing(map_get(ce, k), x, Seq::<SegmentView>::empty().push(SegmentView::Key(k)));
        assert(Seq::<SegmentView>::empty().push(SegmentView::Key(k)) =~= seq![SegmentView::Key(k)]);
        assert(collect_keys(ce, p, Seq::empty()) == collect_keys(ce, p0, Seq::empty()) + g);
        lemma_insert_all_concat(YamlView::Mapping(ce), collect_keys(ce, p0, Seq::empty()), g);
        lemma_keys_covers(ce, p0);
        let w = insert_all(YamlView::Mapping(ce), collect_keys(ce, p0, Seq::empty()))->0;
        let es0 = w->Mapping_0;
        assert(!has_key(p0, k)) by {
            if has_key(p0, k) {
                let a = choose|a: int| 0 <= a < p0.len() && p0[a].0 == k;
                assert(p[a].0 == p[p.len() - 1].0);
            }
        }
        assert forall|y: YamlView| has_key(p, y) == (has_key(p0, y) || y == k) by {
            lemma_has_key_last(p, y);
        }
        match map_get(ce, k) {
            Some(child) => {
                let j0 = find_key(ce, k)->0;
                lemma_find_key_found(ce, k);
                assert(has_key(ce, k));
                assert(keys_unique_deep(child));
                assert(map_get(es0, k) == Some(child));
                assert(has_key(es0, k));
                lemma_has_key_found(es0, k);
                let j = find_key(es0, k)->0;
                lemma_group_shape(child, x, SegmentView::Key(k));
                lemma_insert_all_under_key(es0, j, g);
                lemma_batch_covers(child, x);
                let c = insert_all(child, collect_missing(Some(child), x, Seq::empty()))->0;
                let es1 = es0.update(j, (k, c));
                assert forall|y: YamlView| #![trigger has_key(es1, y)] #![trigger map_get(es1, y)]
                    has_key(es1, y) == has_key(es0, y) && map_get(es1, y) == if y == k { Some(c) } else { map_get(es0, y) } by {
                    lemma_get_after_update(es0, j, c, y);
                }
                lemma_get_after_update(es0, j, c, k);
                assert forall|a: int| 0 <= a < p.len() implies has_key(es1, #[trigger] p[a].0) && covers(
                    map_get(es1, p[a].0)->0,
                    p[a].1,
                ) by {
                    if a < p0.len() {
                        assert(p0[a] == p[a]);
                        assert(p[a].0 != k) by {
                            if p[a].0 == k {
                                assert(has_key(p0, k));
                            }
                        }
                    }
                }
            },
            None => {
                lemma_find_key_none(ce, k);
                assert(!has_key(es0, k));
                let es1 = es0.push((k, x));
                assert(g == seq![(seq![SegmentView::Key(k)], x)]);
                lemma_find_absent(es0, k);
                assert(map_insert(es0, k, x) == es1);
                assert(g.drop_last() =~= Seq::<(Seq<SegmentView>, YamlView)>::empty());
                assert(insert_all(w, Seq::<(Seq<SegmentView>, YamlView)>::empty()) == Some(w));
                assert(g.last() == (seq![SegmentView::Key(k)], x));
                assert(insert_all(w, g) == insert_at(w, seq![SegmentView::Key(k)], x));
                assert forall|y: YamlView| #![trigger has_key(es1, y)] #![trigger map_get(es1, y)]
                    has_key(es1, y) == (has_key(es0, y) || y == k) && map_get(es1, y) == if y == k { Some(x) } else {
                        map_get(es0, y)
                    } by {
                    lemma_get_after_push(es0, k, x, y);
                }
                lemma_get_after_push(es0, k, x, k);
                lemma_covers_self(x);
                assert forall|a: int| 0 <= a < p.len() implies has_key(es1, #[trigger] p[a].0) && covers(
                    map_get(es1, p[a].0)->0,
                    p[a].1,
                ) by {
                    if a < p0.len() {
                        assert(p0[a] == p[a]);
                        assert(p[a].0 != k) by {
                            if p[a].0 == k {
                                assert(has_key(p0, k));
                            }
                        }
                    }
                }
            },
        }
    }
}

proof fn lemma_item_unique(c: Seq<YamlView>, i: int)
    requires
        keys_unique_deep(YamlView::Sequence(c)),
        0 <= i < c.len(),
    ensures
        keys_unique_deep(c[i]),
{
    let v = YamlView::Sequence(c);
    match v {
        YamlView::Sequence(items) => {
            assert(items == c);
            assert(keys_unique_deep(items[i]));
        },
        _ => {},
    }
}

proof fn lemma_items_covers(ci: Seq<YamlView>, pi: Seq<YamlView>, n: nat)
    requires
        keys_unique_deep(YamlView::Sequence(ci)),
        keys_unique_deep(YamlView::Sequence(pi)),
        n <= ci.len(),
        n <= pi.len(),
        insert_all(YamlView::Sequence(ci), collect_items(ci, pi, Seq::empty(), n)) is Some,
    ensures
        ({
            let b = insert_all(YamlView::Sequence(ci), collect_items(ci, pi, Seq::empty(), n))->0;
            &&& b is Sequence
            &&& b->Sequence_0.len() == ci.len()
            &&& forall|i: int| n <= i < ci.len() ==> #[trigger] b->Sequence_0[i] == ci[i]
            &&& forall|i: int| 0 <= i < n ==> covers(#[trigger] b->Sequence_0[i], pi[i])
        }),
    decreases pi, n,
{
    if n == 0 {
    } else {
        let i = (n - 1) as nat;
        let seg = SegmentView::Index(i);
        let g = collect_missing(Some(ci[i as int]), pi[i as int], Seq::<SegmentView>::empty().push(seg));
        assert(Seq::<SegmentView>::empty().push(seg) =~= seq![seg]);
        assert(collect_items(ci, pi, Seq::empty(), n) == collect_items(ci, pi, Seq::empty(), i) + g);
        lemma_insert_all_concat(YamlView::Sequence(ci), collect_items(ci, pi, Seq::empty(), i), g);
        lemma_items_covers(ci, pi, i);
        let w = insert_all(YamlView::Sequence(ci), collect_items(ci, pi, Seq::empty(), i))->0;
        let items0 = w->Sequence_0;
        assert(items0[i as int] == ci[i as int]);
        assert(0 <= i < ci.len() && i < pi.len());
        lemma_item_unique(ci, i as int);
        lemma_item_unique(pi, i as int);
        lemma_group_shape(ci[i as int], pi[i as int], seg);
        lemma_insert_all_under_index(items0, i, g);
        lemma_batch_covers(ci[i as int], pi[i as int]);
    }
}

/// Putting keys in the previous document's order keeps what covers that document.
proof fn lemma_reorder_covers(b: YamlView, prev: YamlView)
    requires
        keys_unique_deep(b),
        keys_unique_deep(prev),
        covers(b, prev),
    ensures
        covers(reorder(b, prev), prev),
    decreases prev,
{
    match (b, prev) {
        (YamlView::Mapping(c), YamlView::Mapping(pe)) => {
            lemma_fold_order(c, pe);
            lemma_fold_facts(c, pe);
            let (rest, ordered) = reorder_fold(c, pe);
            assert forall|i: int| 0 <= i < rest.len() implies !has_key(ordered, #[trigger] rest[i].0) by {
                if has_key(ordered, rest[i].0) {
                    let o = choose|o: int| 0 <= o < ordered.len() && ordered[o].0 == rest[i].0;
                    assert(has_key(pe, ordered[o].0));
                }
            }
            lemma_append_new(ordered, rest);
            let out = ordered + rest;
            assert(reorder(b, prev) == YamlView::Mapping(out));
            assert forall|x: int, y: int| 0 <= x < y < out.len() implies #[trigger] out[x].0 != #[trigger] out[y].0 by {
                if y < ordered.len() {
                    assert(out[x] == ordered[x] && out[y] == ordered[y]);
                } else if x >= ordered.len() {
                    assert(out[x] == rest[x - ordered.len()] && out[y] == rest[y - ordered.len()]);
                } else {
                    assert(out[x] == ordered[x] && out[y] == rest[y - ordered.len()]);
                    assert(has_key(pe, ordered[x].0));
                }
            }
            assert forall|a: int| 0 <= a < pe.len() implies has_key(out, #[trigger] pe[a].0) && covers(
                map_get(out, pe[a].0)->0,
                pe[a].1,
            ) by {
                let k = pe[a].0;
                let b0 = choose|b0: int| 0 <= b0 < c.len() && c[b0].0 == k;
                assert(has_key(pe, k));
                if has_key(rest, c[b0].0) {
                    let r = choose|r: int| 0 <= r < rest.len() && rest[r].0 == c[b0].0;
                    assert(!has_key(pe, rest[r].0));
                }
                assert(has_key(ordered, k));
                let o = choose|o: int| 0 <= o < ordered.len() && ordered[o].0 == k;
                assert(out[o] == ordered[o]);
                lemma_find_unique(out, o);
                let bb = choose|bb: int| 0 <= bb < c.len() && #[trigger] c[bb].0 == ordered[o].0 && ordered[o].1
                    == reorder(c[bb].1, pe[find_key(pe, ordered[o].0)->0].1);
                lemma_find_unique(c, bb);
                lemma_find_unique(pe, a);
                lemma_reorder_covers(c[bb].1, pe[a].1);
            }
        },
        (YamlView::Sequence(c), YamlView::Sequence(pi)) => {
            lemma_reordered_items(c, pi, c.len());
            let out = reorder_items(c, pi, c.len());
            assert forall|i: int| 0 <= i < out.len() && i < pi.len() implies covers(#[trigger] out[i], pi[i]) by {
                lemma_item_unique(c, i);
                lemma_item_unique(pi, i);
                lemma_reorder_covers(c[i], pi[i]);
            }
        },
        _ => {},
    }
}

/// When every entry of the previous document that the document written lacks can be put
/// back at once without changing the settings, the document written back keeps every key
/// of the previous document, at every depth where both documents hold a mapping (and, item
/// by item, where both hold a sequence).
pub proof fn lemma_preserve_keeps_previous_keys(value: YamlView, previous: YamlView, s: AppSettingsView)
    requires
        keys_unique_deep(value),
        keys_unique_deep(previous),
        insert_all(value, collect_missing(Some(value), previous, Seq::empty())) matches Some(b)
            && crate::settings::decode::decode_settings_spec(b) == Some(s),
    ensures
        covers(preserve_spec(value, previous, s), previous),
{
    lemma_batch_covers(value, previous);
    let b = insert_all(value, collect_missing(Some(value), previous, Seq::empty()))->0;
    lemma_reorder_covers(b, previous);
}

} // verus!
