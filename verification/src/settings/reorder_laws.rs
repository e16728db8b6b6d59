use vstd::prelude::*;
use crate::settings::decode::{
    key_name, names_field, struct_entries, field_absent, field_repeated, field_slot, read_field, field_or,
    seq_items, decode_all,
};
use crate::settings::preserve::{reorder, reorder_fold, append_all, reorder_items};
use crate::yaml::{YamlView, key_at, find_key, map_insert, swap_remove_at, lemma_find_key_some};

verus! {

/// `y` is `x`, or `x` with the keys of its mappings put in some other document's order.
pub open spec fn derived(x: YamlView, y: YamlView) -> bool {
    y == x || exists|q: YamlView| y == #[trigger] reorder(x, q)
}

/// `e` is an entry of `es`.
pub open spec fn entry_of(es: Seq<(YamlView, YamlView)>, e: (YamlView, YamlView)) -> bool {
    exists|a: int| 0 <= a < es.len() && #[trigger] es[a] == e
}

pub open spec fn has_key(es: Seq<(YamlView, YamlView)>, k: YamlView) -> bool {
    exists|i: int| 0 <= i < es.len() && #[trigger] es[i].0 == k
}

pub open spec fn keys_unique(es: Seq<(YamlView, YamlView)>) -> bool {
    forall|i: int, j: int| 0 <= i < j < es.len() ==> #[trigger] es[i].0 != #[trigger] es[j].0
}

/// Every entry of `es2` has the key of an entry of `es1` and a value derived from its value.
pub open spec fn entries_from(es1: Seq<(YamlView, YamlView)>, es2: Seq<(YamlView, YamlView)>) -> bool {
    forall|i: int| 0 <= i < es2.len() ==> exists|a: int|
        0 <= a < es1.len() && #[trigger] es1[a].0 == #[trigger] es2[i].0 && derived(es1[a].1, es2[i].1)
}

/// Every key of `es1` is a key of `es2`.
pub open spec fn keys_kept(es1: Seq<(YamlView, YamlView)>, es2: Seq<(YamlView, YamlView)>) -> bool {
    forall|a: int| 0 <= a < es1.len() ==> has_key(es2, #[trigger] es1[a].0)
}

pub proof fn lemma_find_key_none(es: Seq<(YamlView, YamlView)>, k: YamlView)
    requires
        find_key(es, k) is None,
    ensures
        !has_key(es, k),
{
    if has_key(es, k) {
        let i = choose|i: int| 0 <= i < es.len() && es[i].0 == k;
        lemma_find_key_some(es, k, i);
    }
}

pub proof fn lemma_find_key_found(es: Seq<(YamlView, YamlView)>, k: YamlView)
    requires
        find_key(es, k) is Some,
    ensures
        key_at(es, k, find_key(es, k)->0),
{
}

pub proof fn lemma_map_insert(es: Seq<(YamlView, YamlView)>, k: YamlView, v: YamlView)
    ensures
        has_key(map_insert(es, k, v), k),
        forall|x: YamlView| has_key(es, x) ==> has_key(map_insert(es, k, v), x),
        forall|i: int| 0 <= i < map_insert(es, k, v).len() ==> {
            let e = #[trigger] map_insert(es, k, v)[i];
            (e.0 == k && e.1 == v) || (0 <= i < es.len() && e == es[i])
        },
        keys_unique(es) ==> keys_unique(map_insert(es, k, v)),
{
    let r = map_insert(es, k, v);
    match find_key(es, k) {
        Some(j) => {
            lemma_find_key_found(es, k);
            assert(r[j].0 == k);
            assert forall|x: YamlView| has_key(es, x) implies has_key(r, x) by {
                let i = choose|i: int| 0 <= i < es.len() && es[i].0 == x;
                assert(r[i].0 == x);
            }
        },
        None => {
            lemma_find_key_none(es, k);
            assert(r[es.len() as int].0 == k);
            assert forall|x: YamlView| has_key(es, x) implies has_key(r, x) by {
                let i = choose|i: int| 0 <= i < es.len() && es[i].0 == x;
                assert(r[i].0 == x);
            }
        },
    }
}

pub proof fn lemma_swap_remove(es: Seq<(YamlView, YamlView)>, j: int)
    requires
        0 <= j < es.len(),
    ensures
        swap_remove_at(es, j).len() == es.len() - 1,
        forall|i: int| 0 <= i < swap_remove_at(es, j).len() ==> exists|a: int|
            0 <= a < es.len() && #[trigger] swap_remove_at(es, j)[i] == es[a],
        forall|a: int| 0 <= a < es.len() && a != j ==> has_key(swap_remove_at(es, j), #[trigger] es[a].0),
{
    let r = swap_remove_at(es, j);
    assert forall|i: int| 0 <= i < r.len() implies exists|a: int| 0 <= a < es.len() && #[trigger] r[i] == es[a] by {
        if i == j {
            assert(r[i] == es[es.len() - 1]);
        } else {
            assert(r[i] == es[i]);
        }
    }
    assert forall|a: int| 0 <= a < es.len() && a != j implies has_key(r, #[trigger] es[a].0) by {
        if a == es.len() - 1 {
            assert(r[j] == es[a]);
        } else {
            assert(r[a] == es[a]);
        }
    }
}

/// What taking the keys of `pe` out of `c` leaves and builds.
pub proof fn lemma_fold_facts(c: Seq<(YamlView, YamlView)>, pe: Seq<(YamlView, YamlView)>)
    ensures
        ({
            let (rest, ordered) = reorder_fold(c, pe);
            &&& forall|i: int| 0 <= i < rest.len() ==> entry_of(c, #[trigger] rest[i])
            &&& entries_from(c, ordered)
            &&& keys_unique(ordered)
            &&& forall|a: int| 0 <= a < c.len() ==> has_key(rest, #[trigger] c[a].0) || has_key(ordered, c[a].0)
        }),
    decreases pe.len(),
{
    if pe.len() == 0 {
        assert(keys_unique(Seq::<(YamlView, YamlView)>::empty()));
        assert forall|i: int| 0 <= i < c.len() implies entry_of(c, #[trigger] c[i]) by {
            assert(c[i] == c[i]);
        }
        assert forall|a: int| 0 <= a < c.len() implies has_key(c, #[trigger] c[a].0) by {
            assert(c[a].0 == c[a].0);
        }
    } else {
        lemma_fold_facts(c, pe.drop_last());
        let last = pe[pe.len() - 1];
        let (rest0, ord0) = reorder_fold(c, pe.drop_last());
        match find_key(rest0, last.0) {
            Some(j) => {
                lemma_find_key_found(rest0, last.0);
                let rest1 = swap_remove_at(rest0, j);
                let child = reorder(rest0[j].1, last.1);
                let ord1 = map_insert(ord0, last.0, child);
                assert(reorder_fold(c, pe) == (rest1, ord1));
                lemma_swap_remove(rest0, j);
                lemma_map_insert(ord0, last.0, child);
                assert(entry_of(c, rest0[j]));
                let a0 = choose|a: int| 0 <= a < c.len() && c[a] == rest0[j];
                assert forall|i: int| 0 <= i < rest1.len() implies entry_of(c, #[trigger] rest1[i]) by {
                    let b = choose|b: int| 0 <= b < rest0.len() && rest1[i] == rest0[b];
                    assert(entry_of(c, rest0[b]));
                }
                assert forall|i: int| 0 <= i < ord1.len() implies exists|a: int|
                    0 <= a < c.len() && #[trigger] c[a].0 == #[trigger] ord1[i].0 && derived(c[a].1, ord1[i].1) by {
                    if ord1[i].0 == last.0 && ord1[i].1 == child {
                        assert(c[a0].0 == ord1[i].0);
                        assert(ord1[i].1 == reorder(c[a0].1, last.1));
                        assert(derived(c[a0].1, ord1[i].1));
                    } else {
                        assert(ord1[i] == ord0[i]);
                        let a = choose|a: int| 0 <= a < c.len() && c[a].0 == ord0[i].0 && derived(c[a].1, ord0[i].1);
                        assert(c[a].0 == ord1[i].0);
                    }
                }
                assert forall|a: int| 0 <= a < c.len() implies has_key(rest1, #[trigger] c[a].0)
                    || has_key(ord1, c[a].0) by {
                    if has_key(ord0, c[a].0) {
                    } else {
                        assert(has_key(rest0, c[a].0));
                        let i = choose|i: int| 0 <= i < rest0.len() && rest0[i].0 == c[a].0;
                        if i == j {
                            assert(c[a].0 == last.0);
                        } else {
                            assert(has_key(rest1, rest0[i].0));
                        }
                    }
                }
            },
            None => {
                assert(reorder_fold(c, pe) == (rest0, ord0));
            },
        }
    }
}

pub proof fn lemma_append_facts(ordered: Seq<(YamlView, YamlView)>, rest: Seq<(YamlView, YamlView)>)
    requires
        keys_unique(ordered),
    ensures
        keys_unique(append_all(ordered, rest)),
        forall|i: int| 0 <= i < append_all(ordered, rest).len() ==> entry_of(ordered, #[trigger] append_all(ordered, rest)[i])
            || entry_of(rest, append_all(ordered, rest)[i]),
        forall|x: YamlView| has_key(ordered, x) ==> has_key(append_all(ordered, rest), x),
        forall|b: int| 0 <= b < rest.len() ==> has_key(append_all(ordered, rest), #[trigger] rest[b].0),
    decreases rest.len(),
{
    if rest.len() == 0 {
        assert forall|i: int| 0 <= i < ordered.len() implies entry_of(ordered, #[trigger] ordered[i]) by {
            assert(ordered[i] == ordered[i]);
        }
    }
    if rest.len() > 0 {
        let r0 = rest.drop_last();
        lemma_append_facts(ordered, r0);
        let prev = append_all(ordered, r0);
        let last = rest[rest.len() - 1];
        lemma_map_insert(prev, last.0, last.1);
        let r = append_all(ordered, rest);
        assert(r == map_insert(prev, last.0, last.1));
        assert forall|i: int| 0 <= i < r.len() implies entry_of(ordered, #[trigger] r[i]) || entry_of(rest, r[i]) by {
            if r[i].0 == last.0 && r[i].1 == last.1 {
                assert(r[i] == rest[rest.len() - 1]);
            } else {
                assert(r[i] == prev[i]);
                if entry_of(ordered, prev[i]) {
                } else {
                    let b = choose|b: int| 0 <= b < r0.len() && r0[b] == prev[i];
                    assert(rest[b] == r[i]);
                }
            }
        }
        assert forall|b: int| 0 <= b < rest.len() implies has_key(r, #[trigger] rest[b].0) by {
            if b < rest.len() - 1 {
                assert(rest[b] == r0[b]);
                assert(has_key(prev, r0[b].0));
            }
        }
    }
}

/// The entries of a reordered mapping: each key once, each key of the mapping kept, each
/// entry holding the value of an entry of the mapping with that key, or that value reordered.
pub proof fn lemma_reordered_entries(c: Seq<(YamlView, YamlView)>, pe: Seq<(YamlView, YamlView)>)
    ensures
        ({
            let (rest, ordered) = reorder_fold(c, pe);
            let out = append_all(ordered, rest);
            &&& keys_unique(out)
            &&& entries_from(c, out)
            &&& keys_kept(c, out)
        }),
{
    lemma_fold_facts(c, pe);
    let (rest, ordered) = reorder_fold(c, pe);
    lemma_append_facts(ordered, rest);
    let out = append_all(ordered, rest);
    assert forall|i: int| 0 <= i < out.len() implies exists|a: int|
        0 <= a < c.len() && #[trigger] c[a].0 == #[trigger] out[i].0 && derived(c[a].1, out[i].1) by {
        if entry_of(ordered, out[i]) {
            let o = choose|a: int| 0 <= a < ordered.len() && ordered[a] == out[i];
            let a = choose|a: int| 0 <= a < c.len() && c[a].0 == ordered[o].0 && derived(c[a].1, ordered[o].1);
            assert(c[a].0 == out[i].0);
        } else {
            let b = choose|b: int| 0 <= b < rest.len() && rest[b] == out[i];
            assert(entry_of(c, rest[b]));
            let a = choose|a: int| 0 <= a < c.len() && c[a] == rest[b];
            assert(c[a].0 == out[i].0);
            assert(derived(c[a].1, out[i].1));
        }
    }
    assert forall|a: int| 0 <= a < c.len() implies has_key(out, #[trigger] c[a].0) by {
        if has_key(rest, c[a].0) {
            let b = choose|b: int| 0 <= b < rest.len() && rest[b].0 == c[a].0;
            assert(has_key(out, rest[b].0));
        }
    }
}

/// The items of a reordered sequence: one for each, reordered where `pi` goes that far.
pub proof fn lemma_reordered_items(c: Seq<YamlView>, pi: Seq<YamlView>, n: nat)
    requires
        n <= c.len(),
    ensures
        reorder_items(c, pi, n).len() == n,
        forall|i: int| 0 <= i < n ==> #[trigger] reorder_items(c, pi, n)[i] == if i < pi.len() {
            reorder(c[i], pi[i])
        } else {
            c[i]
        },
    decreases n,
{
    if n > 0 {
        lemma_reordered_items(c, pi, (n - 1) as nat);
    }
}

// ---------------------------------------------------------------- reading fields of a reordered value

/// `out` is `c`, or `c` reordered: each key once, each key of `c` kept, each value derived.
pub open spec fn related(c: Seq<(YamlView, YamlView)>, out: Seq<(YamlView, YamlView)>) -> bool {
    out == c || (keys_unique(out) && entries_from(c, out) && keys_kept(c, out))
}

pub open spec fn related_items(c: Seq<YamlView>, out: Seq<YamlView>) -> bool {
    out.len() == c.len() && forall|i: int| 0 <= i < c.len() ==> derived(c[i], #[trigger] out[i])
}

/// A decoder that reads a reordered value as it reads the value.
pub open spec fn respects_reorder<T>(dec: spec_fn(YamlView) -> Option<T>) -> bool {
    forall|x: YamlView, q: YamlView|
        #![trigger dec(reorder(x, q))]
        dec(x) is Some ==> dec(reorder(x, q)) == dec(x)
}

pub proof fn lemma_reorder_shape(v: YamlView, p: YamlView)
    ensures
        v is Mapping ==> reorder(v, p) is Mapping,
        v is Sequence ==> reorder(v, p) is Sequence,
        !(v is Mapping) && !(v is Sequence) ==> reorder(v, p) == v,
{
}

pub proof fn lemma_struct_entries_reorder(v: YamlView, p: YamlView)
    requires
        struct_entries(v) is Some,
    ensures
        struct_entries(reorder(v, p)) is Some,
        related(struct_entries(v)->0, struct_entries(reorder(v, p))->0),
{
    let c = struct_entries(v)->0;
    match (v, p) {
        (YamlView::Mapping(cv), YamlView::Mapping(pe)) => {
            lemma_reordered_entries(cv, pe);
            let (rest, ordered) = reorder_fold(cv, pe);
            let out = append_all(ordered, rest);
            assert(reorder(v, p) == YamlView::Mapping(out));
            assert forall|i: int| 0 <= i < out.len() implies (#[trigger] key_name(out[i].0)) is Some by {
                let a = choose|a: int| 0 <= a < cv.len() && cv[a].0 == out[i].0 && derived(cv[a].1, out[i].1);
                assert(key_name(cv[a].0) is Some);
            }
        },
        _ => {
            lemma_reorder_shape(v, p);
        },
    }
}

pub proof fn lemma_field_kept(c: Seq<(YamlView, YamlView)>, out: Seq<(YamlView, YamlView)>, name: Seq<char>)
    requires
        related(c, out),
        !(read_field(c, name) is Repeated),
    ensures
        !(read_field(out, name) is Repeated),
        read_field(c, name) is Absent ==> read_field(out, name) is Absent,
        read_field(c, name) is Value ==> read_field(out, name) is Value
            && derived(read_field(c, name)->Value_0, read_field(out, name)->Value_0),
{
    if out == c {
        if read_field(c, name) is Value {
            assert(derived(read_field(c, name)->Value_0, read_field(out, name)->Value_0));
        }
    } else {
        assert(!field_repeated(c, name));
        if field_repeated(out, name) {
            let (i, j) = choose|i: int, j: int|
                0 <= i < j < out.len() && names_field(out[i], name) && names_field(out[j], name);
            let a = choose|a: int| 0 <= a < c.len() && c[a].0 == out[i].0 && derived(c[a].1, out[i].1);
            let b = choose|b: int| 0 <= b < c.len() && c[b].0 == out[j].0 && derived(c[b].1, out[j].1);
            assert(out[i].0 != out[j].0);
            assert(names_field(c[a], name) && names_field(c[b], name));
            if a < b {
                assert(field_repeated(c, name));
            } else {
                assert(field_repeated(c, name));
            }
        }
        if field_absent(c, name) {
            assert forall|i: int| 0 <= i < out.len() implies !names_field(#[trigger] out[i], name) by {
                let a = choose|a: int| 0 <= a < c.len() && c[a].0 == out[i].0 && derived(c[a].1, out[i].1);
                assert(!names_field(c[a], name));
            }
        } else {
            let s = field_slot(c, name);
            assert(names_field(c[s], name));
            assert(has_key(out, c[s].0));
            let t = choose|t: int| 0 <= t < out.len() && out[t].0 == c[s].0;
            assert(names_field(out[t], name));
            assert(!field_absent(out, name));
            let t2 = field_slot(out, name);
            assert(names_field(out[t2], name));
            if t2 != t {
                if t < t2 {
                    assert(field_repeated(out, name));
                } else {
                    assert(field_repeated(out, name));
                }
            }
            let a = choose|a: int| 0 <= a < c.len() && c[a].0 == out[t].0 && derived(c[a].1, out[t].1);
            assert(names_field(c[a], name));
            if a != s {
                if a < s {
                    assert(field_repeated(c, name));
                } else {
                    assert(field_repeated(c, name));
                }
            }
        }
    }
}

/// A field reads alike in a mapping and in the mapping reordered.
pub proof fn lemma_field_or_kept<T>(
    c: Seq<(YamlView, YamlView)>,
    out: Seq<(YamlView, YamlView)>,
    name: Seq<char>,
    d: T,
    dec: spec_fn(YamlView) -> Option<T>,
)
    requires
        related(c, out),
        field_or(c, name, d, dec) is Some,
        respects_reorder(dec),
    ensures
        field_or(out, name, d, dec) == field_or(c, name, d, dec),
{
    lemma_field_kept(c, out, name);
    if read_field(c, name) is Value {
        let x = read_field(c, name)->Value_0;
        let y = read_field(out, name)->Value_0;
        if y != x {
            let q = choose|q: YamlView| y == reorder(x, q);
            assert(dec(reorder(x, q)) == dec(x));
        }
    }
}

pub proof fn lemma_seq_items_reorder(v: YamlView, p: YamlView)
    requires
        seq_items(v) is Some,
    ensures
        seq_items(reorder(v, p)) is Some,
        related_items(seq_items(v)->0, seq_items(reorder(v, p))->0),
{
    let c = seq_items(v)->0;
    match (v, p) {
        (YamlView::Sequence(cv), YamlView::Sequence(pi)) => {
            lemma_reordered_items(cv, pi, cv.len());
            let out = reorder_items(cv, pi, cv.len());
            assert(reorder(v, p) == YamlView::Sequence(out));
            assert forall|i: int| 0 <= i < cv.len() implies derived(cv[i], #[trigger] out[i]) by {
                if i < pi.len() {
                    assert(out[i] == reorder(cv[i], pi[i]));
                }
            }
        },
        _ => {
            lemma_reorder_shape(v, p);
            assert forall|i: int| 0 <= i < c.len() implies derived(c[i], #[trigger] c[i]) by {}
        },
    }
}

/// A sequence reads alike item by item when each item reads alike.
pub proof fn lemma_decode_all_kept<T>(c: Seq<YamlView>, out: Seq<YamlView>, dec: spec_fn(YamlView) -> Option<T>)
    requires
        related_items(c, out),
        decode_all(c, dec) is Some,
        respects_reorder(dec),
    ensures
        decode_all(out, dec) == decode_all(c, dec),
{
    assert forall|i: int| 0 <= i < out.len() implies #[trigger] dec(out[i]) == dec(c[i]) by {
        assert(dec(c[i]) is Some);
        if out[i] != c[i] {
            let q = choose|q: YamlView| out[i] == reorder(c[i], q);
            assert(dec(reorder(c[i], q)) == dec(c[i]));
        }
    }
    assert(Seq::new(out.len(), |i: int| dec(out[i])->0) =~= Seq::new(c.len(), |i: int| dec(c[i])->0));
}

} // verus!
