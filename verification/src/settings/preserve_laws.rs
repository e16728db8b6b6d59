use vstd::prelude::*;
use crate::settings::model::AppSettingsView;
use crate::settings::preserve::{
    collect_items, collect_keys, collect_missing, insert_all, insert_at, insert_each_keeping, preserve_spec, reorder,
    reorder_fold, append_all, SegmentView,
};
use crate::settings::reorder_laws::{has_key, lemma_map_insert, lemma_reordered_entries};
use crate::yaml::{YamlView, find_key};

verus! {

/// Every key of the mapping `a` is a key of the mapping `b`.
pub open spec fn top_keys_kept(a: YamlView, b: YamlView) -> bool {
    match (a, b) {
        (YamlView::Mapping(ea), YamlView::Mapping(eb)) => forall|x: YamlView| has_key(ea, x) ==> #[trigger] has_key(eb, x),
        _ => false,
    }
}

/// Every path of `m` has at least `len` segments.
pub open spec fn paths_below(m: Seq<(Seq<SegmentView>, YamlView)>, len: nat) -> bool {
    forall|i: int| 0 <= i < m.len() ==> (#[trigger] m[i]).0.len() >= len
}

/// Every path of the entries missing below `path` extends `path`, by a segment at least when
/// there is something at `path`.
pub proof fn lemma_missing_paths_below(cur: Option<YamlView>, prev: YamlView, path: Seq<SegmentView>)
    ensures
        paths_below(collect_missing(cur, prev, path), path.len()),
        cur is Some ==> paths_below(collect_missing(cur, prev, path), path.len() + 1),
{
    lemma_missing_paths(cur, prev, path);
}

proof fn lemma_missing_paths(cur: Option<YamlView>, prev: YamlView, path: Seq<SegmentView>)
    ensures
        paths_below(collect_missing(cur, prev, path), path.len()),
        cur is Some ==> paths_below(collect_missing(cur, prev, path), path.len() + 1),
    decreases prev, 0int,
{
    match cur {
        None => {},
        Some(c) => match (c, prev) {
            (YamlView::Mapping(ce), YamlView::Mapping(pe)) => {
                lemma_key_paths(ce, pe, path);
            },
            (YamlView::Sequence(ci), YamlView::Sequence(pi)) => {
                lemma_item_paths(ci, pi, path, if ci.len() < pi.len() { ci.len() } else { pi.len() });
            },
            _ => {},
        },
    }
}

proof fn lemma_key_paths(ce: Seq<(YamlView, YamlView)>, pe: Seq<(YamlView, YamlView)>, path: Seq<SegmentView>)
    ensures
        paths_below(collect_keys(ce, pe, path), path.len() + 1),
    decreases pe, 0int,
{
    if pe.len() > 0 {
        let last = pe[pe.len() - 1];
        lemma_key_paths(ce, pe.drop_last(), path);
        let p2 = path.push(SegmentView::Key(last.0));
        lemma_missing_paths(crate::yaml::map_get(ce, last.0), last.1, p2);
        let a = collect_keys(ce, pe.drop_last(), path);
        let b = collect_missing(crate::yaml::map_get(ce, last.0), last.1, p2);
        assert forall|i: int| 0 <= i < (a + b).len() implies (#[trigger] (a + b)[i]).0.len() >= path.len() + 1 by {
            if i < a.len() {
                assert((a + b)[i] == a[i]);
            } else {
                assert((a + b)[i] == b[i - a.len()]);
            }
        }
    }
}

proof fn lemma_item_paths(ci: Seq<YamlView>, pi: Seq<YamlView>, path: Seq<SegmentView>, n: nat)
    ensures
        paths_below(collect_items(ci, pi, path, n), path.len() + 1),
    decreases pi, n,
{
    if !(n == 0 || n > pi.len() || n > ci.len()) {
        lemma_item_paths(ci, pi, path, (n - 1) as nat);
        let p2 = path.push(SegmentView::Index((n - 1) as nat));
        lemma_missing_paths(Some(ci[n - 1]), pi[n - 1], p2);
        let a = collect_items(ci, pi, path, (n - 1) as nat);
        let b = collect_missing(Some(ci[n - 1]), pi[n - 1], p2);
        assert forall|i: int| 0 <= i < (a + b).len() implies (#[trigger] (a + b)[i]).0.len() >= path.len() + 1 by {
            if i < a.len() {
                assert((a + b)[i] == a[i]);
            } else {
                assert((a + b)[i] == b[i - a.len()]);
            }
        }
    }
}

proof fn lemma_insert_keeps(v: YamlView, path: Seq<SegmentView>, e: YamlView)
    requires
        v is Mapping,
        path.len() >= 1,
        insert_at(v, path, e) is Some,
    ensures
        top_keys_kept(v, insert_at(v, path, e)->0),
{
    let es = v->Mapping_0;
    let w = insert_at(v, path, e)->0;
    if path.len() == 1 {
        match path[0] {
            SegmentView::Key(k) => {
                lemma_map_insert(es, k, e);
            },
            SegmentView::Index(_) => {},
        }
    } else {
        match path[0] {
            SegmentView::Key(k) => {
                let j = find_key(es, k)->0;
                let c = insert_at(es[j].1, path.drop_first(), e)->0;
                let es2 = es.update(j, (es[j].0, c));
                assert(w == YamlView::Mapping(es2));
                assert forall|x: YamlView| has_key(es, x) implies #[trigger] has_key(es2, x) by {
                    let i = choose|i: int| 0 <= i < es.len() && #[trigger] es[i].0 == x;
                    assert(es2[i].0 == x);
                }
            },
            SegmentView::Index(_) => {},
        }
    }
}

proof fn lemma_insert_all_keeps(v: YamlView, missing: Seq<(Seq<SegmentView>, YamlView)>)
    requires
        v is Mapping,
        paths_below(missing, 1),
        insert_all(v, missing) is Some,
    ensures
        insert_all(v, missing)->0 is Mapping,
        top_keys_kept(v, insert_all(v, missing)->0),
    decreases missing.len(),
{
    if missing.len() == 0 {
        assert(top_keys_kept(v, v));
    } else {
        let init = missing.drop_last();
        assert(paths_below(init, 1)) by {
            assert forall|i: int| 0 <= i < init.len() implies (#[trigger] init[i]).0.len() >= 1 by {
                assert(init[i] == missing[i]);
            }
        }
        lemma_insert_all_keeps(v, init);
        let w = insert_all(v, init)->0;
        let last = missing[missing.len() - 1];
        lemma_insert_keeps(w, last.0, last.1);
    }
}

proof fn lemma_insert_each_keeps(v: YamlView, missing: Seq<(Seq<SegmentView>, YamlView)>, s: AppSettingsView)
    requires
        v is Mapping,
        paths_below(missing, 1),
    ensures
        insert_each_keeping(v, missing, s) is Mapping,
        top_keys_kept(v, insert_each_keeping(v, missing, s)),
    decreases missing.len(),
{
    if missing.len() == 0 {
        assert(top_keys_kept(v, v));
    } else {
        let init = missing.drop_last();
        assert(paths_below(init, 1)) by {
            assert forall|i: int| 0 <= i < init.len() implies (#[trigger] init[i]).0.len() >= 1 by {
                assert(init[i] == missing[i]);
            }
        }
        lemma_insert_each_keeps(v, init, s);
        let w = insert_each_keeping(v, init, s);
        let last = missing[missing.len() - 1];
        if insert_at(w, last.0, last.1) is Some {
            lemma_insert_keeps(w, last.0, last.1);
        }
    }
}

/// Writing a document back over a previous one never loses a top-level key of the
/// document written: the missing entries of the previous document are only added, and
/// taking the previous document's key order only moves keys.
pub proof fn lemma_preserve_keeps_top_level_keys(value: YamlView, previous: YamlView, s: AppSettingsView)
    requires
        value is Mapping,
    ensures
        top_keys_kept(value, preserve_spec(value, previous, s)),
{
    let missing = collect_missing(Some(value), previous, Seq::empty());
    lemma_missing_paths(Some(value), previous, Seq::empty());
    lemma_insert_each_keeps(value, missing, s);
    if insert_all(value, missing) is Some {
        lemma_insert_all_keeps(value, missing);
    }
    let kept = match insert_all(value, missing) {
        Some(b) => if crate::settings::decode::decode_settings_spec(b) == Some(s) {
            b
        } else {
            insert_each_keeping(value, missing, s)
        },
        None => insert_each_keeping(value, missing, s),
    };
    assert(top_keys_kept(value, kept));
    match previous {
        YamlView::Mapping(pe) => {
            let c = kept->Mapping_0;
            lemma_reordered_entries(c, pe);
            let (rest, ordered) = reorder_fold(c, pe);
            let out = append_all(ordered, rest);
            assert(reorder(kept, previous) == YamlView::Mapping(out));
            assert forall|x: YamlView| has_key(c, x) implies #[trigger] has_key(out, x) by {
                let a = choose|a: int| 0 <= a < c.len() && #[trigger] c[a].0 == x;
                assert(has_key(out, c[a].0));
            }
        },
        _ => {},
    }
}

} // verus!
