use vstd::prelude::*;
use crate::settings::decode::{decode_settings, decode_settings_spec};
use crate::settings::document::{remove_malformed_prefilter_pattern_entries, strip_patterns_spec};
use crate::settings::encode::{encode_settings, encode_settings_spec};
use crate::settings::model::{AppSettings, AppSettingsView};
use crate::yaml::{
    YamlValue, YamlEntry, YamlView, entries_view, items_view, lemma_entries_view, lemma_items_view,
    lemma_entries_view_ext, lemma_items_view_ext, find_key, map_get, map_insert, swap_remove_at, find_entry,
    insert_entry, clone_yaml,
};

verus! {

// ---------------------------------------------------------------- paths into a document

/// One step of a path into a document: a mapping key or a sequence position.
#[derive(Debug)]
pub enum ConfigPathSegment {
    Key(YamlValue),
    Index(usize),
}

pub enum SegmentView {
    Key(YamlView),
    Index(nat),
}

impl View for ConfigPathSegment {
    type V = SegmentView;

    open spec fn view(&self) -> SegmentView {
        match self {
            ConfigPathSegment::Key(k) => SegmentView::Key(k@),
            ConfigPathSegment::Index(i) => SegmentView::Index(*i as nat),
        }
    }
}

pub open spec fn path_view(p: Seq<ConfigPathSegment>) -> Seq<SegmentView> {
    p.map_values(|s: ConfigPathSegment| s@)
}

fn clone_segment(s: &ConfigPathSegment) -> (r: ConfigPathSegment)
    ensures
        r@ == s@,
{
    match s {
        ConfigPathSegment::Key(k) => ConfigPathSegment::Key(clone_yaml(k)),
        ConfigPathSegment::Index(i) => ConfigPathSegment::Index(*i),
    }
}

fn clone_path(p: &Vec<ConfigPathSegment>) -> (r: Vec<ConfigPathSegment>)
    ensures
        path_view(r@) == path_view(p@),
{
    let mut out: Vec<ConfigPathSegment> = Vec::new();
    let mut i: usize = 0;
    while i < p.len()
        invariant
            i <= p.len(),
            out@.len() == i,
            forall|j: int| 0 <= j < i ==> (#[trigger] out@[j])@ == p@[j]@,
        decreases p.len() - i,
    {
        out.push(clone_segment(&p[i]));
        i = i + 1;
    }
    assert(path_view(out@) =~= path_view(p@));
    out
}

/// An entry of the previous document that the new one lacks, with where it was.
#[derive(Debug)]
pub struct MissingConfigEntry {
    pub path: Vec<ConfigPathSegment>,
    pub value: YamlValue,
}

pub open spec fn missing_view(m: Seq<MissingConfigEntry>) -> Seq<(Seq<SegmentView>, YamlView)> {
    m.map_values(|e: MissingConfigEntry| (path_view(e.path@), e.value@))
}

pub open spec fn opt_view(v: Option<&YamlValue>) -> Option<YamlView> {
    match v {
        Some(x) => Some(x@),
        None => None,
    }
}

// ---------------------------------------------------------------- what the new document lacks

/// The entries of `previous` that `current` lacks, each with its path, in document order.
/// Mappings are compared key by key, sequences position by position as far as both go.
pub open spec fn collect_missing(
    current: Option<YamlView>,
    previous: YamlView,
    path: Seq<SegmentView>,
) -> Seq<(Seq<SegmentView>, YamlView)>
    decreases previous, 0int,
{
    match current {
        None => seq![(path, previous)],
        Some(c) => match (c, previous) {
            (YamlView::Mapping(ce), YamlView::Mapping(pe)) => collect_keys(ce, pe, path),
            (YamlView::Sequence(ci), YamlView::Sequence(pi)) => collect_items(
                ci,
                pi,
                path,
                if ci.len() < pi.len() { ci.len() } else { pi.len() },
            ),
            _ => Seq::empty(),
        },
    }
}

pub open spec fn collect_keys(
    ce: Seq<(YamlView, YamlView)>,
    pe: Seq<(YamlView, YamlView)>,
    path: Seq<SegmentView>,
) -> Seq<(Seq<SegmentView>, YamlView)>
    decreases pe, 0int,
{
    if pe.len() == 0 {
        Seq::empty()
    } else {
        let last = pe[pe.len() - 1];
        collect_keys(ce, pe.drop_last(), path) + collect_missing(
            map_get(ce, last.0),
            last.1,
            path.push(SegmentView::Key(last.0)),
        )
    }
}

pub open spec fn collect_items(
    ci: Seq<YamlView>,
    pi: Seq<YamlView>,
    path: Seq<SegmentView>,
    n: nat,
) -> Seq<(Seq<SegmentView>, YamlView)>
    decreases pi, n,
{
    if n == 0 || n > pi.len() || n > ci.len() {
        Seq::empty()
    } else {
        collect_items(ci, pi, path, (n - 1) as nat) + collect_missing(
            Some(ci[n - 1]),
            pi[n - 1],
            path.push(SegmentView::Index((n - 1) as nat)),
        )
    }
}

proof fn lemma_path_push(p: Seq<ConfigPathSegment>, s: ConfigPathSegment)
    ensures
        path_view(p.push(s)) == path_view(p).push(s@),
{
    assert(path_view(p.push(s)) =~= path_view(p).push(s@));
}

proof fn lemma_path_pop(p: Seq<ConfigPathSegment>)
    requires
        p.len() > 0,
    ensures
        path_view(p.drop_last()) == path_view(p).drop_last(),
{
    assert(path_view(p.drop_last()) =~= path_view(p).drop_last());
}

proof fn lemma_missing_push(m: Seq<MissingConfigEntry>, e: MissingConfigEntry)
    ensures
        missing_view(m.push(e)) == missing_view(m).push((path_view(e.path@), e.value@)),
{
    assert(missing_view(m.push(e)) =~= missing_view(m).push((path_view(e.path@), e.value@)));
}

/// Collects the entries of `previous` that `current` lacks, with their paths below `path`.
#[verifier::loop_isolation(false)]
fn collect_missing_entries(
    current: Option<&YamlValue>,
    previous: &YamlValue,
    path: &mut Vec<ConfigPathSegment>,
    missing: &mut Vec<MissingConfigEntry>,
)
    ensures
        path_view(final(path)@) == path_view(old(path)@),
        missing_view(final(missing)@) == missing_view(old(missing)@) + collect_missing(
            opt_view(current),
            previous@,
            path_view(old(path)@),
        ),
    decreases previous,
{
    let ghost pv0 = path_view(path@);
    let ghost mv0 = missing_view(missing@);
    let current = match current {
        None => {
            let e = MissingConfigEntry { path: clone_path(path), value: clone_yaml(previous) };
            proof {
                lemma_missing_push(missing@, e);
            }
            missing.push(e);
            assert(missing_view(missing@) =~= mv0 + seq![(pv0, previous@)]);
            return;
        },
        Some(c) => c,
    };
    match current {
        YamlValue::Mapping(ce) => match previous {
            YamlValue::Mapping(pe) => {
                let ghost cv = entries_view(ce@);
                let ghost pev = entries_view(pe@);
                proof {
                    lemma_entries_view(ce@);
                    lemma_entries_view(pe@);
                    assert(pev.subrange(0, 0) =~= Seq::<(YamlView, YamlView)>::empty());
                    assert(mv0 + collect_keys(cv, pev.subrange(0, 0), pv0) =~= mv0);
                }
                let mut i: usize = 0;
                while i < pe.len()
                    invariant
                        i <= pe.len(),
                        path_view(path@) == pv0,
                        missing_view(missing@) == mv0 + collect_keys(cv, pev.subrange(0, i as int), pv0),
                    decreases pe.len() - i,
                {
                    proof {
                        lemma_entries_view(ce@);
                        lemma_entries_view(pe@);
                        assert(decreases_to!(*previous => *pe));
                        vstd::std_specs::vec::axiom_vec_index_decreases(*pe, i as int);
                    }
                    let found = find_entry(ce, &pe[i].key);
                    let child = match found {
                        Some(j) => Some(&ce[j].value),
                        None => None,
                    };
                    assert(opt_view(child) == map_get(cv, pev[i as int].0));
                    let seg = ConfigPathSegment::Key(clone_yaml(&pe[i].key));
                    let ghost before = missing_view(missing@);
                    proof {
                        lemma_path_push(path@, seg);
                    }
                    path.push(seg);
                    collect_missing_entries(child, &pe[i].value, path, missing);
                    let ghost pushed = path@;
                    path.pop();
                    proof {
                        assert(path_view(pushed).len() == pushed.len());
                        lemma_path_pop(pushed);
                        assert(pushed.drop_last() == path@);
                        let sub = pev.subrange(0, i + 1);
                        assert(sub.drop_last() =~= pev.subrange(0, i as int));
                        assert(sub[sub.len() - 1] == pev[i as int]);
                        assert(missing_view(missing@) =~= mv0 + collect_keys(cv, sub, pv0));
                    }
                    i = i + 1;
                }
                proof {
                    assert(pev.subrange(0, pe.len() as int) =~= pev);
                }
            },
            _ => {
                assert(missing_view(missing@) =~= mv0 + Seq::<(Seq<SegmentView>, YamlView)>::empty());
            },
        },
        YamlValue::Sequence(ci) => match previous {
            YamlValue::Sequence(pi) => {
                let ghost civ = items_view(ci@);
                let ghost piv = items_view(pi@);
                proof {
                    lemma_items_view(ci@);
                    lemma_items_view(pi@);
                    assert(mv0 + collect_items(civ, piv, pv0, 0) =~= mv0);
                }
                let n: usize = if ci.len() < pi.len() { ci.len() } else { pi.len() };
                let mut i: usize = 0;
                while i < n
                    invariant
                        i <= n,
                        n <= ci.len(),
                        n <= pi.len(),
                        path_view(path@) == pv0,
                        missing_view(missing@) == mv0 + collect_items(civ, piv, pv0, i as nat),
                    decreases n - i,
                {
                    proof {
                        lemma_items_view(ci@);
                        lemma_items_view(pi@);
                        assert(decreases_to!(*previous => *pi));
                        vstd::std_specs::vec::axiom_vec_index_decreases(*pi, i as int);
                    }
                    let seg = ConfigPathSegment::Index(i);
                    proof {
                        lemma_path_push(path@, seg);
                    }
                    path.push(seg);
                    collect_missing_entries(Some(&ci[i]), &pi[i], path, missing);
                    let ghost pushed = path@;
                    path.pop();
                    proof {
                        assert(path_view(pushed).len() == pushed.len());
                        lemma_path_pop(pushed);
                        assert(missing_view(missing@) =~= mv0 + collect_items(civ, piv, pv0, (i + 1) as nat));
                    }
                    i = i + 1;
                }
            },
            _ => {
                assert(missing_view(missing@) =~= mv0 + Seq::<(Seq<SegmentView>, YamlView)>::empty());
            },
        },
        _ => {
            assert(missing_view(missing@) =~= mv0 + Seq::<(Seq<SegmentView>, YamlView)>::empty());
        },
    }
}

// ---------------------------------------------------------------- putting an entry back

/// The document with `entry` put at `path`: a key is stored into its mapping, a position
/// is inserted into its sequence; `None` where the path does not lead into the document.
pub open spec fn insert_at(v: YamlView, path: Seq<SegmentView>, entry: YamlView) -> Option<YamlView>
    decreases path.len(),
{
    if path.len() == 0 {
        Some(entry)
    } else if path.len() == 1 {
        match path[0] {
            SegmentView::Key(k) => match v {
                YamlView::Mapping(es) => Some(YamlView::Mapping(map_insert(es, k, entry))),
                _ => None,
            },
            SegmentView::Index(i) => match v {
                YamlView::Sequence(items) => if i <= items.len() {
                    Some(YamlView::Sequence(items.insert(i as int, entry)))
                } else {
                    None
                },
                _ => None,
            },
        }
    } else {
        match path[0] {
            SegmentView::Key(k) => match v {
                YamlView::Mapping(es) => match find_key(es, k) {
                    Some(j) => match insert_at(es[j].1, path.drop_first(), entry) {
                        Some(c) => Some(YamlView::Mapping(es.update(j, (es[j].0, c)))),
                        None => None,
                    },
                    None => None,
                },
                _ => None,
            },
            SegmentView::Index(i) => match v {
                YamlView::Sequence(items) => if i < items.len() {
                    match insert_at(items[i as int], path.drop_first(), entry) {
                        Some(c) => Some(YamlView::Sequence(items.update(i as int, c))),
                        None => None,
                    }
                } else {
                    None
                },
                _ => None,
            },
        }
    }
}

/// Puts `entry` at `path[start..]`; gives the document back unchanged, with `false`, where
/// the path does not lead into it.
fn insert_config_entry(v: YamlValue, path: &Vec<ConfigPathSegment>, start: usize, entry: YamlValue) -> (r: (
    YamlValue,
    bool,
))
    requires
        start <= path.len(),
    ensures
        r.1 ==> insert_at(v@, path_view(path@).subrange(start as int, path.len() as int), entry@) == Some(r.0@),
        !r.1 ==> insert_at(v@, path_view(path@).subrange(start as int, path.len() as int), entry@) is None
            && r.0@ == v@,
    decreases path.len() - start,
{
    let ghost sub = path_view(path@).subrange(start as int, path.len() as int);
    if start == path.len() {
        return (entry, true);
    }
    assert(sub[0] == path@[start as int]@);
    if start + 1 == path.len() {
        match &path[start] {
            ConfigPathSegment::Key(k) => match v {
                YamlValue::Mapping(mut es) => {
                    insert_entry(&mut es, clone_yaml(k), entry);
                    (YamlValue::Mapping(es), true)
                },
                other => {
                    assert(insert_at(v@, sub, entry@) is None);
                    (other, false)
                },
            },
            ConfigPathSegment::Index(i) => match v {
                YamlValue::Sequence(mut items) => {
                    if *i <= items.len() {
                        let ghost before = items@;
                        proof {
                            lemma_items_view(before);
                        }
                        let ghost ev = entry@;
                        items.insert(*i, entry);
                        proof {
                            lemma_items_view(items@);
                            lemma_items_view_ext(items@, items_view(before).insert(*i as int, ev));
                        }
                        (YamlValue::Sequence(items), true)
                    } else {
                        proof {
                            lemma_items_view(items@);
                        }
                        (YamlValue::Sequence(items), false)
                    }
                },
                other => {
                    assert(insert_at(v@, sub, entry@) is None);
                    (other, false)
                },
            },
        }
    } else {
        assert(sub.drop_first() =~= path_view(path@).subrange(start + 1, path.len() as int));
        match &path[start] {
            ConfigPathSegment::Key(k) => match v {
                YamlValue::Mapping(mut es) => {
                    let ghost ev = entries_view(es@);
                    match find_entry(&es, k) {
                        Some(j) => {
                            proof {
                                lemma_entries_view(es@);
                            }
                            let e = es.remove(j);
                            let ghost old_child = e.value@;
                            let (c, ok) = insert_config_entry(e.value, path, start + 1, entry);
                            let ghost cv = c@;
                            es.insert(j, YamlEntry { key: e.key, value: c });
                            proof {
                                lemma_entries_view(es@);
                                lemma_entries_view_ext(es@, ev.update(j as int, (ev[j as int].0, cv)));
                                if !ok {
                                    assert(ev.update(j as int, (ev[j as int].0, cv)) =~= ev);
                                    assert(insert_at(v@, sub, entry@) is None);
                                }
                            }
                            (YamlValue::Mapping(es), ok)
                        },
                        None => {
                            assert(insert_at(v@, sub, entry@) is None);
                            (YamlValue::Mapping(es), false)
                        },
                    }
                },
                other => {
                    assert(insert_at(v@, sub, entry@) is None);
                    (other, false)
                },
            },
            ConfigPathSegment::Index(i) => match v {
                YamlValue::Sequence(mut items) => {
                    if *i < items.len() {
                        let ghost iv = items_view(items@);
                        proof {
                            lemma_items_view(items@);
                        }
                        let x = items.remove(*i);
                        let (c, ok) = insert_config_entry(x, path, start + 1, entry);
                        let ghost cv = c@;
                        items.insert(*i, c);
                        proof {
                            lemma_items_view(items@);
                            lemma_items_view_ext(items@, iv.update(*i as int, cv));
                            if !ok {
                                assert(iv.update(*i as int, cv) =~= iv);
                                assert(insert_at(v@, sub, entry@) is None);
                            }
                        }
                        (YamlValue::Sequence(items), ok)
                    } else {
                        proof {
                            lemma_items_view(items@);
                        }
                        (YamlValue::Sequence(items), false)
                    }
                },
                other => {
                    assert(insert_at(v@, sub, entry@) is None);
                    (other, false)
                },
            },
        }
    }
}

// ---------------------------------------------------------------- the previous key order

/// `v` with the keys of each mapping in the order that the matching mapping of `previous`
/// has them; keys that `previous` lacks follow, in the order that remains after the others
/// were taken out (each taking out moves the last entry into the gap). Sequences are
/// reordered position by position as far as `previous` goes.
pub open spec fn reorder(v: YamlView, previous: YamlView) -> YamlView
    decreases previous, 0int,
{
    match (v, previous) {
        (YamlView::Mapping(c), YamlView::Mapping(pe)) => {
            let (rest, ordered) = reorder_fold(c, pe);
            YamlView::Mapping(append_all(ordered, rest))
        },
        (YamlView::Sequence(c), YamlView::Sequence(pi)) => YamlView::Sequence(reorder_items(c, pi, c.len())),
        _ => v,
    }
}

/// Takes the keys of `pe` out of `c` in order, reordering what each holds; gives what is left
/// of `c` and the entries taken.
pub open spec fn reorder_fold(
    c: Seq<(YamlView, YamlView)>,
    pe: Seq<(YamlView, YamlView)>,
) -> (Seq<(YamlView, YamlView)>, Seq<(YamlView, YamlView)>)
    decreases pe, 0int,
{
    if pe.len() == 0 {
        (c, Seq::empty())
    } else {
        let last = pe[pe.len() - 1];
        let (rest, ordered) = reorder_fold(c, pe.drop_last());
        match find_key(rest, last.0) {
            Some(j) => (
                swap_remove_at(rest, j),
                map_insert(ordered, last.0, reorder(rest[j].1, last.1)),
            ),
            None => (rest, ordered),
        }
    }
}

pub open spec fn append_all(
    ordered: Seq<(YamlView, YamlView)>,
    rest: Seq<(YamlView, YamlView)>,
) -> Seq<(YamlView, YamlView)>
    decreases rest.len(),
{
    if rest.len() == 0 {
        ordered
    } else {
        map_insert(append_all(ordered, rest.drop_last()), rest.last().0, rest.last().1)
    }
}

pub open spec fn reorder_items(c: Seq<YamlView>, pi: Seq<YamlView>, n: nat) -> Seq<YamlView>
    decreases pi, n,
{
    if n == 0 || n > c.len() {
        Seq::empty()
    } else {
        reorder_items(c, pi, (n - 1) as nat).push(
            if n - 1 < pi.len() {
                reorder(c[n - 1], pi[n - 1])
            } else {
                c[n - 1]
            },
        )
    }
}

proof fn lemma_swap_remove_view(es: Seq<YamlEntry>, j: int)
    requires
        0 <= j < es.len(),
    ensures
        entries_view(es.update(j, es.last()).drop_last()) == swap_remove_at(entries_view(es), j),
{
    lemma_entries_view(es);
    lemma_entries_view(es.update(j, es.last()).drop_last());
    assert(entries_view(es.update(j, es.last()).drop_last()) =~= swap_remove_at(entries_view(es), j));
}

/// Orders the keys of each mapping of `value` as the matching mapping of `previous` has them.
#[verifier::loop_isolation(false)]
fn reorder_mappings_like_previous(value: YamlValue, previous: &YamlValue) -> (r: YamlValue)
    ensures
        r@ == reorder(value@, previous@),
    decreases previous,
{
    match value {
        YamlValue::Mapping(c) => match previous {
            YamlValue::Mapping(pe) => {
                let ghost cv = entries_view(c@);
                let ghost pev = entries_view(pe@);
                proof {
                    lemma_entries_view(pe@);
                    assert(pev.subrange(0, 0) =~= Seq::<(YamlView, YamlView)>::empty());
                }
                let mut rest = c;
                let mut ordered: Vec<YamlEntry> = Vec::new();
                let mut i: usize = 0;
                while i < pe.len()
                    invariant
                        i <= pe.len(),
                        (entries_view(rest@), entries_view(ordered@)) == reorder_fold(cv, pev.subrange(0, i as int)),
                    decreases pe.len() - i,
                {
                    proof {
                        lemma_entries_view(pe@);
                        assert(decreases_to!(*previous => *pe));
                        vstd::std_specs::vec::axiom_vec_index_decreases(*pe, i as int);
                        let sub = pev.subrange(0, i + 1);
                        assert(sub.drop_last() =~= pev.subrange(0, i as int));
                        assert(sub[sub.len() - 1] == pev[i as int]);
                    }
                    let ghost rv = entries_view(rest@);
                    match find_entry(&rest, &pe[i].key) {
                        Some(j) => {
                            proof {
                                lemma_entries_view(rest@);
                                lemma_swap_remove_view(rest@, j as int);
                            }
                            let e = rest.swap_remove(j);
                            let child = reorder_mappings_like_previous(e.value, &pe[i].value);
                            insert_entry(&mut ordered, clone_yaml(&pe[i].key), child);
                        },
                        None => {},
                    }
                    i = i + 1;
                }
                proof {
                    assert(pev.subrange(0, pe.len() as int) =~= pev);
                }
                let ghost rv = entries_view(rest@);
                let ghost ov = entries_view(ordered@);
                proof {
                    lemma_entries_view(rest@);
                    assert(rv.subrange(0, 0) =~= Seq::<(YamlView, YamlView)>::empty());
                }
                let mut k: usize = 0;
                while k < rest.len()
                    invariant
                        k <= rest.len(),
                        rv == entries_view(rest@),
                        entries_view(ordered@) == append_all(ov, rv.subrange(0, k as int)),
                    decreases rest.len() - k,
                {
                    proof {
                        lemma_entries_view(rest@);
                        let sub = rv.subrange(0, k + 1);
                        assert(sub.drop_last() =~= rv.subrange(0, k as int));
                        assert(sub.last() == rv[k as int]);
                    }
                    insert_entry(&mut ordered, clone_yaml(&rest[k].key), clone_yaml(&rest[k].value));
                    k = k + 1;
                }
                proof {
                    lemma_entries_view(rest@);
                    assert(rv.subrange(0, rest.len() as int) =~= rv);
                }
                YamlValue::Mapping(ordered)
            },
            _ => YamlValue::Mapping(c),
        },
        YamlValue::Sequence(c) => match previous {
            YamlValue::Sequence(pi) => {
                let ghost civ = items_view(c@);
                let ghost piv = items_view(pi@);
                proof {
                    lemma_items_view(c@);
                    lemma_items_view(pi@);
                }
                let mut out: Vec<YamlValue> = Vec::new();
                let mut k: usize = 0;
                while k < c.len()
                    invariant
                        k <= c.len(),
                        civ == items_view(c@),
                        items_view(out@) == reorder_items(civ, piv, k as nat),
                    decreases c.len() - k,
                {
                    proof {
                        lemma_items_view(c@);
                        lemma_items_view(pi@);
                    }
                    let x = clone_yaml(&c[k]);
                    let y = if k < pi.len() {
                        proof {
                            assert(decreases_to!(*previous => *pi));
                            vstd::std_specs::vec::axiom_vec_index_decreases(*pi, k as int);
                        }
                        reorder_mappings_like_previous(x, &pi[k])
                    } else {
                        x
                    };
                    proof {
                        lemma_items_view(out@);
                        lemma_items_view(out@.push(y));
                        lemma_items_view_ext(out@.push(y), items_view(out@).push(y@));
                    }
                    out.push(y);
                    k = k + 1;
                }
                YamlValue::Sequence(out)
            },
            _ => YamlValue::Sequence(c),
        },
        other => other,
    }
}

// ---------------------------------------------------------------- keeping what the user wrote

/// Puts every missing entry back, in order; `None` where one of them does not fit.
pub open spec fn insert_all(v: YamlView, missing: Seq<(Seq<SegmentView>, YamlView)>) -> Option<YamlView>
    decreases missing.len(),
{
    if missing.len() == 0 {
        Some(v)
    } else {
        match insert_all(v, missing.drop_last()) {
            Some(w) => insert_at(w, missing.last().0, missing.last().1),
            None => None,
        }
    }
}

/// Puts the missing entries back one by one, keeping each that fits and leaves the
/// settings `s` as they are.
pub open spec fn insert_each_keeping(
    v: YamlView,
    missing: Seq<(Seq<SegmentView>, YamlView)>,
    s: AppSettingsView,
) -> YamlView
    decreases missing.len(),
{
    if missing.len() == 0 {
        v
    } else {
        let w = insert_each_keeping(v, missing.drop_last(), s);
        match insert_at(w, missing.last().0, missing.last().1) {
            Some(c) => if decode_settings_spec(c) == Some(s) {
                c
            } else {
                w
            },
            None => w,
        }
    }
}

/// The document for settings `s`, written as `value`, with the entries of `previous` that it
/// lacks put back where that leaves the settings as they are: all at once where that works,
/// else one by one; and with its keys in the order of `previous`.
pub open spec fn preserve_spec(value: YamlView, previous: YamlView, s: AppSettingsView) -> YamlView {
    let missing = collect_missing(Some(value), previous, Seq::empty());
    let kept = match insert_all(value, missing) {
        Some(b) => if decode_settings_spec(b) == Some(s) {
            b
        } else {
            insert_each_keeping(value, missing, s)
        },
        None => insert_each_keeping(value, missing, s),
    };
    reorder(kept, previous)
}

fn same_settings(candidate: &YamlValue, settings: &AppSettings) -> (r: bool)
    ensures
        r == (decode_settings_spec(candidate@) == Some(settings@)),
{
    match decode_settings(candidate) {
        Ok(read) => read.eq_view(settings),
        Err(_) => false,
    }
}

fn insert_batch(value: &YamlValue, missing: &Vec<MissingConfigEntry>) -> (r: (YamlValue, bool))
    ensures
        r.1 ==> insert_all(value@, missing_view(missing@)) == Some(r.0@),
        !r.1 ==> insert_all(value@, missing_view(missing@)) is None,
{
    let ghost v0 = value@;
    let ghost mv = missing_view(missing@);
    let mut batch = clone_yaml(value);
    let mut i: usize = 0;
    assert(mv.subrange(0, 0) =~= Seq::<(Seq<SegmentView>, YamlView)>::empty());
    while i < missing.len()
        invariant
            i <= missing.len(),
            v0 == value@,
            mv == missing_view(missing@),
            insert_all(v0, mv.subrange(0, i as int)) == Some(batch@),
        decreases missing.len() - i,
    {
        proof {
            let sub = mv.subrange(0, i + 1);
            assert(sub.drop_last() =~= mv.subrange(0, i as int));
            assert(sub.last() == mv[i as int]);
            assert(mv[i as int] == (path_view(missing@[i as int].path@), missing@[i as int].value@));
            assert(path_view(missing@[i as int].path@).subrange(0, missing@[i as int].path@.len() as int)
                =~= path_view(missing@[i as int].path@));
        }
        let (next, ok) = insert_config_entry(batch, &missing[i].path, 0, clone_yaml(&missing[i].value));
        if !ok {
            proof {
                lemma_insert_all_fails(v0, mv, i as int);
            }
            return (next, false);
        }
        batch = next;
        i = i + 1;
    }
    assert(mv.subrange(0, missing.len() as int) =~= mv);
    (batch, true)
}

fn insert_keeping(value: YamlValue, missing: &Vec<MissingConfigEntry>, settings: &AppSettings) -> (r: YamlValue)
    ensures
        r@ == insert_each_keeping(value@, missing_view(missing@), settings@),
{
    let ghost v0 = value@;
    let ghost mv = missing_view(missing@);
    let mut kept = value;
    let mut k: usize = 0;
    assert(mv.subrange(0, 0) =~= Seq::<(Seq<SegmentView>, YamlView)>::empty());
    while k < missing.len()
        invariant
            k <= missing.len(),
            mv == missing_view(missing@),
            kept@ == insert_each_keeping(v0, mv.subrange(0, k as int), settings@),
        decreases missing.len() - k,
    {
        proof {
            let sub = mv.subrange(0, k + 1);
            assert(sub.drop_last() =~= mv.subrange(0, k as int));
            assert(sub.last() == mv[k as int]);
            assert(mv[k as int] == (path_view(missing@[k as int].path@), missing@[k as int].value@));
            assert(path_view(missing@[k as int].path@).subrange(0, missing@[k as int].path@.len() as int)
                =~= path_view(missing@[k as int].path@));
        }
        let candidate = clone_yaml(&kept);
        let (next, ok) = insert_config_entry(candidate, &missing[k].path, 0, clone_yaml(&missing[k].value));
        if ok && same_settings(&next, settings) {
            kept = next;
        }
        k = k + 1;
    }
    assert(mv.subrange(0, missing.len() as int) =~= mv);
    kept
}

/// Puts back the entries of `previous` that `value`, the document written for `settings`,
/// lacks, where that leaves the settings as they are, and orders the keys as `previous` has
/// them.
pub fn preserve_semantic_noop_entries(value: YamlValue, previous: &YamlValue, settings: &AppSettings) -> (r: YamlValue)
    ensures
        r@ == preserve_spec(value@, previous@, settings@),
{
    let ghost v0 = value@;
    let mut missing: Vec<MissingConfigEntry> = Vec::new();
    let mut path: Vec<ConfigPathSegment> = Vec::new();
    collect_missing_entries(Some(&value), previous, &mut path, &mut missing);
    assert(path_view(Seq::<ConfigPathSegment>::empty()) =~= Seq::<SegmentView>::empty());
    assert(missing_view(missing@) =~= collect_missing(Some(v0), previous@, Seq::empty()));
    let (batch, inserted_all) = insert_batch(&value, &missing);
    if inserted_all && same_settings(&batch, settings) {
        return reorder_mappings_like_previous(batch, previous);
    }
    let kept = insert_keeping(value, &missing, settings);
    reorder_mappings_like_previous(kept, previous)
}

proof fn lemma_insert_all_fails(v: YamlView, mv: Seq<(Seq<SegmentView>, YamlView)>, i: int)
    requires
        0 <= i < mv.len(),
        insert_all(v, mv.subrange(0, i + 1)) is None,
    ensures
        insert_all(v, mv) is None,
    decreases mv.len() - i,
{
    if i + 1 < mv.len() {
        let sub = mv.subrange(0, i + 2);
        assert(sub.drop_last() =~= mv.subrange(0, i + 1));
        lemma_insert_all_fails(v, mv, i + 1);
    } else {
        assert(mv.subrange(0, i + 1) =~= mv);
    }
}

/// The document to write for `settings`, given what the file holds now (`None` where it is
/// missing or blank): the settings written out, with what the previous document said beyond
/// them kept wherever that does not change them.
pub open spec fn settings_document_spec(settings: AppSettingsView, previous: Option<YamlView>) -> YamlView {
    let value = encode_settings_spec(settings);
    match previous {
        Some(p) => preserve_spec(value, strip_patterns_spec(p, 0), settings),
        None => value,
    }
}

/// The document to write for `settings`, given what the file holds now.
pub fn settings_document(settings: &AppSettings, previous: Option<YamlValue>) -> (r: YamlValue)
    ensures
        r@ == settings_document_spec(settings@, match previous {
            Some(p) => Some(p@),
            None => None,
        }),
{
    let value = encode_settings(settings);
    match previous {
        Some(p) => {
            let (sanitized, _) = remove_malformed_prefilter_pattern_entries(p);
            preserve_semantic_noop_entries(value, &sanitized, settings)
        },
        None => value,
    }
}

} // verus!
