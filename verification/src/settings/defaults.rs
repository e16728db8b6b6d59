use vstd::prelude::*;
use crate::settings::document::{child, retag, with_child};
use crate::yaml::{
    YamlValue, YamlEntry, YamlView, untag, entries_view, items_view, lemma_entries_view, lemma_items_view,
    lemma_entries_view_ext, lemma_items_view_ext, find_key, map_insert, find_entry, insert_entry, clone_yaml,
};

verus! {

// ---------------------------------------------------------------- the explicit enable flags

pub open spec fn enable_key() -> YamlView {
    YamlView::String("enable"@)
}

/// A mapping (through its tags) with `enable: true` stored in it; anything else unchanged.
pub open spec fn with_enable(v: YamlView) -> YamlView {
    match untag(v) {
        YamlView::Mapping(es) => retag(v, YamlView::Mapping(map_insert(es, enable_key(), YamlView::Bool(true)))),
        _ => v,
    }
}

/// A sequence (through its tags) whose mapping items each got `enable: true`.
pub open spec fn enable_items(v: YamlView) -> YamlView {
    match untag(v) {
        YamlView::Sequence(items) => retag(v, YamlView::Sequence(items.map_values(|x: YamlView| with_enable(x)))),
        _ => v,
    }
}

/// A `map_remote` table with `enable: true`, and on each of its rules.
pub open spec fn enable_remote(v: YamlView) -> YamlView {
    let r = with_enable(v);
    match child(r, "rules"@) {
        Some(rules) => with_child(r, "rules"@, enable_items(rules)),
        None => r,
    }
}

/// A preset whose `map_remote` table got its explicit enable flags.
pub open spec fn enable_preset(v: YamlView) -> YamlView {
    match child(v, "map_remote"@) {
        Some(remote) => with_child(v, "map_remote"@, enable_remote(remote)),
        None => v,
    }
}

/// A sequence (through its tags) whose items each went through `enable_preset`.
pub open spec fn enable_presets(v: YamlView) -> YamlView {
    match untag(v) {
        YamlView::Sequence(items) => retag(v, YamlView::Sequence(items.map_values(|x: YamlView| enable_preset(x)))),
        _ => v,
    }
}

/// The `proxy` section with `enable: true`, and its presets with theirs.
pub open spec fn enable_proxy(v: YamlView) -> YamlView {
    let p = with_enable(v);
    match child(p, "presets"@) {
        Some(presets) => with_child(p, "presets"@, enable_presets(presets)),
        None => p,
    }
}

/// A settings document in which the proxy, each preset's remote mapping table and each
/// of its rules state `enable: true` explicitly, as a document written by hand may.
pub open spec fn explicit_enable_spec(doc: YamlView) -> YamlView {
    match child(doc, "proxy"@) {
        Some(proxy) => with_child(doc, "proxy"@, enable_proxy(proxy)),
        None => doc,
    }
}

// ---------------------------------------------------------------- lemmas

proof fn lemma_with_child_twice(v: YamlView, name: Seq<char>, x: YamlView, c: YamlView)
    requires
        child(v, name) is Some,
    ensures
        child(with_child(v, name, x), name) == Some(x),
        with_child(with_child(v, name, x), name, c) == with_child(v, name, c),
    decreases v,
{
    match v {
        YamlView::Tagged(t, b) => {
            assert(untag(v) == untag(*b));
            lemma_with_child_twice(*b, name, x, c);
            assert(with_child(v, name, x) == YamlView::Tagged(t, Box::new(with_child(*b, name, x))));
            assert(with_child(v, name, c) == YamlView::Tagged(t, Box::new(with_child(*b, name, c))));
        },
        YamlView::Mapping(es) => {
            let key = YamlView::String(name);
            let i = find_key(es, key)->0;
            assert(crate::yaml::key_at(es, key, i));
            let es1 = es.update(i, (es[i].0, x));
            assert(crate::yaml::key_at(es1, key, i));
            crate::yaml::lemma_key_at_unique(es1, key, i, choose|j: int| crate::yaml::key_at(es1, key, j));
            assert(es1.update(i, (es1[i].0, c)) =~= es.update(i, (es[i].0, c)));
        },
        _ => {},
    }
}

proof fn lemma_with_child_absent(v: YamlView, name: Seq<char>, x: YamlView)
    requires
        child(v, name) is None,
    ensures
        with_child(v, name, x) == v,
    decreases v,
{
    match v {
        YamlView::Tagged(t, b) => {
            assert(untag(v) == untag(*b));
            lemma_with_child_absent(*b, name, x);
        },
        _ => {},
    }
}

proof fn lemma_tagged(t: Seq<char>, b: YamlView, name: Seq<char>, c: YamlView)
    ensures
        child(YamlView::Tagged(t, Box::new(b)), name) == child(b, name),
        with_child(YamlView::Tagged(t, Box::new(b)), name, c) == YamlView::Tagged(t, Box::new(with_child(b, name, c))),
        with_enable(YamlView::Tagged(t, Box::new(b))) == YamlView::Tagged(t, Box::new(with_enable(b))),
        enable_items(YamlView::Tagged(t, Box::new(b))) == YamlView::Tagged(t, Box::new(enable_items(b))),
        enable_presets(YamlView::Tagged(t, Box::new(b))) == YamlView::Tagged(t, Box::new(enable_presets(b))),
{
    let v = YamlView::Tagged(t, Box::new(b));
    assert(untag(v) == untag(b));
}

// ---------------------------------------------------------------- taking a child out and putting it back

/// Takes out the value under `key` (whose view is the string `name`), leaving null in its
/// place.
fn take_child(v: YamlValue, key: &YamlValue, Ghost(name): Ghost<Seq<char>>) -> (r: (YamlValue, Option<YamlValue>))
    requires
        key@ == YamlView::String(name),
    ensures
        r.0@ == with_child(v@, name, YamlView::Null),
        match r.1 {
            Some(c) => child(v@, name) == Some(c@),
            None => child(v@, name) is None,
        },
    decreases v,
{
    match v {
        YamlValue::Tagged(t, b) => {
            let ghost bv = (*b)@;
            let (h, c) = take_child(*b, key, Ghost(name));
            proof {
                lemma_tagged(t@, bv, name, YamlView::Null);
            }
            (YamlValue::Tagged(t, Box::new(h)), c)
        },
        YamlValue::Mapping(mut es) => {
            let ghost ev = entries_view(es@);
            match find_entry(&es, key) {
                Some(i) => {
                    proof {
                        lemma_entries_view(es@);
                    }
                    let e = es.remove(i);
                    es.insert(i, YamlEntry { key: e.key, value: YamlValue::Null });
                    proof {
                        lemma_entries_view(es@);
                        lemma_entries_view_ext(es@, ev.update(i as int, (ev[i as int].0, YamlView::Null)));
                    }
                    (YamlValue::Mapping(es), Some(e.value))
                },
                None => (YamlValue::Mapping(es), None),
            }
        },
        other => (other, None),
    }
}

/// Stores `c` under `key` (whose view is the string `name`) where the key is present.
fn put_child(v: YamlValue, key: &YamlValue, c: YamlValue, Ghost(name): Ghost<Seq<char>>) -> (r: YamlValue)
    requires
        key@ == YamlView::String(name),
    ensures
        r@ == with_child(v@, name, c@),
    decreases v,
{
    match v {
        YamlValue::Tagged(t, b) => {
            let ghost bv = (*b)@;
            let ghost cv = c@;
            let h = put_child(*b, key, c, Ghost(name));
            proof {
                lemma_tagged(t@, bv, name, cv);
            }
            YamlValue::Tagged(t, Box::new(h))
        },
        YamlValue::Mapping(mut es) => {
            let ghost ev = entries_view(es@);
            match find_entry(&es, key) {
                Some(i) => {
                    proof {
                        lemma_entries_view(es@);
                    }
                    let e = es.remove(i);
                    let ghost cv = c@;
                    es.insert(i, YamlEntry { key: e.key, value: c });
                    proof {
                        lemma_entries_view(es@);
                        lemma_entries_view_ext(es@, ev.update(i as int, (ev[i as int].0, cv)));
                    }
                    YamlValue::Mapping(es)
                },
                None => YamlValue::Mapping(es),
            }
        },
        other => other,
    }
}

fn str_key(s: &str) -> (r: YamlValue)
    ensures
        r@ == YamlView::String(s@),
{
    YamlValue::String(s.to_string())
}

// ---------------------------------------------------------------- the levels

fn add_enable(v: YamlValue) -> (r: YamlValue)
    ensures
        r@ == with_enable(v@),
    decreases v,
{
    match v {
        YamlValue::Tagged(t, b) => {
            let ghost bv = (*b)@;
            let inner = add_enable(*b);
            proof {
                lemma_tagged(t@, bv, Seq::empty(), YamlView::Null);
            }
            YamlValue::Tagged(t, Box::new(inner))
        },
        YamlValue::Mapping(mut es) => {
            let key = str_key("enable");
            insert_entry(&mut es, key, YamlValue::Bool(true));
            YamlValue::Mapping(es)
        },
        other => other,
    }
}

fn add_enable_to_items(v: YamlValue) -> (r: YamlValue)
    ensures
        r@ == enable_items(v@),
    decreases v,
{
    match v {
        YamlValue::Tagged(t, b) => {
            let ghost bv = (*b)@;
            let inner = add_enable_to_items(*b);
            proof {
                lemma_tagged(t@, bv, Seq::empty(), YamlView::Null);
            }
            YamlValue::Tagged(t, Box::new(inner))
        },
        YamlValue::Sequence(items) => {
            let ghost iv = items_view(items@);
            proof {
                lemma_items_view(items@);
            }
            let mut out: Vec<YamlValue> = Vec::new();
            let mut i: usize = 0;
            while i < items.len()
                invariant
                    i <= items@.len() == iv.len(),
                    forall|j: int| 0 <= j < items@.len() ==> (#[trigger] items@[j])@ == iv[j],
                    out@.len() == i,
                    forall|j: int| 0 <= j < i ==> (#[trigger] out@[j])@ == with_enable(iv[j]),
                decreases items.len() - i,
            {
                let y = add_enable(clone_yaml(&items[i]));
                out.push(y);
                i = i + 1;
            }
            proof {
                lemma_items_view_ext(out@, iv.map_values(|x: YamlView| with_enable(x)));
            }
            YamlValue::Sequence(out)
        },
        other => other,
    }
}

fn enable_remote_value(v: YamlValue) -> (r: YamlValue)
    ensures
        r@ == enable_remote(v@),
{
    let e = add_enable(v);
    let ghost ev = e@;
    let key = str_key("rules");
    let (hole, c) = take_child(e, &key, Ghost("rules"@));
    match c {
        Some(rules) => {
            let updated = add_enable_to_items(rules);
            proof {
                lemma_with_child_twice(ev, "rules"@, YamlView::Null, updated@);
            }
            put_child(hole, &key, updated, Ghost("rules"@))
        },
        None => {
            proof {
                lemma_with_child_absent(ev, "rules"@, YamlView::Null);
            }
            hole
        },
    }
}

fn enable_preset_value(v: YamlValue) -> (r: YamlValue)
    ensures
        r@ == enable_preset(v@),
{
    let ghost vv = v@;
    let key = str_key("map_remote");
    let (hole, c) = take_child(v, &key, Ghost("map_remote"@));
    match c {
        Some(remote) => {
            let updated = enable_remote_value(remote);
            proof {
                lemma_with_child_twice(vv, "map_remote"@, YamlView::Null, updated@);
            }
            put_child(hole, &key, updated, Ghost("map_remote"@))
        },
        None => {
            proof {
                lemma_with_child_absent(vv, "map_remote"@, YamlView::Null);
            }
            hole
        },
    }
}

fn enable_preset_items(v: YamlValue) -> (r: YamlValue)
    ensures
        r@ == enable_presets(v@),
    decreases v,
{
    match v {
        YamlValue::Tagged(t, b) => {
            let ghost bv = (*b)@;
            let inner = enable_preset_items(*b);
            proof {
                lemma_tagged(t@, bv, Seq::empty(), YamlView::Null);
            }
            YamlValue::Tagged(t, Box::new(inner))
        },
        YamlValue::Sequence(items) => {
            let ghost iv = items_view(items@);
            proof {
                lemma_items_view(items@);
            }
            let mut out: Vec<YamlValue> = Vec::new();
            let mut i: usize = 0;
            while i < items.len()
                invariant
                    i <= items@.len() == iv.len(),
                    forall|j: int| 0 <= j < items@.len() ==> (#[trigger] items@[j])@ == iv[j],
                    out@.len() == i,
                    forall|j: int| 0 <= j < i ==> (#[trigger] out@[j])@ == enable_preset(iv[j]),
                decreases items.len() - i,
            {
                let y = enable_preset_value(clone_yaml(&items[i]));
                out.push(y);
                i = i + 1;
            }
            proof {
                lemma_items_view_ext(out@, iv.map_values(|x: YamlView| enable_preset(x)));
            }
            YamlValue::Sequence(out)
        },
        other => other,
    }
}

fn enable_proxy_value(v: YamlValue) -> (r: YamlValue)
    ensures
        r@ == enable_proxy(v@),
{
    let e = add_enable(v);
    let ghost ev = e@;
    let key = str_key("presets");
    let (hole, c) = take_child(e, &key, Ghost("presets"@));
    match c {
        Some(presets) => {
            let updated = enable_preset_items(presets);
            proof {
                lemma_with_child_twice(ev, "presets"@, YamlView::Null, updated@);
            }
            put_child(hole, &key, updated, Ghost("presets"@))
        },
        None => {
            proof {
                lemma_with_child_absent(ev, "presets"@, YamlView::Null);
            }
            hole
        },
    }
}

/// Writes out the `enable: true` flags that a settings document may leave implicit: on
/// the proxy section, on each preset's remote mapping table and on each of its rules.
pub fn add_explicit_default_enable_fields(doc: &mut YamlValue)
    ensures
        final(doc)@ == explicit_enable_spec(old(doc)@),
{
    let mut v = YamlValue::Null;
    std::mem::swap(&mut v, doc);
    let ghost vv = v@;
    let key = str_key("proxy");
    let (hole, c) = take_child(v, &key, Ghost("proxy"@));
    match c {
        Some(proxy) => {
            let updated = enable_proxy_value(proxy);
            proof {
                lemma_with_child_twice(vv, "proxy"@, YamlView::Null, updated@);
            }
            *doc = put_child(hole, &key, updated, Ghost("proxy"@));
        },
        None => {
            proof {
                lemma_with_child_absent(vv, "proxy"@, YamlView::Null);
            }
            *doc = hole;
        },
    }
}

} // verus!
