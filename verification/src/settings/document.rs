use vstd::prelude::*;
use crate::settings::decode::{decode_pattern, decode_pattern_spec, decode_prefilter, decode_prefilter_spec, decode_settings, decode_settings_spec};
use crate::settings::encode::{encode_prefilter, encode_prefilter_spec};
use crate::settings::model::{AppSettings, AppSettingsView, RecordingPrefilterSettings, disabled_prefilter};
use crate::text::{decimal, decimal_string};
use crate::yaml::{
    YamlValue, YamlEntry, YamlView, untag, entries_view, items_view, lemma_entries_view, lemma_items_view,
    lemma_entries_view_ext, lemma_items_view_ext, find_key, map_get, find_entry, clone_yaml,
};

verus! {

/// A problem met while loading settings that did not stop the load.
#[derive(Debug)]
pub struct SettingsLoadDiagnostic {
    pub message: String,
}

impl Clone for SettingsLoadDiagnostic {
    fn clone(&self) -> (r: Self)
        ensures
            r.message@ == self.message@,
    {
        SettingsLoadDiagnostic { message: self.message.clone() }
    }
}

/// A settings document that does not read as settings.
#[derive(Debug)]
pub struct SettingsLoadError {
    pub message: String,
}

pub open spec fn starts_with(s: Seq<char>, head: Seq<char>) -> bool {
    head.len() <= s.len() && s.subrange(0, head.len() as int) == head
}

// ---------------------------------------------------------------- reaching into a document

/// `v` with the value inside its tags replaced by `inner`.
pub open spec fn retag(v: YamlView, inner: YamlView) -> YamlView
    decreases v,
{
    match v {
        YamlView::Tagged(t, b) => YamlView::Tagged(t, Box::new(retag(*b, inner))),
        _ => inner,
    }
}

pub proof fn lemma_retag_untag(v: YamlView)
    ensures
        retag(v, untag(v)) == v,
    decreases v,
{
    if let YamlView::Tagged(t, b) = v {
        lemma_retag_untag(*b);
    }
}

/// The value stored under the text key `name` of a (possibly tagged) mapping.
pub open spec fn child(v: YamlView, name: Seq<char>) -> Option<YamlView> {
    match untag(v) {
        YamlView::Mapping(es) => map_get(es, YamlView::String(name)),
        _ => None,
    }
}

/// `v` with the value under `name` replaced by `c`; unchanged where there is none.
pub open spec fn with_child(v: YamlView, name: Seq<char>, c: YamlView) -> YamlView {
    match untag(v) {
        YamlView::Mapping(es) => match find_key(es, YamlView::String(name)) {
            Some(i) => retag(v, YamlView::Mapping(es.update(i, (es[i].0, c)))),
            None => v,
        },
        _ => v,
    }
}

pub open spec fn level_name(level: nat) -> Seq<char> {
    if level == 0 {
        "recording"@
    } else if level == 1 {
        "prefilter"@
    } else {
        "include_url_patterns"@
    }
}

fn level_key(level: u8) -> (r: YamlValue)
    requires
        level < 3,
    ensures
        r@ == YamlView::String(level_name(level as nat)),
{
    if level == 0 {
        YamlValue::String(String::from_str("recording"))
    } else if level == 1 {
        YamlValue::String(String::from_str("prefilter"))
    } else {
        YamlValue::String(String::from_str("include_url_patterns"))
    }
}

// ---------------------------------------------------------------- malformed prefilter patterns

/// The patterns of a list that read as patterns, in order.
pub open spec fn valid_patterns(items: Seq<YamlView>) -> Seq<YamlView>
    decreases items.len(),
{
    if items.len() == 0 {
        Seq::empty()
    } else {
        let rest = valid_patterns(items.drop_last());
        if decode_pattern_spec(items.last()) is Some {
            rest.push(items.last())
        } else {
            rest
        }
    }
}

/// The positions of the list entries that do not read as patterns, in order.
pub open spec fn malformed_positions(items: Seq<YamlView>) -> Seq<nat>
    decreases items.len(),
{
    if items.len() == 0 {
        Seq::empty()
    } else {
        let rest = malformed_positions(items.drop_last());
        if decode_pattern_spec(items.last()) is None {
            rest.push((items.len() - 1) as nat)
        } else {
            rest
        }
    }
}

/// The document with the malformed entries of `recording.prefilter.include_url_patterns`
/// removed; `level` counts the keys of that path already passed.
pub open spec fn strip_patterns_spec(v: YamlView, level: nat) -> YamlView
    decreases 3 - level,
{
    if level >= 3 {
        match untag(v) {
            YamlView::Sequence(items) => retag(v, YamlView::Sequence(valid_patterns(items))),
            _ => v,
        }
    } else {
        match child(v, level_name(level)) {
            Some(c) => with_child(v, level_name(level), strip_patterns_spec(c, level + 1)),
            None => v,
        }
    }
}

/// The positions of the malformed pattern entries that `strip_patterns_spec` removes.
pub open spec fn stripped_positions(v: YamlView, level: nat) -> Seq<nat>
    decreases 3 - level,
{
    if level >= 3 {
        match untag(v) {
            YamlView::Sequence(items) => malformed_positions(items),
            _ => Seq::empty(),
        }
    } else {
        match child(v, level_name(level)) {
            Some(c) => stripped_positions(c, level + 1),
            None => Seq::empty(),
        }
    }
}

pub open spec fn pattern_diagnostic_head(index: nat) -> Seq<char> {
    "recording.prefilter.include_url_patterns["@ + decimal(index) + "] ignored malformed pattern entry: "@
}

/// Each new diagnostic reports one malformed position, in order.
pub open spec fn reports_positions(diags: Seq<SettingsLoadDiagnostic>, from: int, positions: Seq<nat>) -> bool {
    &&& diags.len() == from + positions.len()
    &&& forall|k: int| 0 <= k < positions.len() ==> starts_with(
        #[trigger] diags[from + k].message@,
        pattern_diagnostic_head(positions[k]),
    )
}

fn pattern_diagnostic(index: usize, error: &String) -> (d: SettingsLoadDiagnostic)
    ensures
        starts_with(d.message@, pattern_diagnostic_head(index as nat)),
{
    let mut m = String::from_str("recording.prefilter.include_url_patterns[");
    let digits = decimal_string(index as u64);
    m.append(digits.as_str());
    m.append("] ignored malformed pattern entry: ");
    let ghost head = m@;
    m.append(error.as_str());
    assert(m@.subrange(0, head.len() as int) =~= head);
    SettingsLoadDiagnostic { message: m }
}

/// Keeps the entries of a pattern list that read as patterns and reports the others.
fn keep_valid_patterns(items: &Vec<YamlValue>, diags: &mut Vec<SettingsLoadDiagnostic>) -> (r: Vec<YamlValue>)
    ensures
        items_view(r@) == valid_patterns(items_view(items@)),
        final(diags)@.subrange(0, old(diags)@.len() as int) == old(diags)@,
        reports_positions(final(diags)@, old(diags)@.len() as int, malformed_positions(items_view(items@))),
{
    let ghost iv = items_view(items@);
    let ghost start = diags@.len() as int;
    proof {
        lemma_items_view(items@);
        assert(iv.subrange(0, 0) =~= Seq::<YamlView>::empty());
    }
    let mut kept: Vec<YamlValue> = Vec::new();
    let mut i: usize = 0;
    while i < items.len()
        invariant
            i <= items.len(),
            iv == items_view(items@),
            iv.len() == items@.len(),
            forall|j: int| 0 <= j < items@.len() ==> #[trigger] iv[j] == items@[j]@,
            items_view(kept@) == valid_patterns(iv.subrange(0, i as int)),
            start == old(diags)@.len(),
            diags@.subrange(0, start) == old(diags)@,
            reports_positions(diags@, start, malformed_positions(iv.subrange(0, i as int))),
        decreases items.len() - i,
    {
        proof {
            assert(iv.subrange(0, i + 1).drop_last() =~= iv.subrange(0, i as int));
            assert(iv.subrange(0, i + 1).last() == iv[i as int]);
        }
        let ghost before = diags@;
        match decode_pattern(&items[i]) {
            Ok(_) => {
                let x = clone_yaml(&items[i]);
                proof {
                    lemma_items_view(kept@);
                    lemma_items_view(kept@.push(x));
                    lemma_items_view_ext(kept@.push(x), items_view(kept@).push(x@));
                }
                kept.push(x);
            },
            Err(e) => {
                let d = pattern_diagnostic(i, &e);
                diags.push(d);
                proof {
                    assert(diags@.subrange(0, start) =~= before.subrange(0, start));
                    let ps = malformed_positions(iv.subrange(0, i + 1));
                    assert(ps == malformed_positions(iv.subrange(0, i as int)).push(i as nat));
                    assert forall|k: int| 0 <= k < ps.len() implies starts_with(
                        #[trigger] diags@[start + k].message@,
                        pattern_diagnostic_head(ps[k]),
                    ) by {
                        if k < ps.len() - 1 {
                            assert(diags@[start + k] == before[start + k]);
                        }
                    }
                }
            },
        }
        i = i + 1;
    }
    proof {
        assert(iv.subrange(0, i as int) =~= iv);
    }
    kept
}

/// Removes the malformed entries of `recording.prefilter.include_url_patterns` and reports
/// each by its position; `level` counts the keys of that path already passed.
fn strip_level(v: YamlValue, level: u8, diags: &mut Vec<SettingsLoadDiagnostic>) -> (r: YamlValue)
    requires
        level <= 3,
    ensures
        r@ == strip_patterns_spec(v@, level as nat),
        final(diags)@.subrange(0, old(diags)@.len() as int) == old(diags)@,
        reports_positions(final(diags)@, old(diags)@.len() as int, stripped_positions(v@, level as nat)),
    decreases 3 - level, v,
{
    match v {
        YamlValue::Tagged(t, b) => {
            let ghost bv = (*b)@;
            let inner = strip_level(*b, level, diags);
            proof {
                lemma_tagged_strip(t@, bv, level as nat);
            }
            YamlValue::Tagged(t, Box::new(inner))
        },
        YamlValue::Mapping(mut es) => {
            if level >= 3 {
                proof {
                    assert(diags@.subrange(0, diags@.len() as int) =~= diags@);
                }
                return YamlValue::Mapping(es);
            }
            let ghost ev = entries_view(es@);
            let key = level_key(level);
            match find_entry(&es, &key) {
                Some(i) => {
                    proof {
                        lemma_entries_view(es@);
                    }
                    let e = es.remove(i);
                    let c = strip_level(e.value, level + 1, diags);
                    let ghost cv = c@;
                    es.insert(i, YamlEntry { key: e.key, value: c });
                    proof {
                        lemma_entries_view(es@);
                        lemma_entries_view_ext(es@, ev.update(i as int, (ev[i as int].0, cv)));
                    }
                    YamlValue::Mapping(es)
                },
                None => {
                    proof {
                        assert(diags@.subrange(0, diags@.len() as int) =~= diags@);
                    }
                    YamlValue::Mapping(es)
                },
            }
        },
        YamlValue::Sequence(items) => {
            if level < 3 {
                proof {
                    assert(diags@.subrange(0, diags@.len() as int) =~= diags@);
                }
                return YamlValue::Sequence(items);
            }
            let kept = keep_valid_patterns(&items, diags);
            YamlValue::Sequence(kept)
        },
        other => {
            proof {
                assert(diags@.subrange(0, diags@.len() as int) =~= diags@);
            }
            other
        },
    }
}

proof fn lemma_tagged_strip(t: Seq<char>, b: YamlView, level: nat)
    requires
        level <= 3,
    ensures
        strip_patterns_spec(YamlView::Tagged(t, Box::new(b)), level)
            == YamlView::Tagged(t, Box::new(strip_patterns_spec(b, level))),
        stripped_positions(YamlView::Tagged(t, Box::new(b)), level) == stripped_positions(b, level),
{
    let v = YamlView::Tagged(t, Box::new(b));
    assert(untag(v) == untag(b));
    if level < 3 {
        if let Some(c) = child(b, level_name(level)) {
            assert(child(v, level_name(level)) == Some(c));
        } else {
            lemma_retag_untag(b);
        }
    }
}

/// Removes the malformed entries of `recording.prefilter.include_url_patterns`, and reports
/// each by its position in the list.
pub fn remove_malformed_prefilter_pattern_entries(doc: YamlValue) -> (r: (YamlValue, Vec<SettingsLoadDiagnostic>))
    ensures
        r.0@ == strip_patterns_spec(doc@, 0),
        reports_positions(r.1@, 0, stripped_positions(doc@, 0)),
{
    let mut diags: Vec<SettingsLoadDiagnostic> = Vec::new();
    let out = strip_level(doc, 0, &mut diags);
    (out, diags)
}

// ---------------------------------------------------------------- a malformed prefilter

/// The document with a `recording.prefilter` that does not read as a prefilter replaced by
/// the disabled prefilter; `None` where there is no such section or it reads well.
pub open spec fn disable_prefilter_spec(v: YamlView, level: nat) -> Option<YamlView>
    decreases 2 - level,
{
    if level >= 2 {
        if decode_prefilter_spec(v) is None {
            Some(encode_prefilter_spec(disabled_prefilter()))
        } else {
            None
        }
    } else {
        match child(v, level_name(level)) {
            Some(c) => match disable_prefilter_spec(c, level + 1) {
                Some(d) => Some(with_child(v, level_name(level), d)),
                None => None,
            },
            None => None,
        }
    }
}

/// Replaces a malformed `recording.prefilter` by the disabled prefilter, and gives back why
/// it did not read; `level` counts the keys of that path already passed.
fn disable_level(v: YamlValue, level: u8) -> (r: (YamlValue, Option<String>))
    requires
        level <= 2,
    ensures
        match r.1 {
            Some(_) => disable_prefilter_spec(v@, level as nat) == Some(r.0@),
            None => disable_prefilter_spec(v@, level as nat) is None && r.0@ == v@,
        },
    decreases 2 - level, v,
{
    if level >= 2 {
        return match decode_prefilter(&v) {
            Ok(_) => (v, None),
            Err(e) => (encode_prefilter(&RecordingPrefilterSettings::disabled()), Some(e)),
        };
    }
    match v {
        YamlValue::Tagged(t, b) => {
            let ghost bv = (*b)@;
            let (inner, error) = disable_level(*b, level);
            proof {
                lemma_tagged_disable(t@, bv, level as nat);
            }
            (YamlValue::Tagged(t, Box::new(inner)), error)
        },
        YamlValue::Mapping(mut es) => {
            let ghost ev = entries_view(es@);
            let key = level_key(level);
            match find_entry(&es, &key) {
                Some(i) => {
                    proof {
                        lemma_entries_view(es@);
                    }
                    let e = es.remove(i);
                    let (c, error) = disable_level(e.value, level + 1);
                    let ghost cv = c@;
                    es.insert(i, YamlEntry { key: e.key, value: c });
                    proof {
                        lemma_entries_view(es@);
                        lemma_entries_view_ext(es@, ev.update(i as int, (ev[i as int].0, cv)));
                        if error is None {
                            assert(ev.update(i as int, (ev[i as int].0, cv)) =~= ev);
                        }
                    }
                    (YamlValue::Mapping(es), error)
                },
                None => (YamlValue::Mapping(es), None),
            }
        },
        other => (other, None),
    }
}

proof fn lemma_tagged_disable(t: Seq<char>, b: YamlView, level: nat)
    requires
        level < 2,
    ensures
        disable_prefilter_spec(YamlView::Tagged(t, Box::new(b)), level) == match disable_prefilter_spec(b, level) {
            Some(d) => Some(YamlView::Tagged(t, Box::new(d))),
            None => None::<YamlView>,
        },
{
    let v = YamlView::Tagged(t, Box::new(b));
    assert(untag(v) == untag(b));
}

// ---------------------------------------------------------------- tolerant loading

pub open spec fn disabled_diagnostic_head() -> Seq<char> {
    "recording.prefilter is malformed and has been disabled: "@
}

/// The settings a document loads as, when it loads.
///
/// Malformed prefilter patterns are dropped; where the document then does not read, a
/// malformed prefilter is replaced by the disabled one and the document is read again.
pub open spec fn tolerant_settings_spec(doc: YamlView) -> Option<AppSettingsView> {
    let sanitized = strip_patterns_spec(doc, 0);
    match decode_settings_spec(sanitized) {
        Some(s) => Some(s),
        None => match disable_prefilter_spec(sanitized, 0) {
            Some(fixed) => decode_settings_spec(fixed),
            None => None,
        },
    }
}

/// Whether loading the document disables its prefilter.
pub open spec fn tolerant_disables_prefilter(doc: YamlView) -> bool {
    decode_settings_spec(strip_patterns_spec(doc, 0)) is None
}

/// The problems loading `doc` reports, in order: one for each malformed prefilter pattern
/// dropped, by its position, and then, where the prefilter itself had to be disabled, one
/// for that.
pub open spec fn load_report(doc: YamlView, messages: Seq<Seq<char>>) -> bool {
    let ps = stripped_positions(doc, 0);
    let n = ps.len() as int;
    &&& messages.len() == n + if tolerant_disables_prefilter(doc) { 1int } else { 0int }
    &&& forall|k: int| 0 <= k < n ==> starts_with(#[trigger] messages[k], pattern_diagnostic_head(ps[k]))
    &&& tolerant_disables_prefilter(doc) ==> starts_with(messages[n], disabled_diagnostic_head())
}

pub open spec fn messages_of(diags: Seq<SettingsLoadDiagnostic>) -> Seq<Seq<char>> {
    diags.map_values(|d: SettingsLoadDiagnostic| d.message@)
}

proof fn lemma_report_kept(doc: YamlView, diags: Seq<SettingsLoadDiagnostic>)
    requires
        !tolerant_disables_prefilter(doc),
        reports_positions(diags, 0, stripped_positions(doc, 0)),
    ensures
        load_report(doc, messages_of(diags)),
{
    let ps = stripped_positions(doc, 0);
    let ms = messages_of(diags);
    assert forall|k: int| 0 <= k < ps.len() implies starts_with(#[trigger] ms[k], pattern_diagnostic_head(ps[k])) by {
        assert(diags[0 + k] == diags[k]);
    }
}

proof fn lemma_report_disabled(doc: YamlView, before: Seq<SettingsLoadDiagnostic>, d: SettingsLoadDiagnostic)
    requires
        tolerant_disables_prefilter(doc),
        reports_positions(before, 0, stripped_positions(doc, 0)),
        starts_with(d.message@, disabled_diagnostic_head()),
    ensures
        load_report(doc, messages_of(before.push(d))),
{
    let ps = stripped_positions(doc, 0);
    let all = before.push(d);
    let ms = messages_of(all);
    assert forall|k: int| 0 <= k < ps.len() implies starts_with(#[trigger] ms[k], pattern_diagnostic_head(ps[k])) by {
        assert(before[0 + k] == all[k]);
    }
    assert(all[ps.len() as int] == d);
}

/// Reads a settings document, dropping malformed prefilter patterns and disabling a
/// malformed prefilter, and reports each of these.
pub fn deserialize_settings_tolerantly(doc: YamlValue) -> (r: Result<
    (AppSettings, Vec<SettingsLoadDiagnostic>),
    SettingsLoadError,
>)
    ensures
        match r {
            Ok((s, diags)) => {
                &&& tolerant_settings_spec(doc@) == Some(s@)
                &&& load_report(doc@, messages_of(diags@))
                &&& if tolerant_disables_prefilter(doc@) {
                    &&& reports_positions(diags@.drop_last(), 0, stripped_positions(doc@, 0))
                    &&& starts_with(diags@.last().message@, disabled_diagnostic_head())
                } else {
                    reports_positions(diags@, 0, stripped_positions(doc@, 0))
                }
            },
            Err(_) => tolerant_settings_spec(doc@) is None,
        },
{
    let (sanitized, mut diags) = remove_malformed_prefilter_pattern_entries(doc);
    match decode_settings(&sanitized) {
        Ok(s) => {
            proof {
                lemma_report_kept(doc@, diags@);
            }
            Ok((s, diags))
        },
        Err(first_error) => {
            let (fixed, error) = disable_level(sanitized, 0);
            match error {
                None => Err(SettingsLoadError { message: first_error }),
                Some(e) => {
                    match decode_settings(&fixed) {
                        Ok(s) => {
                            let mut m = String::from_str("recording.prefilter is malformed and has been disabled: ");
                            let ghost head = m@;
                            m.append(e.as_str());
                            assert(m@.subrange(0, head.len() as int) =~= head);
                            let ghost before = diags@;
                            diags.push(SettingsLoadDiagnostic { message: m });
                            assert(diags@.drop_last() =~= before);
                            proof {
                                lemma_report_disabled(doc@, before, diags@.last());
                                assert(before.push(diags@.last()) =~= diags@);
                            }
                            Ok((s, diags))
                        },
                        Err(again) => Err(SettingsLoadError { message: again }),
                    }
                },
            }
        },
    }
}

} // verus!
