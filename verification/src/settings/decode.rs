use vstd::prelude::*;
use crate::settings::model::{
    AppSettings, AppSettingsView, CertificateSettings, CertificateView, McpSettings, ServerSettings,
    UiSettings, RequestListSettings, RecordingSettings, RecordingView, RecordingPrefilterSettings,
    PrefilterView, RecordingPrefilterPatternSettings, PatternView, ProxySettings, ProxyView,
    ProxyPresetSettings, PresetView, ProxyMapRemoteSettings, ProxyMapLocalSettings, MappingTableView,
    ProxyMapRemoteRule, ProxyMapLocalRule, MappingRuleView, DEFAULT_PROXY_PORT, default_store_dir,
    default_pem_filename, default_prefilter, default_table, patterns_view, remote_rules_view,
    local_rules_view, presets_view,
};
use crate::yaml::{
    YamlValue, YamlEntry, YamlView, untag, untag_ref, entries_view, items_view,
    lemma_entries_view, lemma_items_view, number_value, number_capped,
};

verus! {

// ---------------------------------------------------------------- reading struct fields

/// The field name a mapping key spells, once its tags are dropped.
pub open spec fn key_name(k: YamlView) -> Option<Seq<char>> {
    match untag(k) {
        YamlView::String(s) => Some(s),
        _ => None,
    }
}

pub open spec fn names_field(e: (YamlView, YamlView), name: Seq<char>) -> bool {
    key_name(e.0) == Some(name)
}

pub open spec fn all_keys_named(es: Seq<(YamlView, YamlView)>) -> bool {
    forall|i: int| 0 <= i < es.len() ==> (#[trigger] key_name(es[i].0)) is Some
}

/// The entries of a struct-shaped value: a mapping whose keys are all names, or null
/// (which reads as a mapping without entries).
pub open spec fn struct_entries(v: YamlView) -> Option<Seq<(YamlView, YamlView)>> {
    match untag(v) {
        YamlView::Null => Some(Seq::empty()),
        YamlView::Mapping(es) => if all_keys_named(es) { Some(es) } else { None },
        _ => None,
    }
}

pub open spec fn field_absent(es: Seq<(YamlView, YamlView)>, name: Seq<char>) -> bool {
    forall|i: int| 0 <= i < es.len() ==> !names_field(#[trigger] es[i], name)
}

pub open spec fn field_repeated(es: Seq<(YamlView, YamlView)>, name: Seq<char>) -> bool {
    exists|i: int, j: int|
        0 <= i < j < es.len() && names_field(#[trigger] es[i], name) && names_field(#[trigger] es[j], name)
}

pub open spec fn field_slot(es: Seq<(YamlView, YamlView)>, name: Seq<char>) -> int {
    choose|i: int| 0 <= i < es.len() && names_field(es[i], name)
}

/// What a struct reads for one of its fields.
pub enum FieldRead {
    Absent,
    Value(YamlView),
    Repeated,
}

pub open spec fn read_field(es: Seq<(YamlView, YamlView)>, name: Seq<char>) -> FieldRead {
    if field_repeated(es, name) {
        FieldRead::Repeated
    } else if field_absent(es, name) {
        FieldRead::Absent
    } else {
        FieldRead::Value(es[field_slot(es, name)].1)
    }
}

/// A field decoded by `dec`, `default` when it is absent, and an error when it is repeated.
pub open spec fn field_or<T>(
    es: Seq<(YamlView, YamlView)>,
    name: Seq<char>,
    default: T,
    dec: spec_fn(YamlView) -> Option<T>,
) -> Option<T> {
    match read_field(es, name) {
        FieldRead::Absent => Some(default),
        FieldRead::Value(x) => dec(x),
        FieldRead::Repeated => None,
    }
}

pub open spec fn opt_entries(es: Option<&Vec<YamlEntry>>) -> Seq<(YamlView, YamlView)> {
    match es {
        Some(e) => entries_view(e@),
        None => Seq::empty(),
    }
}

/// The name a key spells, once its tags are dropped.
pub fn key_name_of(k: &YamlValue) -> (r: Option<&String>)
    ensures
        match r {
            Some(s) => key_name(k@) == Some(s@),
            None => key_name(k@) is None,
        },
{
    match untag_ref(k) {
        YamlValue::String(s) => Some(s),
        _ => None,
    }
}

/// The entries of a struct-shaped value; `None` stands for null, a mapping without entries.
#[verifier::loop_isolation(false)]
pub fn struct_fields(v: &YamlValue) -> (r: Result<Option<&Vec<YamlEntry>>, String>)
    ensures
        match r {
            Ok(es) => struct_entries(v@) == Some(opt_entries(es)),
            Err(_) => struct_entries(v@) is None,
        },
{
    match untag_ref(v) {
        YamlValue::Null => Ok(None),
        YamlValue::Mapping(es) => {
            proof {
                lemma_entries_view(es@);
            }
            let mut i: usize = 0;
            while i < es.len()
                invariant
                    i <= es.len(),
                    entries_view(es@).len() == es@.len(),
                    forall|j: int| 0 <= j < i ==> (#[trigger] key_name(entries_view(es@)[j].0)) is Some,
                decreases es.len() - i,
            {
                proof {
                    lemma_entries_view(es@);
                }
                if key_name_of(&es[i].key).is_none() {
                    assert(key_name(entries_view(es@)[i as int].0) is None);
                    return Err(String::from_str("invalid type: a field name must be a string"));
                }
                i = i + 1;
            }
            Ok(Some(es))
        },
        _ => Err(String::from_str("invalid type: expected a mapping")),
    }
}

/// Finds the one entry that names field `name`.
pub fn find_field<'a>(fields: Option<&'a Vec<YamlEntry>>, name: &str) -> (r: Result<Option<&'a YamlValue>, String>)
    ensures
        match r {
            Err(_) => read_field(opt_entries(fields), name@) is Repeated,
            Ok(None) => read_field(opt_entries(fields), name@) is Absent,
            Ok(Some(x)) => read_field(opt_entries(fields), name@) == FieldRead::Value(x@),
        },
{
    let es = match fields {
        None => {
            assert(field_absent(Seq::empty(), name@));
            return Ok(None);
        },
        Some(es) => es,
    };
    let ghost ev = entries_view(es@);
    proof {
        lemma_entries_view(es@);
    }
    let wanted = String::from_str(name);
    let mut found: Option<usize> = None;
    let mut i: usize = 0;
    while i < es.len()
        invariant
            i <= es.len(),
            ev == entries_view(es@),
            ev == opt_entries(fields),
            ev.len() == es@.len(),
            wanted@ == name@,
            forall|j: int| 0 <= j < es@.len() ==> #[trigger] ev[j] == (es@[j].key@, es@[j].value@),
            match found {
                None => forall|j: int| 0 <= j < i ==> !names_field(#[trigger] ev[j], name@),
                Some(k) => k < i && names_field(ev[k as int], name@)
                    && forall|j: int| 0 <= j < i && j != k ==> !names_field(#[trigger] ev[j], name@),
            },
        decreases es.len() - i,
    {
        let hit = match key_name_of(&es[i].key) {
            Some(s) => *s == wanted,
            None => false,
        };
        assert(hit == names_field(ev[i as int], name@));
        if hit {
            match found {
                Some(k) => {
                    assert(field_repeated(ev, name@)) by {
                        assert(names_field(ev[k as int], name@) && names_field(ev[i as int], name@));
                    }
                    assert(opt_entries(fields) == ev);
                    return Err(String::from_str("duplicate field"));
                },
                None => {
                    found = Some(i);
                },
            }
        }
        i = i + 1;
    }
    match found {
        None => {
            assert(!field_repeated(ev, name@));
            Ok(None)
        },
        Some(k) => {
            assert(!field_repeated(ev, name@));
            assert(!field_absent(ev, name@));
            assert(field_slot(ev, name@) == k as int);
            Ok(Some(&es[k].value))
        },
    }
}

// ---------------------------------------------------------------- scalar fields

pub open spec fn decode_bool_spec(v: YamlView) -> Option<bool> {
    match untag(v) {
        YamlView::Bool(b) => Some(b),
        _ => None,
    }
}

pub open spec fn decode_text_spec(v: YamlView) -> Option<Seq<char>> {
    match untag(v) {
        YamlView::String(s) => Some(s),
        _ => None,
    }
}

/// A port: a non-negative integer that fits in 16 bits.
pub open spec fn decode_port_spec(v: YamlView) -> Option<u16> {
    match untag(v) {
        YamlView::Number(n) => match number_value(n) {
            Some(x) => if x <= 65535 { Some(x as u16) } else { None },
            None => None,
        },
        _ => None,
    }
}

/// An optional text: exactly null reads as absent, anything else must be a text.
pub open spec fn decode_opt_text_spec(v: YamlView) -> Option<Option<Seq<char>>> {
    if v == YamlView::Null {
        Some(None)
    } else {
        match decode_text_spec(v) {
            Some(s) => Some(Some(s)),
            None => None,
        }
    }
}

pub fn decode_bool(v: &YamlValue) -> (r: Result<bool, String>)
    ensures
        match r {
            Ok(b) => decode_bool_spec(v@) == Some(b),
            Err(_) => decode_bool_spec(v@) is None,
        },
{
    match untag_ref(v) {
        YamlValue::Bool(b) => Ok(*b),
        _ => Err(String::from_str("invalid type: expected a boolean")),
    }
}

pub fn decode_text(v: &YamlValue) -> (r: Result<String, String>)
    ensures
        match r {
            Ok(s) => decode_text_spec(v@) == Some(s@),
            Err(_) => decode_text_spec(v@) is None,
        },
{
    match untag_ref(v) {
        YamlValue::String(s) => Ok(s.clone()),
        _ => Err(String::from_str("invalid type: expected a string")),
    }
}

pub fn decode_port(v: &YamlValue) -> (r: Result<u16, String>)
    ensures
        match r {
            Ok(p) => decode_port_spec(v@) == Some(p),
            Err(_) => decode_port_spec(v@) is None,
        },
{
    match untag_ref(v) {
        YamlValue::Number(n) => match number_capped(n) {
            Some(x) => if x <= 65535 {
                Ok(x as u16)
            } else {
                Err(String::from_str("invalid value: expected a port number"))
            },
            None => Err(String::from_str("invalid type: expected a port number")),
        },
        _ => Err(String::from_str("invalid type: expected a port number")),
    }
}

pub fn decode_opt_text(v: &YamlValue) -> (r: Result<Option<String>, String>)
    ensures
        match r {
            Ok(Some(s)) => decode_opt_text_spec(v@) == Some(Some(s@)),
            Ok(None) => decode_opt_text_spec(v@) == Some(None::<Seq<char>>),
            Err(_) => decode_opt_text_spec(v@) is None,
        },
{
    match v {
        YamlValue::Null => Ok(None),
        _ => {
            let s = decode_text(v)?;
            Ok(Some(s))
        },
    }
}

// ---------------------------------------------------------------- sequences

/// The items of a sequence-shaped value; null reads as a sequence without items.
pub open spec fn seq_items(v: YamlView) -> Option<Seq<YamlView>> {
    match untag(v) {
        YamlView::Null => Some(Seq::empty()),
        YamlView::Sequence(items) => Some(items),
        _ => None,
    }
}

pub open spec fn decode_all<T>(items: Seq<YamlView>, dec: spec_fn(YamlView) -> Option<T>) -> Option<Seq<T>> {
    if forall|i: int| 0 <= i < items.len() ==> (#[trigger] dec(items[i])) is Some {
        Some(Seq::new(items.len(), |i: int| dec(items[i])->0))
    } else {
        None
    }
}

pub open spec fn decode_seq_spec<T>(v: YamlView, dec: spec_fn(YamlView) -> Option<T>) -> Option<Seq<T>> {
    match seq_items(v) {
        Some(items) => decode_all(items, dec),
        None => None,
    }
}

pub open spec fn opt_items(items: Option<&Vec<YamlValue>>) -> Seq<YamlView> {
    match items {
        Some(v) => items_view(v@),
        None => Seq::empty(),
    }
}

/// The items of a sequence-shaped value; `None` stands for null, a sequence without items.
pub fn seq_values(v: &YamlValue) -> (r: Result<Option<&Vec<YamlValue>>, String>)
    ensures
        match r {
            Ok(items) => seq_items(v@) == Some(opt_items(items)),
            Err(_) => seq_items(v@) is None,
        },
{
    match untag_ref(v) {
        YamlValue::Null => Ok(None),
        YamlValue::Sequence(items) => Ok(Some(items)),
        _ => Err(String::from_str("invalid type: expected a sequence")),
    }
}

// ---------------------------------------------------------------- prefilter patterns

/// Whether a tag occurs anywhere in the value.
pub open spec fn has_tag(v: YamlView) -> bool
    decreases v,
{
    match v {
        YamlView::Tagged(_, _) => true,
        YamlView::Sequence(items) => items_have_tag(items),
        YamlView::Mapping(es) => entries_have_tag(es),
        _ => false,
    }
}

pub open spec fn items_have_tag(items: Seq<YamlView>) -> bool
    decreases items,
{
    if items.len() == 0 {
        false
    } else {
        items_have_tag(items.drop_last()) || has_tag(items.last())
    }
}

pub open spec fn entries_have_tag(es: Seq<(YamlView, YamlView)>) -> bool
    decreases es,
{
    if es.len() == 0 {
        false
    } else {
        entries_have_tag(es.drop_last()) || has_tag(es.last().0) || has_tag(es.last().1)
    }
}

/// Whether a tag occurs anywhere in `v`.
#[verifier::loop_isolation(false)]
pub fn contains_tag(v: &YamlValue) -> (r: bool)
    ensures
        r == has_tag(v@),
    decreases v,
{
    match v {
        YamlValue::Tagged(_, _) => true,
        YamlValue::Sequence(xs) => {
            proof {
                lemma_items_view(xs@);
                assert(items_view(xs@).subrange(0, 0) =~= Seq::<YamlView>::empty());
            }
            let mut i: usize = 0;
            while i < xs.len()
                invariant
                    i <= xs.len(),
                    !items_have_tag(items_view(xs@).subrange(0, i as int)),
                decreases xs.len() - i,
            {
                proof {
                    assert(decreases_to!(*v => *xs));
                    vstd::std_specs::vec::axiom_vec_index_decreases(*xs, i as int);
                    lemma_items_view(xs@);
                    assert(items_view(xs@).subrange(0, i + 1).drop_last() =~= items_view(xs@).subrange(0, i as int));
                }
                if contains_tag(&xs[i]) {
                    proof {
                        lemma_items_view(xs@);
                        lemma_items_have_tag_prefix(items_view(xs@), i + 1);
                    }
                    return true;
                }
                i = i + 1;
            }
            proof {
                lemma_items_view(xs@);
                assert(items_view(xs@).subrange(0, xs.len() as int) =~= items_view(xs@));
            }
            false
        },
        YamlValue::Mapping(es) => {
            proof {
                lemma_entries_view(es@);
                assert(entries_view(es@).subrange(0, 0) =~= Seq::<(YamlView, YamlView)>::empty());
            }
            let mut i: usize = 0;
            while i < es.len()
                invariant
                    i <= es.len(),
                    !entries_have_tag(entries_view(es@).subrange(0, i as int)),
                decreases es.len() - i,
            {
                proof {
                    assert(decreases_to!(*v => *es));
                    vstd::std_specs::vec::axiom_vec_index_decreases(*es, i as int);
                    lemma_entries_view(es@);
                    assert(entries_view(es@).subrange(0, i + 1).drop_last() =~= entries_view(es@).subrange(0, i as int));
                }
                if contains_tag(&es[i].key) || contains_tag(&es[i].value) {
                    proof {
                        lemma_entries_view(es@);
                        lemma_entries_have_tag_prefix(entries_view(es@), i + 1);
                    }
                    return true;
                }
                i = i + 1;
            }
            proof {
                lemma_entries_view(es@);
                assert(entries_view(es@).subrange(0, es.len() as int) =~= entries_view(es@));
            }
            false
        },
        _ => false,
    }
}

proof fn lemma_items_have_tag_prefix(items: Seq<YamlView>, n: int)
    requires
        0 <= n <= items.len(),
        items_have_tag(items.subrange(0, n)),
    ensures
        items_have_tag(items),
    decreases items.len() - n,
{
    if n < items.len() {
        assert(items.subrange(0, n + 1).drop_last() =~= items.subrange(0, n));
        lemma_items_have_tag_prefix(items, n + 1);
    } else {
        assert(items.subrange(0, n) =~= items);
    }
}

proof fn lemma_entries_have_tag_prefix(es: Seq<(YamlView, YamlView)>, n: int)
    requires
        0 <= n <= es.len(),
        entries_have_tag(es.subrange(0, n)),
    ensures
        entries_have_tag(es),
    decreases es.len() - n,
{
    if n < es.len() {
        assert(es.subrange(0, n + 1).drop_last() =~= es.subrange(0, n));
        lemma_entries_have_tag_prefix(es, n + 1);
    } else {
        assert(es.subrange(0, n) =~= es);
    }
}

/// How a key of a pattern mapping is read: by field name, or by field position.
pub enum PatternKey {
    Pattern,
    Enable,
    Other,
    Invalid,
}

pub open spec fn pattern_key(k: YamlView) -> PatternKey {
    match k {
        YamlView::String(s) => if s == "pattern"@ {
            PatternKey::Pattern
        } else if s == "enable"@ {
            PatternKey::Enable
        } else {
            PatternKey::Other
        },
        YamlView::Number(n) => match number_value(n) {
            Some(x) => if x == 0 {
                PatternKey::Pattern
            } else if x == 1 {
                PatternKey::Enable
            } else {
                PatternKey::Other
            },
            None => PatternKey::Invalid,
        },
        _ => PatternKey::Invalid,
    }
}

pub open spec fn pattern_slot_absent(es: Seq<(YamlView, YamlView)>, which: PatternKey) -> bool {
    forall|i: int| 0 <= i < es.len() ==> #[trigger] pattern_key(es[i].0) != which
}

pub open spec fn pattern_slot_repeated(es: Seq<(YamlView, YamlView)>, which: PatternKey) -> bool {
    exists|i: int, j: int|
        0 <= i < j < es.len() && #[trigger] pattern_key(es[i].0) == which && #[trigger] pattern_key(es[j].0) == which
}

pub open spec fn pattern_slot(es: Seq<(YamlView, YamlView)>, which: PatternKey) -> int {
    choose|i: int| 0 <= i < es.len() && pattern_key(es[i].0) == which
}

pub open spec fn read_pattern_slot(es: Seq<(YamlView, YamlView)>, which: PatternKey) -> FieldRead {
    if pattern_slot_repeated(es, which) {
        FieldRead::Repeated
    } else if pattern_slot_absent(es, which) {
        FieldRead::Absent
    } else {
        FieldRead::Value(es[pattern_slot(es, which)].1)
    }
}

pub open spec fn pattern_keys_valid(es: Seq<(YamlView, YamlView)>) -> bool {
    forall|i: int| 0 <= i < es.len() ==> #[trigger] pattern_key(es[i].0) != PatternKey::Invalid
}

/// A prefilter pattern written as a mapping.
pub open spec fn pattern_from_entries(es: Seq<(YamlView, YamlView)>) -> Option<PatternView> {
    if !pattern_keys_valid(es) {
        None
    } else {
        let pattern = match read_pattern_slot(es, PatternKey::Pattern) {
            FieldRead::Value(YamlView::String(s)) => Some(s),
            _ => None,
        };
        let enable = match read_pattern_slot(es, PatternKey::Enable) {
            FieldRead::Absent => Some(true),
            FieldRead::Value(YamlView::Bool(b)) => Some(b),
            _ => None,
        };
        match (pattern, enable) {
            (Some(p), Some(e)) => Some(PatternView { pattern: p, enable: e }),
            _ => None,
        }
    }
}

/// A prefilter pattern written as a sequence: the pattern, then optionally the flag.
pub open spec fn pattern_from_items(items: Seq<YamlView>) -> Option<PatternView> {
    if items.len() == 1 {
        match items[0] {
            YamlView::String(s) => Some(PatternView { pattern: s, enable: true }),
            _ => None,
        }
    } else if items.len() == 2 {
        match (items[0], items[1]) {
            (YamlView::String(s), YamlView::Bool(b)) => Some(PatternView { pattern: s, enable: b }),
            _ => None,
        }
    } else {
        None
    }
}

/// A prefilter pattern: a bare text (enabled), or the detailed form with `pattern` and
/// an `enable` flag that defaults to true. No tag may occur in it.
pub open spec fn decode_pattern_spec(v: YamlView) -> Option<PatternView> {
    if has_tag(v) {
        None
    } else {
        match v {
            YamlView::String(s) => Some(PatternView { pattern: s, enable: true }),
            YamlView::Mapping(es) => pattern_from_entries(es),
            YamlView::Sequence(items) => pattern_from_items(items),
            _ => None,
        }
    }
}

fn pattern_key_of(k: &YamlValue) -> (r: PatternKey)
    ensures
        r == pattern_key(k@),
{
    match k {
        YamlValue::String(s) => {
            let pattern = String::from_str("pattern");
            let enable = String::from_str("enable");
            if *s == pattern {
                PatternKey::Pattern
            } else if *s == enable {
                PatternKey::Enable
            } else {
                PatternKey::Other
            }
        },
        YamlValue::Number(n) => match number_capped(n) {
            Some(x) => if x == 0 {
                PatternKey::Pattern
            } else if x == 1 {
                PatternKey::Enable
            } else {
                PatternKey::Other
            },
            None => PatternKey::Invalid,
        },
        _ => PatternKey::Invalid,
    }
}

fn same_key(a: &PatternKey, b: &PatternKey) -> (r: bool)
    ensures
        r == (*a == *b),
{
    match (a, b) {
        (PatternKey::Pattern, PatternKey::Pattern) => true,
        (PatternKey::Enable, PatternKey::Enable) => true,
        (PatternKey::Other, PatternKey::Other) => true,
        (PatternKey::Invalid, PatternKey::Invalid) => true,
        _ => false,
    }
}

/// Finds the one entry of a pattern mapping that fills slot `which`.
fn find_pattern_slot<'a>(es: &'a Vec<YamlEntry>, which: PatternKey) -> (r: Result<Option<&'a YamlValue>, String>)
    ensures
        match r {
            Err(_) => read_pattern_slot(entries_view(es@), which) is Repeated,
            Ok(None) => read_pattern_slot(entries_view(es@), which) is Absent,
            Ok(Some(x)) => read_pattern_slot(entries_view(es@), which) == FieldRead::Value(x@),
        },
{
    let ghost ev = entries_view(es@);
    proof {
        lemma_entries_view(es@);
    }
    let mut found: Option<usize> = None;
    let mut i: usize = 0;
    while i < es.len()
        invariant
            i <= es.len(),
            ev == entries_view(es@),
            ev.len() == es@.len(),
            forall|j: int| 0 <= j < es@.len() ==> #[trigger] ev[j] == (es@[j].key@, es@[j].value@),
            match found {
                None => forall|j: int| 0 <= j < i ==> #[trigger] pattern_key(ev[j].0) != which,
                Some(k) => k < i && pattern_key(ev[k as int].0) == which
                    && forall|j: int| 0 <= j < i && j != k ==> #[trigger] pattern_key(ev[j].0) != which,
            },
        decreases es.len() - i,
    {
        let key = pattern_key_of(&es[i].key);
        assert(ev[i as int] == (es@[i as int].key@, es@[i as int].value@));
        if same_key(&key, &which) {
            match found {
                Some(k) => {
                    assert(pattern_slot_repeated(ev, which)) by {
                        assert(pattern_key(ev[k as int].0) == which && pattern_key(ev[i as int].0) == which);
                    }
                    return Err(String::from_str("duplicate field"));
                },
                None => {
                    found = Some(i);
                },
            }
        }
        i = i + 1;
    }
    match found {
        None => Ok(None),
        Some(k) => {
            assert(!pattern_slot_repeated(ev, which));
            assert(!pattern_slot_absent(ev, which));
            assert(pattern_slot(ev, which) == k as int);
            Ok(Some(&es[k].value))
        },
    }
}

#[verifier::loop_isolation(false)]
fn pattern_entries(es: &Vec<YamlEntry>) -> (r: Result<RecordingPrefilterPatternSettings, String>)
    ensures
        match r {
            Ok(p) => pattern_from_entries(entries_view(es@)) == Some(p@),
            Err(_) => pattern_from_entries(entries_view(es@)) is None,
        },
{
    proof {
        lemma_entries_view(es@);
    }
    let mut i: usize = 0;
    while i < es.len()
        invariant
            i <= es.len(),
            forall|j: int| 0 <= j < i ==> #[trigger] pattern_key(entries_view(es@)[j].0) != PatternKey::Invalid,
        decreases es.len() - i,
    {
        let key = pattern_key_of(&es[i].key);
        if let PatternKey::Invalid = key {
            assert(pattern_key(entries_view(es@)[i as int].0) == PatternKey::Invalid);
            return Err(String::from_str("invalid type: a pattern field must be named by a string or an index"));
        }
        i = i + 1;
    }
    assert(pattern_keys_valid(entries_view(es@)));
    let pattern = match find_pattern_slot(es, PatternKey::Pattern)? {
        Some(YamlValue::String(s)) => s.clone(),
        Some(_) => {
            return Err(String::from_str("invalid type: a pattern must be a string"));
        },
        None => {
            return Err(String::from_str("missing field `pattern`"));
        },
    };
    let enable = match find_pattern_slot(es, PatternKey::Enable)? {
        Some(YamlValue::Bool(b)) => *b,
        Some(_) => {
            return Err(String::from_str("invalid type: a pattern flag must be a boolean"));
        },
        None => true,
    };
    Ok(RecordingPrefilterPatternSettings { pattern, enable })
}

fn pattern_items(items: &Vec<YamlValue>) -> (r: Result<RecordingPrefilterPatternSettings, String>)
    ensures
        match r {
            Ok(p) => pattern_from_items(items_view(items@)) == Some(p@),
            Err(_) => pattern_from_items(items_view(items@)) is None,
        },
{
    proof {
        lemma_items_view(items@);
    }
    if items.len() == 1 {
        match &items[0] {
            YamlValue::String(s) => Ok(RecordingPrefilterPatternSettings::new(s.clone())),
            _ => Err(String::from_str("invalid type: a pattern must be a string")),
        }
    } else if items.len() == 2 {
        match (&items[0], &items[1]) {
            (YamlValue::String(s), YamlValue::Bool(b)) => Ok(
                RecordingPrefilterPatternSettings { pattern: s.clone(), enable: *b },
            ),
            _ => Err(String::from_str("invalid type: a pattern is a string and a boolean")),
        }
    } else {
        Err(String::from_str("invalid length: a pattern sequence holds one or two items"))
    }
}

/// Reads one prefilter pattern.
pub fn decode_pattern(v: &YamlValue) -> (r: Result<RecordingPrefilterPatternSettings, String>)
    ensures
        match r {
            Ok(p) => decode_pattern_spec(v@) == Some(p@),
            Err(_) => decode_pattern_spec(v@) is None,
        },
{
    if contains_tag(v) {
        return Err(String::from_str("data did not match any variant: tags are not accepted"));
    }
    match v {
        YamlValue::String(s) => Ok(RecordingPrefilterPatternSettings::new(s.clone())),
        YamlValue::Mapping(es) => pattern_entries(es),
        YamlValue::Sequence(items) => pattern_items(items),
        _ => Err(String::from_str("data did not match any variant of a prefilter pattern")),
    }
}

pub open spec fn decode_patterns_spec(v: YamlView) -> Option<Seq<PatternView>> {
    decode_seq_spec(v, |x: YamlView| decode_pattern_spec(x))
}

pub fn decode_patterns(v: &YamlValue) -> (r: Result<Vec<RecordingPrefilterPatternSettings>, String>)
    ensures
        match r {
            Ok(ps) => decode_patterns_spec(v@) == Some(patterns_view(ps@)),
            Err(_) => decode_patterns_spec(v@) is None,
        },
{
    let items = seq_values(v)?;
    let mut out: Vec<RecordingPrefilterPatternSettings> = Vec::new();
    let ghost iv = opt_items(items);
    let n: usize = match items {
        Some(xs) => xs.len(),
        None => 0,
    };
    proof {
        if let Some(xs) = items {
            lemma_items_view(xs@);
        }
    }
    let mut i: usize = 0;
    while i < n
        invariant
            i <= n,
            n == iv.len(),
            iv == opt_items(items),
            seq_items(v@) == Some(iv),
            out@.len() == i,
            forall|j: int| 0 <= j < i ==> decode_pattern_spec(iv[j]) == Some(#[trigger] out@[j]@),
        decreases n - i,
    {
        let xs = match items {
            Some(xs) => xs,
            None => {
                return Err(String::new());
            },
        };
        proof {
            lemma_items_view(xs@);
        }
        match decode_pattern(&xs[i]) {
            Ok(p) => {
                out.push(p);
            },
            Err(e) => {
                assert((|x: YamlView| decode_pattern_spec(x))(iv[i as int]) is None);
                return Err(e);
            },
        }
        i = i + 1;
    }
    proof {
        let dec = |x: YamlView| decode_pattern_spec(x);
        assert forall|j: int| 0 <= j < iv.len() implies (#[trigger] dec(iv[j])) is Some by {
            assert(decode_pattern_spec(iv[j]) == Some(out@[j]@));
        }
        assert(Seq::new(iv.len(), |j: int| dec(iv[j])->0) =~= patterns_view(out@));
    }
    Ok(out)
}

// ---------------------------------------------------------------- sections

pub open spec fn decode_prefilter_spec(v: YamlView) -> Option<PrefilterView> {
    match struct_entries(v) {
        None => None,
        Some(es) => match (
            field_or(es, "enable"@, true, |x: YamlView| decode_bool_spec(x)),
            field_or(es, "include_url_patterns"@, Seq::<PatternView>::empty(), |x: YamlView| decode_patterns_spec(x)),
        ) {
            (Some(enable), Some(ps)) => Some(PrefilterView { enable, include_url_patterns: ps }),
            _ => None,
        },
    }
}

pub fn decode_prefilter(v: &YamlValue) -> (r: Result<RecordingPrefilterSettings, String>)
    ensures
        match r {
            Ok(p) => decode_prefilter_spec(v@) == Some(p@),
            Err(_) => decode_prefilter_spec(v@) is None,
        },
{
    let es = struct_fields(v)?;
    let enable = match find_field(es, "enable")? {
        None => true,
        Some(x) => decode_bool(x)?,
    };
    let include_url_patterns = match find_field(es, "include_url_patterns")? {
        None => {
            let e: Vec<RecordingPrefilterPatternSettings> = Vec::new();
            assert(patterns_view(e@) =~= Seq::<PatternView>::empty());
            e
        },
        Some(x) => decode_patterns(x)?,
    };
    Ok(RecordingPrefilterSettings { enable, include_url_patterns })
}

pub open spec fn decode_recording_spec(v: YamlView) -> Option<RecordingView> {
    match struct_entries(v) {
        None => None,
        Some(es) => match (
            field_or(es, "start_record_on_launch"@, true, |x: YamlView| decode_bool_spec(x)),
            field_or(es, "prefilter"@, default_prefilter(), |x: YamlView| decode_prefilter_spec(x)),
        ) {
            (Some(start), Some(prefilter)) => Some(RecordingView { start_record_on_launch: start, prefilter }),
            _ => None,
        },
    }
}

pub fn decode_recording(v: &YamlValue) -> (r: Result<RecordingSettings, String>)
    ensures
        match r {
            Ok(x) => decode_recording_spec(v@) == Some(x@),
            Err(_) => decode_recording_spec(v@) is None,
        },
{
    let es = struct_fields(v)?;
    let start_record_on_launch = match find_field(es, "start_record_on_launch")? {
        None => true,
        Some(x) => decode_bool(x)?,
    };
    let prefilter = match find_field(es, "prefilter")? {
        None => RecordingPrefilterSettings::default(),
        Some(x) => decode_prefilter(x)?,
    };
    Ok(RecordingSettings { start_record_on_launch, prefilter })
}

pub open spec fn decode_server_spec(v: YamlView) -> Option<ServerSettings> {
    match struct_entries(v) {
        None => None,
        Some(es) => match field_or(es, "port"@, DEFAULT_PROXY_PORT, |x: YamlView| decode_port_spec(x)) {
            Some(port) => Some(ServerSettings { port }),
            None => None,
        },
    }
}

pub fn decode_server(v: &YamlValue) -> (r: Result<ServerSettings, String>)
    ensures
        match r {
            Ok(x) => decode_server_spec(v@) == Some(x),
            Err(_) => decode_server_spec(v@) is None,
        },
{
    let es = struct_fields(v)?;
    let port = match find_field(es, "port")? {
        None => DEFAULT_PROXY_PORT,
        Some(x) => decode_port(x)?,
    };
    Ok(ServerSettings { port })
}

pub open spec fn decode_mcp_spec(v: YamlView) -> Option<McpSettings> {
    match struct_entries(v) {
        None => None,
        Some(es) => match field_or(es, "enable"@, false, |x: YamlView| decode_bool_spec(x)) {
            Some(enable) => Some(McpSettings { enable }),
            None => None,
        },
    }
}

pub fn decode_mcp(v: &YamlValue) -> (r: Result<McpSettings, String>)
    ensures
        match r {
            Ok(x) => decode_mcp_spec(v@) == Some(x),
            Err(_) => decode_mcp_spec(v@) is None,
        },
{
    let es = struct_fields(v)?;
    let enable = match find_field(es, "enable")? {
        None => false,
        Some(x) => decode_bool(x)?,
    };
    Ok(McpSettings { enable })
}

pub open spec fn decode_certificate_spec(v: YamlView) -> Option<CertificateView> {
    match struct_entries(v) {
        None => None,
        Some(es) => match (
            field_or(es, "store_dir"@, default_store_dir(), |x: YamlView| decode_text_spec(x)),
            field_or(es, "pem_filename"@, default_pem_filename(), |x: YamlView| decode_text_spec(x)),
        ) {
            (Some(store_dir), Some(pem_filename)) => Some(CertificateView { store_dir, pem_filename }),
            _ => None,
        },
    }
}

pub fn decode_certificate(v: &YamlValue) -> (r: Result<CertificateSettings, String>)
    ensures
        match r {
            Ok(x) => decode_certificate_spec(v@) == Some(x@),
            Err(_) => decode_certificate_spec(v@) is None,
        },
{
    let es = struct_fields(v)?;
    let defaults = CertificateSettings::default();
    let store_dir = match find_field(es, "store_dir")? {
        None => defaults.store_dir,
        Some(x) => decode_text(x)?,
    };
    let pem_filename = match find_field(es, "pem_filename")? {
        None => defaults.pem_filename,
        Some(x) => decode_text(x)?,
    };
    Ok(CertificateSettings { store_dir, pem_filename })
}

pub open spec fn decode_request_list_spec(v: YamlView) -> Option<RequestListSettings> {
    match struct_entries(v) {
        None => None,
        Some(es) => match field_or(es, "auto_expand"@, false, |x: YamlView| decode_bool_spec(x)) {
            Some(auto_expand) => Some(RequestListSettings { auto_expand }),
            None => None,
        },
    }
}

pub fn decode_request_list(v: &YamlValue) -> (r: Result<RequestListSettings, String>)
    ensures
        match r {
            Ok(x) => decode_request_list_spec(v@) == Some(x),
            Err(_) => decode_request_list_spec(v@) is None,
        },
{
    let es = struct_fields(v)?;
    let auto_expand = match find_field(es, "auto_expand")? {
        None => false,
        Some(x) => decode_bool(x)?,
    };
    Ok(RequestListSettings { auto_expand })
}

pub open spec fn decode_ui_spec(v: YamlView) -> Option<UiSettings> {
    match struct_entries(v) {
        None => None,
        Some(es) => match field_or(
            es,
            "request_list"@,
            RequestListSettings { auto_expand: false },
            |x: YamlView| decode_request_list_spec(x),
        ) {
            Some(request_list) => Some(UiSettings { request_list }),
            None => None,
        },
    }
}

pub fn decode_ui(v: &YamlValue) -> (r: Result<UiSettings, String>)
    ensures
        match r {
            Ok(x) => decode_ui_spec(v@) == Some(x),
            Err(_) => decode_ui_spec(v@) is None,
        },
{
    let es = struct_fields(v)?;
    let request_list = match find_field(es, "request_list")? {
        None => RequestListSettings { auto_expand: false },
        Some(x) => decode_request_list(x)?,
    };
    Ok(UiSettings { request_list })
}

// ---------------------------------------------------------------- proxy mapping

pub open spec fn decode_rule_spec(v: YamlView) -> Option<MappingRuleView> {
    match struct_entries(v) {
        None => None,
        Some(es) => match (
            field_or(es, "from"@, Seq::<char>::empty(), |x: YamlView| decode_text_spec(x)),
            field_or(es, "to"@, Seq::<char>::empty(), |x: YamlView| decode_text_spec(x)),
            field_or(es, "enable"@, true, |x: YamlView| decode_bool_spec(x)),
        ) {
            (Some(from), Some(to), Some(enable)) => Some(MappingRuleView { from, to, enable }),
            _ => None,
        },
    }
}

pub fn decode_remote_rule(v: &YamlValue) -> (r: Result<ProxyMapRemoteRule, String>)
    ensures
        match r {
            Ok(x) => decode_rule_spec(v@) == Some(x@),
            Err(_) => decode_rule_spec(v@) is None,
        },
{
    let es = struct_fields(v)?;
    let from = match find_field(es, "from")? {
        None => String::new(),
        Some(x) => decode_text(x)?,
    };
    let to = match find_field(es, "to")? {
        None => String::new(),
        Some(x) => decode_text(x)?,
    };
    let enable = match find_field(es, "enable")? {
        None => true,
        Some(x) => decode_bool(x)?,
    };
    Ok(ProxyMapRemoteRule { from, to, enable })
}

pub fn decode_local_rule(v: &YamlValue) -> (r: Result<ProxyMapLocalRule, String>)
    ensures
        match r {
            Ok(x) => decode_rule_spec(v@) == Some(x@),
            Err(_) => decode_rule_spec(v@) is None,
        },
{
    let es = struct_fields(v)?;
    let from = match find_field(es, "from")? {
        None => String::new(),
        Some(x) => decode_text(x)?,
    };
    let to = match find_field(es, "to")? {
        None => String::new(),
        Some(x) => decode_text(x)?,
    };
    let enable = match find_field(es, "enable")? {
        None => true,
        Some(x) => decode_bool(x)?,
    };
    Ok(ProxyMapLocalRule { from, to, enable })
}

pub open spec fn decode_remote_rules_spec(v: YamlView) -> Option<Seq<MappingRuleView>> {
    decode_seq_spec(v, |x: YamlView| decode_rule_spec(x))
}

pub fn decode_remote_rules(v: &YamlValue) -> (r: Result<Vec<ProxyMapRemoteRule>, String>)
    ensures
        match r {
            Ok(xs) => decode_remote_rules_spec(v@) == Some(remote_rules_view(xs@)),
            Err(_) => decode_remote_rules_spec(v@) is None,
        },
{
    let items = seq_values(v)?;
    let mut out: Vec<ProxyMapRemoteRule> = Vec::new();
    let ghost iv = opt_items(items);
    let n: usize = match items {
        Some(xs) => xs.len(),
        None => 0,
    };
    proof {
        if let Some(xs) = items {
            lemma_items_view(xs@);
        }
    }
    let mut i: usize = 0;
    while i < n
        invariant
            i <= n,
            n == iv.len(),
            iv == opt_items(items),
            seq_items(v@) == Some(iv),
            out@.len() == i,
            forall|j: int| 0 <= j < i ==> decode_rule_spec(iv[j]) == Some(#[trigger] out@[j]@),
        decreases n - i,
    {
        let xs = match items {
            Some(xs) => xs,
            None => {
                return Err(String::new());
            },
        };
        proof {
            lemma_items_view(xs@);
        }
        match decode_remote_rule(&xs[i]) {
            Ok(p) => {
                out.push(p);
            },
            Err(e) => {
                assert((|x: YamlView| decode_rule_spec(x))(iv[i as int]) is None);
                return Err(e);
            },
        }
        i = i + 1;
    }
    proof {
        let dec = |x: YamlView| decode_rule_spec(x);
        assert forall|j: int| 0 <= j < iv.len() implies (#[trigger] dec(iv[j])) is Some by {
            assert(decode_rule_spec(iv[j]) == Some(out@[j]@));
        }
        assert(Seq::new(iv.len(), |j: int| dec(iv[j])->0) =~= remote_rules_view(out@));
    }
    Ok(out)
}

pub open spec fn decode_local_rules_spec(v: YamlView) -> Option<Seq<MappingRuleView>> {
    decode_seq_spec(v, |x: YamlView| decode_rule_spec(x))
}

pub fn decode_local_rules(v: &YamlValue) -> (r: Result<Vec<ProxyMapLocalRule>, String>)
    ensures
        match r {
            Ok(xs) => decode_local_rules_spec(v@) == Some(local_rules_view(xs@)),
            Err(_) => decode_local_rules_spec(v@) is None,
        },
{
    let items = seq_values(v)?;
    let mut out: Vec<ProxyMapLocalRule> = Vec::new();
    let ghost iv = opt_items(items);
    let n: usize = match items {
        Some(xs) => xs.len(),
        None => 0,
    };
    proof {
        if let Some(xs) = items {
            lemma_items_view(xs@);
        }
    }
    let mut i: usize = 0;
    while i < n
        invariant
            i <= n,
            n == iv.len(),
            iv == opt_items(items),
            seq_items(v@) == Some(iv),
            out@.len() == i,
            forall|j: int| 0 <= j < i ==> decode_rule_spec(iv[j]) == Some(#[trigger] out@[j]@),
        decreases n - i,
    {
        let xs = match items {
            Some(xs) => xs,
            None => {
                return Err(String::new());
            },
        };
        proof {
            lemma_items_view(xs@);
        }
        match decode_local_rule(&xs[i]) {
            Ok(p) => {
                out.push(p);
            },
            Err(e) => {
                assert((|x: YamlView| decode_rule_spec(x))(iv[i as int]) is None);
                return Err(e);
            },
        }
        i = i + 1;
    }
    proof {
        let dec = |x: YamlView| decode_rule_spec(x);
        assert forall|j: int| 0 <= j < iv.len() implies (#[trigger] dec(iv[j])) is Some by {
            assert(decode_rule_spec(iv[j]) == Some(out@[j]@));
        }
        assert(Seq::new(iv.len(), |j: int| dec(iv[j])->0) =~= local_rules_view(out@));
    }
    Ok(out)
}

pub open spec fn decode_table_spec(v: YamlView) -> Option<MappingTableView> {
    match struct_entries(v) {
        None => None,
        Some(es) => match (
            field_or(es, "enable"@, true, |x: YamlView| decode_bool_spec(x)),
            field_or(es, "rules"@, Seq::<MappingRuleView>::empty(), |x: YamlView| decode_seq_spec(x, |y: YamlView| decode_rule_spec(y))),
        ) {
            (Some(enable), Some(rules)) => Some(MappingTableView { enable, rules }),
            _ => None,
        },
    }
}

pub fn decode_remote_table(v: &YamlValue) -> (r: Result<ProxyMapRemoteSettings, String>)
    ensures
        match r {
            Ok(x) => decode_table_spec(v@) == Some(x@),
            Err(_) => decode_table_spec(v@) is None,
        },
{
    let es = struct_fields(v)?;
    let enable = match find_field(es, "enable")? {
        None => true,
        Some(x) => decode_bool(x)?,
    };
    let rules = match find_field(es, "rules")? {
        None => {
            let e: Vec<ProxyMapRemoteRule> = Vec::new();
            assert(remote_rules_view(e@) =~= Seq::<MappingRuleView>::empty());
            e
        },
        Some(x) => decode_remote_rules(x)?,
    };
    Ok(ProxyMapRemoteSettings { enable, rules })
}

pub fn decode_local_table(v: &YamlValue) -> (r: Result<ProxyMapLocalSettings, String>)
    ensures
        match r {
            Ok(x) => decode_table_spec(v@) == Some(x@),
            Err(_) => decode_table_spec(v@) is None,
        },
{
    let es = struct_fields(v)?;
    let enable = match find_field(es, "enable")? {
        None => true,
        Some(x) => decode_bool(x)?,
    };
    let rules = match find_field(es, "rules")? {
        None => {
            let e: Vec<ProxyMapLocalRule> = Vec::new();
            assert(local_rules_view(e@) =~= Seq::<MappingRuleView>::empty());
            e
        },
        Some(x) => decode_local_rules(x)?,
    };
    Ok(ProxyMapLocalSettings { enable, rules })
}

pub open spec fn decode_preset_spec(v: YamlView) -> Option<PresetView> {
    match struct_entries(v) {
        None => None,
        Some(es) => match (
            field_or(es, "name"@, Seq::<char>::empty(), |x: YamlView| decode_text_spec(x)),
            field_or(es, "map_remote"@, default_table(), |x: YamlView| decode_table_spec(x)),
            field_or(es, "map_local"@, default_table(), |x: YamlView| decode_table_spec(x)),
        ) {
            (Some(name), Some(map_remote), Some(map_local)) => Some(PresetView { name, map_remote, map_local }),
            _ => None,
        },
    }
}

pub fn decode_preset(v: &YamlValue) -> (r: Result<ProxyPresetSettings, String>)
    ensures
        match r {
            Ok(x) => decode_preset_spec(v@) == Some(x@),
            Err(_) => decode_preset_spec(v@) is None,
        },
{
    let es = struct_fields(v)?;
    let name = match find_field(es, "name")? {
        None => String::new(),
        Some(x) => decode_text(x)?,
    };
    let map_remote = match find_field(es, "map_remote")? {
        None => ProxyMapRemoteSettings::default(),
        Some(x) => decode_remote_table(x)?,
    };
    let map_local = match find_field(es, "map_local")? {
        None => ProxyMapLocalSettings::default(),
        Some(x) => decode_local_table(x)?,
    };
    Ok(ProxyPresetSettings { name, map_remote, map_local })
}

pub open spec fn decode_presets_spec(v: YamlView) -> Option<Seq<PresetView>> {
    decode_seq_spec(v, |x: YamlView| decode_preset_spec(x))
}

pub fn decode_presets(v: &YamlValue) -> (r: Result<Vec<ProxyPresetSettings>, String>)
    ensures
        match r {
            Ok(xs) => decode_presets_spec(v@) == Some(presets_view(xs@)),
            Err(_) => decode_presets_spec(v@) is None,
        },
{
    let items = seq_values(v)?;
    let mut out: Vec<ProxyPresetSettings> = Vec::new();
    let ghost iv = opt_items(items);
    let n: usize = match items {
        Some(xs) => xs.len(),
        None => 0,
    };
    proof {
        if let Some(xs) = items {
            lemma_items_view(xs@);
        }
    }
    let mut i: usize = 0;
    while i < n
        invariant
            i <= n,
            n == iv.len(),
            iv == opt_items(items),
            seq_items(v@) == Some(iv),
            out@.len() == i,
            forall|j: int| 0 <= j < i ==> decode_preset_spec(iv[j]) == Some(#[trigger] out@[j]@),
        decreases n - i,
    {
        let xs = match items {
            Some(xs) => xs,
            None => {
                return Err(String::new());
            },
        };
        proof {
            lemma_items_view(xs@);
        }
        match decode_preset(&xs[i]) {
            Ok(p) => {
                out.push(p);
            },
            Err(e) => {
                assert((|x: YamlView| decode_preset_spec(x))(iv[i as int]) is None);
                return Err(e);
            },
        }
        i = i + 1;
    }
    proof {
        let dec = |x: YamlView| decode_preset_spec(x);
        assert forall|j: int| 0 <= j < iv.len() implies (#[trigger] dec(iv[j])) is Some by {
            assert(decode_preset_spec(iv[j]) == Some(out@[j]@));
        }
        assert(Seq::new(iv.len(), |j: int| dec(iv[j])->0) =~= presets_view(out@));
    }
    Ok(out)
}

pub open spec fn decode_proxy_spec(v: YamlView) -> Option<ProxyView> {
    match struct_entries(v) {
        None => None,
        Some(es) => match (
            field_or(es, "enable"@, true, |x: YamlView| decode_bool_spec(x)),
            field_or(es, "active_preset"@, None::<Seq<char>>, |x: YamlView| decode_opt_text_spec(x)),
            field_or(es, "presets"@, Seq::<PresetView>::empty(), |x: YamlView| decode_presets_spec(x)),
        ) {
            (Some(enable), Some(active_preset), Some(presets)) => Some(ProxyView { enable, active_preset, presets }),
            _ => None,
        },
    }
}

pub fn decode_proxy(v: &YamlValue) -> (r: Result<ProxySettings, String>)
    ensures
        match r {
            Ok(x) => decode_proxy_spec(v@) == Some(x@),
            Err(_) => decode_proxy_spec(v@) is None,
        },
{
    let es = struct_fields(v)?;
    let enable = match find_field(es, "enable")? {
        None => true,
        Some(x) => decode_bool(x)?,
    };
    let active_preset = match find_field(es, "active_preset")? {
        None => None,
        Some(x) => decode_opt_text(x)?,
    };
    let presets = match find_field(es, "presets")? {
        None => {
            let e: Vec<ProxyPresetSettings> = Vec::new();
            assert(presets_view(e@) =~= Seq::<PresetView>::empty());
            e
        },
        Some(x) => decode_presets(x)?,
    };
    Ok(ProxySettings { enable, active_preset, presets })
}

/// An optional proxy section: exactly null reads as absent.
pub open spec fn decode_opt_proxy_spec(v: YamlView) -> Option<Option<ProxyView>> {
    if v == YamlView::Null {
        Some(None)
    } else {
        match decode_proxy_spec(v) {
            Some(p) => Some(Some(p)),
            None => None,
        }
    }
}

/// The settings a document reads as, or `None` where it does not read as settings.
pub open spec fn decode_settings_spec(v: YamlView) -> Option<AppSettingsView> {
    match struct_entries(v) {
        None => None,
        Some(es) => {
            let server = field_or(es, "server"@, ServerSettings { port: DEFAULT_PROXY_PORT }, |x: YamlView| decode_server_spec(x));
            let mcp = field_or(es, "mcp"@, McpSettings { enable: false }, |x: YamlView| decode_mcp_spec(x));
            let certificate = field_or(
                es,
                "certificate"@,
                CertificateView { store_dir: default_store_dir(), pem_filename: default_pem_filename() },
                |x: YamlView| decode_certificate_spec(x),
            );
            let recording = field_or(
                es,
                "recording"@,
                RecordingView { start_record_on_launch: true, prefilter: default_prefilter() },
                |x: YamlView| decode_recording_spec(x),
            );
            let ui = field_or(es, "ui"@, UiSettings { request_list: RequestListSettings { auto_expand: false } }, |x: YamlView| decode_ui_spec(x));
            let proxy = field_or(es, "proxy"@, None::<ProxyView>, |x: YamlView| decode_opt_proxy_spec(x));
            match (server, mcp, certificate, recording, ui, proxy) {
                (Some(server), Some(mcp), Some(certificate), Some(recording), Some(ui), Some(proxy)) => Some(
                    AppSettingsView { server, mcp, certificate, recording, ui, proxy },
                ),
                _ => None,
            }
        },
    }
}

/// Reads a settings document.
pub fn decode_settings(v: &YamlValue) -> (r: Result<AppSettings, String>)
    ensures
        match r {
            Ok(x) => decode_settings_spec(v@) == Some(x@),
            Err(_) => decode_settings_spec(v@) is None,
        },
{
    let es = struct_fields(v)?;
    let server = match find_field(es, "server")? {
        None => ServerSettings::default(),
        Some(x) => decode_server(x)?,
    };
    let mcp = match find_field(es, "mcp")? {
        None => McpSettings::default(),
        Some(x) => decode_mcp(x)?,
    };
    let certificate = match find_field(es, "certificate")? {
        None => CertificateSettings::default(),
        Some(x) => decode_certificate(x)?,
    };
    let recording = match find_field(es, "recording")? {
        None => RecordingSettings::default(),
        Some(x) => decode_recording(x)?,
    };
    let ui = match find_field(es, "ui")? {
        None => UiSettings::default(),
        Some(x) => decode_ui(x)?,
    };
    let proxy = match find_field(es, "proxy")? {
        None => None,
        Some(YamlValue::Null) => None,
        Some(x) => Some(decode_proxy(x)?),
    };
    Ok(AppSettings { server, mcp, certificate, recording, ui, proxy })
}

} // verus!
