use vstd::prelude::*;

verus! {

/// A YAML number: a non-negative integer, a negative integer, or a number kept as the
/// text its parse writes for it.
#[derive(Debug, PartialEq)]
pub enum YamlNumber {
    PosInt(u64),
    NegInt(i64),
    Text(String),
}

/// A YAML document tree. Mappings keep their entries in document order and hold each key
/// once.
#[derive(Debug, PartialEq)]
pub enum YamlValue {
    Null,
    Bool(bool),
    Number(YamlNumber),
    String(String),
    Sequence(Vec<YamlValue>),
    Mapping(Vec<YamlEntry>),
    Tagged(String, Box<YamlValue>),
}

#[derive(Debug, PartialEq)]
pub struct YamlEntry {
    pub key: YamlValue,
    pub value: YamlValue,
}

pub enum NumberView {
    PosInt(u64),
    NegInt(i64),
    Text(Seq<char>),
}

/// The mathematical model of a YAML document tree.
pub enum YamlView {
    Null,
    Bool(bool),
    Number(NumberView),
    String(Seq<char>),
    Sequence(Seq<YamlView>),
    Mapping(Seq<(YamlView, YamlView)>),
    Tagged(Seq<char>, Box<YamlView>),
}

pub open spec fn number_view(n: YamlNumber) -> NumberView {
    match n {
        YamlNumber::PosInt(v) => NumberView::PosInt(v),
        YamlNumber::NegInt(v) => NumberView::NegInt(v),
        YamlNumber::Text(s) => NumberView::Text(s@),
    }
}

pub open spec fn yaml_view(v: YamlValue) -> YamlView
    decreases v,
{
    match v {
        YamlValue::Null => YamlView::Null,
        YamlValue::Bool(b) => YamlView::Bool(b),
        YamlValue::Number(n) => YamlView::Number(number_view(n)),
        YamlValue::String(s) => YamlView::String(s@),
        YamlValue::Sequence(items) => YamlView::Sequence(items_view(items@)),
        YamlValue::Mapping(entries) => YamlView::Mapping(entries_view(entries@)),
        YamlValue::Tagged(tag, inner) => YamlView::Tagged(tag@, Box::new(yaml_view(*inner))),
    }
}

pub open spec fn items_view(items: Seq<YamlValue>) -> Seq<YamlView>
    decreases items,
{
    if items.len() == 0 {
        Seq::empty()
    } else {
        items_view(items.drop_last()).push(yaml_view(items.last()))
    }
}

pub open spec fn entries_view(entries: Seq<YamlEntry>) -> Seq<(YamlView, YamlView)>
    decreases entries,
{
    if entries.len() == 0 {
        Seq::empty()
    } else {
        entries_view(entries.drop_last()).push((yaml_view(entries.last().key), yaml_view(entries.last().value)))
    }
}

impl View for YamlValue {
    type V = YamlView;

    open spec fn view(&self) -> YamlView {
        yaml_view(*self)
    }
}

pub broadcast proof fn lemma_items_view(items: Seq<YamlValue>)
    ensures
        #[trigger] items_view(items).len() == items.len(),
        forall|i: int| 0 <= i < items.len() ==> #[trigger] items_view(items)[i] == yaml_view(items[i]),
    decreases items.len(),
{
    if items.len() > 0 {
        lemma_items_view(items.drop_last());
    }
}

pub broadcast proof fn lemma_entries_view(entries: Seq<YamlEntry>)
    ensures
        #[trigger] entries_view(entries).len() == entries.len(),
        forall|i: int| 0 <= i < entries.len() ==> #[trigger] entries_view(entries)[i]
            == (yaml_view(entries[i].key), yaml_view(entries[i].value)),
    decreases entries.len(),
{
    if entries.len() > 0 {
        lemma_entries_view(entries.drop_last());
    }
}

pub proof fn lemma_items_view_ext(a: Seq<YamlValue>, v: Seq<YamlView>)
    requires
        a.len() == v.len(),
        forall|i: int| 0 <= i < a.len() ==> yaml_view(#[trigger] a[i]) == v[i],
    ensures
        items_view(a) == v,
{
    lemma_items_view(a);
    assert(items_view(a) =~= v);
}

pub proof fn lemma_entries_view_ext(a: Seq<YamlEntry>, v: Seq<(YamlView, YamlView)>)
    requires
        a.len() == v.len(),
        forall|i: int| 0 <= i < a.len() ==> (yaml_view(#[trigger] a[i].key), yaml_view(a[i].value)) == v[i],
    ensures
        entries_view(a) == v,
{
    lemma_entries_view(a);
    assert(entries_view(a) =~= v);
}

/// A value without the tags around it.
pub open spec fn untag(v: YamlView) -> YamlView
    decreases v,
{
    match v {
        YamlView::Tagged(_, inner) => untag(*inner),
        _ => v,
    }
}

/// The value without the tags around it.
pub fn untag_ref(v: &YamlValue) -> (r: &YamlValue)
    ensures
        r@ == untag(v@),
        !(*r is Tagged),
    decreases v,
{
    match v {
        YamlValue::Tagged(_, inner) => untag_ref(inner),
        _ => v,
    }
}

fn number_eq(a: &YamlNumber, b: &YamlNumber) -> (r: bool)
    ensures
        r == (number_view(*a) == number_view(*b)),
{
    match (a, b) {
        (YamlNumber::PosInt(x), YamlNumber::PosInt(y)) => *x == *y,
        (YamlNumber::NegInt(x), YamlNumber::NegInt(y)) => *x == *y,
        (YamlNumber::Text(x), YamlNumber::Text(y)) => *x == *y,
        _ => false,
    }
}

/// Whether two YAML values are equal, entry by entry and in order.
#[verifier::loop_isolation(false)]
pub fn yaml_eq(a: &YamlValue, b: &YamlValue) -> (r: bool)
    ensures
        r == (a@ == b@),
    decreases a,
{
    match a {
        YamlValue::Null => matches!(b, YamlValue::Null),
        YamlValue::Bool(x) => match b {
            YamlValue::Bool(y) => *x == *y,
            _ => false,
        },
        YamlValue::Number(x) => match b {
            YamlValue::Number(y) => number_eq(x, y),
            _ => false,
        },
        YamlValue::String(x) => match b {
            YamlValue::String(y) => *x == *y,
            _ => false,
        },
        YamlValue::Sequence(xs) => match b {
            YamlValue::Sequence(ys) => {
                proof {
                    lemma_items_view(xs@);
                    lemma_items_view(ys@);
                }
                if xs.len() != ys.len() {
                    return false;
                }
                let mut i: usize = 0;
                while i < xs.len()
                    invariant
                        i <= xs.len() == ys.len(),
                        forall|j: int| 0 <= j < i ==> yaml_view(#[trigger] xs@[j]) == yaml_view(ys@[j]),
                    decreases xs.len() - i,
                {
                    proof {
                        assert(decreases_to!(*a => *xs));
                        vstd::std_specs::vec::axiom_vec_index_decreases(*xs, i as int);
                    }
                    if !yaml_eq(&xs[i], &ys[i]) {
                        proof {
                            lemma_items_view(xs@);
                            lemma_items_view(ys@);
                            assert(items_view(xs@)[i as int] != items_view(ys@)[i as int]);
                        }
                        return false;
                    }
                    i = i + 1;
                }
                proof {
                    lemma_items_view(xs@);
                    lemma_items_view(ys@);
                    assert(items_view(xs@) =~= items_view(ys@));
                }
                true
            },
            _ => false,
        },
        YamlValue::Mapping(xs) => match b {
            YamlValue::Mapping(ys) => {
                proof {
                    lemma_entries_view(xs@);
                    lemma_entries_view(ys@);
                }
                if xs.len() != ys.len() {
                    return false;
                }
                let mut i: usize = 0;
                while i < xs.len()
                    invariant
                        i <= xs.len() == ys.len(),
                        forall|j: int| 0 <= j < i ==> yaml_view(#[trigger] xs@[j].key) == yaml_view(ys@[j].key)
                            && yaml_view(xs@[j].value) == yaml_view(ys@[j].value),
                    decreases xs.len() - i,
                {
                    proof {
                        assert(decreases_to!(*a => *xs));
                        vstd::std_specs::vec::axiom_vec_index_decreases(*xs, i as int);
                    }
                    if !yaml_eq(&xs[i].key, &ys[i].key) || !yaml_eq(&xs[i].value, &ys[i].value) {
                        proof {
                            lemma_entries_view(xs@);
                            lemma_entries_view(ys@);
                            assert(entries_view(xs@)[i as int] != entries_view(ys@)[i as int]);
                        }
                        return false;
                    }
                    i = i + 1;
                }
                proof {
                    lemma_entries_view(xs@);
                    lemma_entries_view(ys@);
                    assert(entries_view(xs@) =~= entries_view(ys@));
                }
                true
            },
            _ => false,
        },
        YamlValue::Tagged(t1, x) => match b {
            YamlValue::Tagged(t2, y) => *t1 == *t2 && yaml_eq(x, y),
            _ => false,
        },
    }
}

// ---------------------------------------------------------------- copying

/// A copy of `v`.
#[verifier::loop_isolation(false)]
pub fn clone_yaml(v: &YamlValue) -> (r: YamlValue)
    ensures
        r@ == v@,
    decreases v,
{
    match v {
        YamlValue::Null => YamlValue::Null,
        YamlValue::Bool(b) => YamlValue::Bool(*b),
        YamlValue::Number(n) => YamlValue::Number(
            match n {
                YamlNumber::PosInt(x) => YamlNumber::PosInt(*x),
                YamlNumber::NegInt(x) => YamlNumber::NegInt(*x),
                YamlNumber::Text(t) => YamlNumber::Text(t.clone()),
            },
        ),
        YamlValue::String(s) => YamlValue::String(s.clone()),
        YamlValue::Sequence(xs) => {
            let mut out: Vec<YamlValue> = Vec::new();
            let mut i: usize = 0;
            while i < xs.len()
                invariant
                    i <= xs.len(),
                    out@.len() == i,
                    forall|j: int| 0 <= j < i ==> (#[trigger] out@[j])@ == xs@[j]@,
                decreases xs.len() - i,
            {
                proof {
                    assert(decreases_to!(*v => *xs));
                    vstd::std_specs::vec::axiom_vec_index_decreases(*xs, i as int);
                }
                out.push(clone_yaml(&xs[i]));
                i = i + 1;
            }
            proof {
                lemma_items_view(out@);
                lemma_items_view_ext(xs@, items_view(out@));
            }
            YamlValue::Sequence(out)
        },
        YamlValue::Mapping(es) => {
            let mut out: Vec<YamlEntry> = Vec::new();
            let mut i: usize = 0;
            while i < es.len()
                invariant
                    i <= es.len(),
                    out@.len() == i,
                    forall|j: int| 0 <= j < i ==> (#[trigger] out@[j]).key@ == es@[j].key@ && out@[j].value@ == es@[j].value@,
                decreases es.len() - i,
            {
                proof {
                    assert(decreases_to!(*v => *es));
                    vstd::std_specs::vec::axiom_vec_index_decreases(*es, i as int);
                }
                let key = clone_yaml(&es[i].key);
                let value = clone_yaml(&es[i].value);
                out.push(YamlEntry { key, value });
                i = i + 1;
            }
            proof {
                lemma_entries_view(out@);
                lemma_entries_view_ext(es@, entries_view(out@));
            }
            YamlValue::Mapping(out)
        },
        YamlValue::Tagged(t, x) => YamlValue::Tagged(t.clone(), Box::new(clone_yaml(x))),
    }
}

impl Clone for YamlValue {
    fn clone(&self) -> (r: Self)
        ensures
            r@ == self@,
    {
        clone_yaml(self)
    }
}

// ---------------------------------------------------------------- mappings

/// `i` is the first position whose key is `key`.
pub open spec fn key_at(es: Seq<(YamlView, YamlView)>, key: YamlView, i: int) -> bool {
    0 <= i < es.len() && es[i].0 == key && forall|j: int| 0 <= j < i ==> #[trigger] es[j].0 != key
}

/// The first position whose key is `key`.
pub open spec fn find_key(es: Seq<(YamlView, YamlView)>, key: YamlView) -> Option<int> {
    if exists|i: int| key_at(es, key, i) {
        Some(choose|i: int| key_at(es, key, i))
    } else {
        None
    }
}

/// The value stored under `key`.
pub open spec fn map_get(es: Seq<(YamlView, YamlView)>, key: YamlView) -> Option<YamlView> {
    match find_key(es, key) {
        Some(i) => Some(es[i].1),
        None => None,
    }
}

/// Stores `value` under `key`: in place where the key is present (the key keeps its
/// position), at the end where it is not.
pub open spec fn map_insert(es: Seq<(YamlView, YamlView)>, key: YamlView, value: YamlView) -> Seq<(YamlView, YamlView)> {
    match find_key(es, key) {
        Some(i) => es.update(i, (es[i].0, value)),
        None => es.push((key, value)),
    }
}

/// Removes the entry at `i`; the last entry takes its place.
pub open spec fn swap_remove_at<A>(es: Seq<A>, i: int) -> Seq<A> {
    es.update(i, es.last()).drop_last()
}

pub proof fn lemma_key_at_unique(es: Seq<(YamlView, YamlView)>, key: YamlView, i: int, j: int)
    requires
        key_at(es, key, i),
        key_at(es, key, j),
    ensures
        i == j,
{
    if i < j {
        assert(es[i].0 != key);
    } else if j < i {
        assert(es[j].0 != key);
    }
}

/// A key that occurs has a first position.
pub proof fn lemma_find_key_some(es: Seq<(YamlView, YamlView)>, key: YamlView, j: int)
    requires
        0 <= j < es.len(),
        es[j].0 == key,
    ensures
        find_key(es, key) is Some,
    decreases j,
{
    if forall|k: int| 0 <= k < j ==> #[trigger] es[k].0 != key {
        assert(key_at(es, key, j));
    } else {
        let k = choose|k: int| 0 <= k < j && es[k].0 != key == false;
        lemma_find_key_some(es, key, k);
    }
}

/// Where `key` first occurs.
pub fn find_entry(es: &Vec<YamlEntry>, key: &YamlValue) -> (r: Option<usize>)
    ensures
        match r {
            Some(i) => find_key(entries_view(es@), key@) == Some(i as int),
            None => find_key(entries_view(es@), key@) is None
                && forall|j: int| 0 <= j < es@.len() ==> #[trigger] entries_view(es@)[j].0 != key@,
        },
{
    proof {
        lemma_entries_view(es@);
    }
    let ghost ev = entries_view(es@);
    let mut i: usize = 0;
    while i < es.len()
        invariant
            i <= es.len(),
            ev == entries_view(es@),
            ev.len() == es@.len(),
            forall|j: int| 0 <= j < es@.len() ==> #[trigger] ev[j] == (es@[j].key@, es@[j].value@),
            forall|j: int| 0 <= j < i ==> #[trigger] ev[j].0 != key@,
        decreases es.len() - i,
    {
        assert(ev[i as int] == (es@[i as int].key@, es@[i as int].value@));
        if yaml_eq(&es[i].key, key) {
            assert(key_at(ev, key@, i as int));
            proof {
                let c = choose|c: int| key_at(ev, key@, c);
                lemma_key_at_unique(ev, key@, c, i as int);
            }
            return Some(i);
        }
        i = i + 1;
    }
    None
}

/// Stores `value` under `key`, as `map_insert` describes.
pub fn insert_entry(es: &mut Vec<YamlEntry>, key: YamlValue, value: YamlValue)
    ensures
        entries_view(final(es)@) == map_insert(entries_view(old(es)@), key@, value@),
{
    proof {
        lemma_entries_view(es@);
    }
    match find_entry(es, &key) {
        Some(i) => {
            let old_entry = es.remove(i);
            let ghost before = es@;
            es.insert(i, YamlEntry { key: old_entry.key, value });
            proof {
                lemma_entries_view(old(es)@);
                lemma_entries_view(es@);
                lemma_entries_view_ext(es@, map_insert(entries_view(old(es)@), key@, value@));
            }
        },
        None => {
            let ghost before = es@;
            es.push(YamlEntry { key, value });
            proof {
                lemma_entries_view(before);
                lemma_entries_view(es@);
                lemma_entries_view_ext(es@, map_insert(entries_view(before), key@, value@));
            }
        },
    }
}

// ---------------------------------------------------------------- the value of a number

pub open spec fn is_digit(c: char) -> bool {
    '0' <= c && c <= '9'
}

/// The value of a text of decimal digits.
pub open spec fn digits_value(t: Seq<char>) -> nat
    decreases t.len(),
{
    if t.len() == 0 {
        0
    } else {
        digits_value(t.drop_last()) * 10 + ((t.last() as u32) - ('0' as u32)) as nat
    }
}

/// The non-negative integer a number holds, where it holds one: a non-negative integer, or
/// a text of decimal digits.
pub open spec fn number_value(n: NumberView) -> Option<nat> {
    match n {
        NumberView::PosInt(v) => Some(v as nat),
        NumberView::NegInt(_) => None,
        NumberView::Text(t) => if t.len() > 0 && forall|i: int| 0 <= i < t.len() ==> is_digit(#[trigger] t[i]) {
            Some(digits_value(t))
        } else {
            None
        },
    }
}

/// The cap above which `number_capped` stops counting.
pub const NUMBER_CAP: u32 = 65536;

/// The non-negative integer a number holds, counted up to `NUMBER_CAP`.
pub fn number_capped(n: &YamlNumber) -> (r: Option<u32>)
    ensures
        match number_value(number_view(*n)) {
            Some(v) => r == Some(if v < NUMBER_CAP { v as u32 } else { NUMBER_CAP }),
            None => r is None,
        },
{
    match n {
        YamlNumber::PosInt(v) => Some(if *v < NUMBER_CAP as u64 { *v as u32 } else { NUMBER_CAP }),
        YamlNumber::NegInt(_) => None,
        YamlNumber::Text(t) => {
            let chars = t.as_str();
            let len = chars.unicode_len();
            if len == 0 {
                return None;
            }
            let mut acc: u32 = 0;
            let mut i: usize = 0;
            while i < len
                invariant
                    len == t@.len(),
                    i <= len,
                    chars@ == t@,
                    number_view(*n) == NumberView::Text(t@),
                    forall|j: int| 0 <= j < i ==> is_digit(#[trigger] t@[j]),
                    acc == if digits_value(t@.take(i as int)) < NUMBER_CAP {
                        digits_value(t@.take(i as int)) as u32
                    } else {
                        NUMBER_CAP
                    },
                decreases len - i,
            {
                let c = chars.get_char(i);
                if !('0' <= c && c <= '9') {
                    assert(!is_digit(t@[i as int]));
                    return None;
                }
                proof {
                    assert(t@.take(i + 1).drop_last() =~= t@.take(i as int));
                    assert(t@.take(i + 1).last() == c);
                }
                let d = (c as u32) - ('0' as u32);
                if acc < NUMBER_CAP {
                    let next = acc * 10 + d;
                    acc = if next < NUMBER_CAP { next } else { NUMBER_CAP };
                }
                i = i + 1;
            }
            proof {
                assert(t@.take(len as int) =~= t@);
            }
            Some(acc)
        },
    }
}

// ---------------------------------------------------------------- reading YAML text

#[verifier::external_type_specification]
#[verifier::external_body]
pub struct ExSerdeYamlValue(serde_yaml::Value);

/// What `serde_yaml::from_str::<serde_yaml::Value>` gives for a text: the document it
/// parses, in this module's model, or the text of its error.
pub uninterp spec fn yaml_text_parse(text: Seq<char>) -> Result<YamlView, Seq<char>>;

/// A `serde_yaml` document in this module's model, one variant for one: a number is kept
/// as the text its `Display` writes, a tag as the text its `Display` writes, and a mapping's
/// entries in the order the mapping holds them. Nothing is claimed of it but through
/// `parse_yaml_text`.
#[verifier::external_body]
fn yaml_from_serde(v: &serde_yaml::Value) -> (r: YamlValue) {
    match v {
        serde_yaml::Value::Null => YamlValue::Null,
        serde_yaml::Value::Bool(b) => YamlValue::Bool(*b),
        serde_yaml::Value::Number(n) => YamlValue::Number(YamlNumber::Text(n.to_string())),
        serde_yaml::Value::String(s) => YamlValue::String(s.clone()),
        serde_yaml::Value::Sequence(items) => YamlValue::Sequence(items.iter().map(yaml_from_serde).collect()),
        serde_yaml::Value::Mapping(map) => YamlValue::Mapping(
            map.iter().map(|(k, x)| YamlEntry { key: yaml_from_serde(k), value: yaml_from_serde(x) }).collect(),
        ),
        serde_yaml::Value::Tagged(t) => YamlValue::Tagged(t.tag.to_string(), Box::new(yaml_from_serde(&t.value))),
    }
}

/// Parses a YAML text with `serde_yaml::from_str::<serde_yaml::Value>`. Claimed of it: the
/// outcome depends on the text alone, and is either the document (converted by
/// `yaml_from_serde`) or the text of the parse error.
#[verifier::external_body]
pub fn parse_yaml_text(text: &str) -> (r: Result<YamlValue, String>)
    ensures
        match r {
            Ok(v) => yaml_text_parse(text@) == Ok::<YamlView, Seq<char>>(v@),
            Err(e) => yaml_text_parse(text@) == Err::<YamlView, Seq<char>>(e@),
        },
{
    match serde_yaml::from_str::<serde_yaml::Value>(text) {
        Ok(v) => Ok(yaml_from_serde(&v)),
        Err(e) => Err(e.to_string()),
    }
}

} // verus!
