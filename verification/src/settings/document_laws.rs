use vstd::prelude::*;
use crate::settings::codec_laws::lemma_settings_roundtrip;
use crate::settings::decode::{
    struct_entries, seq_items, decode_seq_spec, decode_bool_spec, decode_text_spec, decode_port_spec,
    decode_opt_text_spec, has_tag, items_have_tag, entries_have_tag, PatternKey, pattern_key,
    pattern_slot_absent, pattern_slot_repeated, pattern_slot, read_pattern_slot, decode_pattern_spec,
    decode_patterns_spec, decode_prefilter_spec, decode_recording_spec, decode_server_spec, decode_mcp_spec,
    decode_certificate_spec, decode_request_list_spec, decode_ui_spec, decode_rule_spec, decode_table_spec,
    decode_preset_spec, decode_presets_spec, decode_proxy_spec, decode_opt_proxy_spec, decode_settings_spec,
};
use crate::settings::model::{
    AppSettingsView, CertificateView, McpSettings, ServerSettings, UiSettings, RequestListSettings, RecordingView,
    PatternView, PresetView, MappingRuleView, DEFAULT_PROXY_PORT, default_store_dir, default_pem_filename,
    default_prefilter, default_table,
};
use crate::settings::preserve::{
    reorder, reorder_fold, append_all, reorder_items, insert_all, insert_each_keeping, collect_missing,
    settings_document_spec,
};
use crate::settings::encode::encode_settings_spec;
use crate::settings::document::strip_patterns_spec;
use crate::settings::reorder_laws::{
    derived, has_key, related, respects_reorder, lemma_reorder_shape, lemma_reordered_entries,
    lemma_reordered_items, lemma_struct_entries_reorder, lemma_field_or_kept, lemma_seq_items_reorder,
    lemma_decode_all_kept,
};
use crate::yaml::YamlView;

verus! {

// ---------------------------------------------------------------- scalars

proof fn lemma_scalars_reorder(v: YamlView, p: YamlView)
    ensures
        decode_bool_spec(reorder(v, p)) == decode_bool_spec(v),
        decode_text_spec(reorder(v, p)) == decode_text_spec(v),
        decode_port_spec(reorder(v, p)) == decode_port_spec(v),
        decode_opt_text_spec(reorder(v, p)) == decode_opt_text_spec(v),
{
    lemma_reorder_shape(v, p);
}

proof fn lemma_respects_scalars()
    ensures
        respects_reorder(|x: YamlView| decode_bool_spec(x)),
        respects_reorder(|x: YamlView| decode_text_spec(x)),
        respects_reorder(|x: YamlView| decode_port_spec(x)),
        respects_reorder(|x: YamlView| decode_opt_text_spec(x)),
{
    assert forall|x: YamlView, q: YamlView| #![trigger reorder(x, q)] true implies {
        &&& decode_bool_spec(reorder(x, q)) == decode_bool_spec(x)
        &&& decode_text_spec(reorder(x, q)) == decode_text_spec(x)
        &&& decode_port_spec(reorder(x, q)) == decode_port_spec(x)
        &&& decode_opt_text_spec(reorder(x, q)) == decode_opt_text_spec(x)
    } by {
        lemma_scalars_reorder(x, q);
    }
}

// ---------------------------------------------------------------- patterns

proof fn lemma_items_have_tag(items: Seq<YamlView>)
    ensures
        !items_have_tag(items) <==> forall|i: int| 0 <= i < items.len() ==> !has_tag(#[trigger] items[i]),
    decreases items.len(),
{
    if items.len() > 0 {
        let init = items.drop_last();
        lemma_items_have_tag(init);
        if !items_have_tag(items) {
            assert forall|i: int| 0 <= i < items.len() implies !has_tag(#[trigger] items[i]) by {
                if i < items.len() - 1 {
                    assert(items[i] == init[i]);
                }
            }
        }
        if forall|i: int| 0 <= i < items.len() ==> !has_tag(#[trigger] items[i]) {
            assert forall|i: int| 0 <= i < init.len() implies !has_tag(#[trigger] init[i]) by {
                assert(init[i] == items[i]);
            }
            assert(!has_tag(items[items.len() - 1]));
        }
    }
}

proof fn lemma_entries_untagged_each(es: Seq<(YamlView, YamlView)>)
    requires
        !entries_have_tag(es),
    ensures
        forall|i: int| 0 <= i < es.len() ==> !has_tag(#[trigger] es[i].0) && !has_tag(es[i].1),
    decreases es.len(),
{
    if es.len() > 0 {
        let init = es.drop_last();
        lemma_entries_untagged_each(init);
        assert forall|i: int| 0 <= i < es.len() implies !has_tag(#[trigger] es[i].0) && !has_tag(es[i].1) by {
            if i < es.len() - 1 {
                assert(es[i] == init[i]);
            } else {
                assert(es[i] == es.last());
            }
        }
    }
}

proof fn lemma_entries_each_untagged(es: Seq<(YamlView, YamlView)>)
    requires
        forall|i: int| 0 <= i < es.len() ==> !has_tag(#[trigger] es[i].0) && !has_tag(es[i].1),
    ensures
        !entries_have_tag(es),
    decreases es.len(),
{
    if es.len() > 0 {
        let init = es.drop_last();
        assert forall|i: int| 0 <= i < init.len() implies !has_tag(#[trigger] init[i].0) && !has_tag(init[i].1) by {
            assert(init[i] == es[i]);
        }
        lemma_entries_each_untagged(init);
        assert(!has_tag(es[es.len() - 1].0) && !has_tag(es[es.len() - 1].1));
    }
}

/// Reordering adds no tag.
proof fn lemma_reorder_untagged(v: YamlView, p: YamlView)
    requires
        !has_tag(v),
    ensures
        !has_tag(reorder(v, p)),
    decreases v,
{
    match (v, p) {
        (YamlView::Mapping(c), YamlView::Mapping(pe)) => {
            lemma_reordered_entries(c, pe);
            let (rest, ordered) = reorder_fold(c, pe);
            let out = append_all(ordered, rest);
            lemma_entries_untagged_each(c);
            assert forall|i: int| 0 <= i < out.len() implies !has_tag(#[trigger] out[i].0) && !has_tag(out[i].1) by {
                let a = choose|a: int| 0 <= a < c.len() && c[a].0 == out[i].0 && derived(c[a].1, out[i].1);
                assert(!has_tag(c[a].0) && !has_tag(c[a].1));
                if out[i].1 != c[a].1 {
                    let q = choose|q: YamlView| out[i].1 == reorder(c[a].1, q);
                    assert(decreases_to!(v => c));
                    assert(decreases_to!(c => c[a]));
                    lemma_reorder_untagged(c[a].1, q);
                }
            }
            lemma_entries_each_untagged(out);
        },
        (YamlView::Sequence(c), YamlView::Sequence(pi)) => {
            lemma_reordered_items(c, pi, c.len());
            let out = reorder_items(c, pi, c.len());
            lemma_items_have_tag(c);
            lemma_items_have_tag(out);
            assert forall|i: int| 0 <= i < out.len() implies !has_tag(#[trigger] out[i]) by {
                assert(!has_tag(c[i]));
                if i < pi.len() {
                    assert(decreases_to!(v => c));
                    lemma_reorder_untagged(c[i], pi[i]);
                }
            }
        },
        _ => {
            lemma_reorder_shape(v, p);
        },
    }
}

proof fn lemma_pattern_slot_kept(c: Seq<(YamlView, YamlView)>, out: Seq<(YamlView, YamlView)>, which: PatternKey)
    requires
        related(c, out),
        !(read_pattern_slot(c, which) is Repeated),
    ensures
        !(read_pattern_slot(out, which) is Repeated),
        read_pattern_slot(c, which) is Absent ==> read_pattern_slot(out, which) is Absent,
        read_pattern_slot(c, which) is Value ==> read_pattern_slot(out, which) is Value
            && derived(read_pattern_slot(c, which)->Value_0, read_pattern_slot(out, which)->Value_0),
{
    if out == c {
        if read_pattern_slot(c, which) is Value {
            assert(derived(read_pattern_slot(c, which)->Value_0, read_pattern_slot(out, which)->Value_0));
        }
    } else {
        assert(!pattern_slot_repeated(c, which));
        if pattern_slot_repeated(out, which) {
            let (i, j) = choose|i: int, j: int|
                0 <= i < j < out.len() && pattern_key(out[i].0) == which && pattern_key(out[j].0) == which;
            let a = choose|a: int| 0 <= a < c.len() && c[a].0 == out[i].0 && derived(c[a].1, out[i].1);
            let b = choose|b: int| 0 <= b < c.len() && c[b].0 == out[j].0 && derived(c[b].1, out[j].1);
            assert(out[i].0 != out[j].0);
            if a < b {
                assert(pattern_slot_repeated(c, which));
            } else {
                assert(pattern_slot_repeated(c, which));
            }
        }
        if pattern_slot_absent(c, which) {
            assert forall|i: int| 0 <= i < out.len() implies #[trigger] pattern_key(out[i].0) != which by {
                let a = choose|a: int| 0 <= a < c.len() && c[a].0 == out[i].0 && derived(c[a].1, out[i].1);
                assert(pattern_key(c[a].0) != which);
            }
        } else {
            let s = pattern_slot(c, which);
            assert(pattern_key(c[s].0) == which);
            assert(has_key(out, c[s].0));
            let t = choose|t: int| 0 <= t < out.len() && out[t].0 == c[s].0;
            assert(pattern_key(out[t].0) == which);
            assert(!pattern_slot_absent(out, which));
            let t2 = pattern_slot(out, which);
            if t2 != t {
                if t < t2 {
                    assert(pattern_slot_repeated(out, which));
                } else {
                    assert(pattern_slot_repeated(out, which));
                }
            }
            let a = choose|a: int| 0 <= a < c.len() && c[a].0 == out[t].0 && derived(c[a].1, out[t].1);
            assert(pattern_key(c[a].0) == which);
            if a != s {
                if a < s {
                    assert(pattern_slot_repeated(c, which));
                } else {
                    assert(pattern_slot_repeated(c, which));
                }
            }
        }
    }
}

proof fn lemma_scalar_derived(x: YamlView, y: YamlView)
    requires
        derived(x, y),
        !(x is Mapping) && !(x is Sequence),
    ensures
        y == x,
{
    if y != x {
        let q = choose|q: YamlView| y == reorder(x, q);
        lemma_reorder_shape(x, q);
    }
}

proof fn lemma_pattern_reorder(v: YamlView, p: YamlView)
    requires
        decode_pattern_spec(v) is Some,
    ensures
        decode_pattern_spec(reorder(v, p)) == decode_pattern_spec(v),
{
    lemma_reorder_untagged(v, p);
    match (v, p) {
        (YamlView::Mapping(c), YamlView::Mapping(pe)) => {
            lemma_reordered_entries(c, pe);
            let (rest, ordered) = reorder_fold(c, pe);
            let out = append_all(ordered, rest);
            assert(related(c, out));
            assert forall|i: int| 0 <= i < out.len() implies #[trigger] pattern_key(out[i].0) != PatternKey::Invalid by {
                let a = choose|a: int| 0 <= a < c.len() && c[a].0 == out[i].0 && derived(c[a].1, out[i].1);
                assert(pattern_key(c[a].0) != PatternKey::Invalid);
            }
            lemma_pattern_slot_kept(c, out, PatternKey::Pattern);
            lemma_pattern_slot_kept(c, out, PatternKey::Enable);
            let x = read_pattern_slot(c, PatternKey::Pattern)->Value_0;
            let y = read_pattern_slot(out, PatternKey::Pattern)->Value_0;
            lemma_scalar_derived(x, y);
            if read_pattern_slot(c, PatternKey::Enable) is Value {
                let x2 = read_pattern_slot(c, PatternKey::Enable)->Value_0;
                let y2 = read_pattern_slot(out, PatternKey::Enable)->Value_0;
                lemma_scalar_derived(x2, y2);
            }
        },
        (YamlView::Sequence(c), YamlView::Sequence(pi)) => {
            lemma_reordered_items(c, pi, c.len());
            let out = reorder_items(c, pi, c.len());
            if 0 < pi.len() {
                lemma_reorder_shape(c[0], pi[0]);
            }
            if 1 < pi.len() && 1 < c.len() {
                lemma_reorder_shape(c[1], pi[1]);
            }
        },
        _ => {
            lemma_reorder_shape(v, p);
        },
    }
}

proof fn lemma_respects_pattern()
    ensures
        respects_reorder(|x: YamlView| decode_pattern_spec(x)),
{
    assert forall|x: YamlView, q: YamlView| #![trigger reorder(x, q)] decode_pattern_spec(x) is Some implies
        decode_pattern_spec(reorder(x, q)) == decode_pattern_spec(x) by {
        lemma_pattern_reorder(x, q);
    }
}

proof fn lemma_patterns_reorder(v: YamlView, p: YamlView)
    requires
        decode_patterns_spec(v) is Some,
    ensures
        decode_patterns_spec(reorder(v, p)) == decode_patterns_spec(v),
{
    lemma_seq_items_reorder(v, p);
    lemma_respects_pattern();
    lemma_decode_all_kept(seq_items(v)->0, seq_items(reorder(v, p))->0, |x: YamlView| decode_pattern_spec(x));
}

proof fn lemma_respects_patterns()
    ensures
        respects_reorder(|x: YamlView| decode_patterns_spec(x)),
{
    assert forall|x: YamlView, q: YamlView| #![trigger reorder(x, q)] decode_patterns_spec(x) is Some implies
        decode_patterns_spec(reorder(x, q)) == decode_patterns_spec(x) by {
        lemma_patterns_reorder(x, q);
    }
}

proof fn lemma_prefilter_reorder(v: YamlView, p: YamlView)
    requires
        decode_prefilter_spec(v) is Some,
    ensures
        decode_prefilter_spec(reorder(v, p)) == decode_prefilter_spec(v),
{
    lemma_struct_entries_reorder(v, p);
    lemma_respects_scalars();
    lemma_respects_patterns();
    let c = struct_entries(v)->0;
    let out = struct_entries(reorder(v, p))->0;
    lemma_field_or_kept(c, out, "enable"@, true, |x: YamlView| decode_bool_spec(x));
    lemma_field_or_kept(c, out, "include_url_patterns"@, Seq::<PatternView>::empty(), |x: YamlView| decode_patterns_spec(x));
}

proof fn lemma_respects_prefilter()
    ensures
        respects_reorder(|x: YamlView| decode_prefilter_spec(x)),
{
    assert forall|x: YamlView, q: YamlView| #![trigger reorder(x, q)] decode_prefilter_spec(x) is Some implies
        decode_prefilter_spec(reorder(x, q)) == decode_prefilter_spec(x) by {
        lemma_prefilter_reorder(x, q);
    }
}

proof fn lemma_recording_reorder(v: YamlView, p: YamlView)
    requires
        decode_recording_spec(v) is Some,
    ensures
        decode_recording_spec(reorder(v, p)) == decode_recording_spec(v),
{
    lemma_struct_entries_reorder(v, p);
    lemma_respects_scalars();
    lemma_respects_prefilter();
    let c = struct_entries(v)->0;
    let out = struct_entries(reorder(v, p))->0;
    lemma_field_or_kept(c, out, "start_record_on_launch"@, true, |x: YamlView| decode_bool_spec(x));
    lemma_field_or_kept(c, out, "prefilter"@, default_prefilter(), |x: YamlView| decode_prefilter_spec(x));
}

proof fn lemma_respects_recording()
    ensures
        respects_reorder(|x: YamlView| decode_recording_spec(x)),
{
    assert forall|x: YamlView, q: YamlView| #![trigger reorder(x, q)] decode_recording_spec(x) is Some implies
        decode_recording_spec(reorder(x, q)) == decode_recording_spec(x) by {
        lemma_recording_reorder(x, q);
    }
}

proof fn lemma_server_reorder(v: YamlView, p: YamlView)
    requires
        decode_server_spec(v) is Some,
    ensures
        decode_server_spec(reorder(v, p)) == decode_server_spec(v),
{
    lemma_struct_entries_reorder(v, p);
    lemma_respects_scalars();
    let c = struct_entries(v)->0;
    let out = struct_entries(reorder(v, p))->0;
    lemma_field_or_kept(c, out, "port"@, DEFAULT_PROXY_PORT, |x: YamlView| decode_port_spec(x));
}

proof fn lemma_respects_server()
    ensures
        respects_reorder(|x: YamlView| decode_server_spec(x)),
{
    assert forall|x: YamlView, q: YamlView| #![trigger reorder(x, q)] decode_server_spec(x) is Some implies
        decode_server_spec(reorder(x, q)) == decode_server_spec(x) by {
        lemma_server_reorder(x, q);
    }
}

proof fn lemma_mcp_reorder(v: YamlView, p: YamlView)
    requires
        decode_mcp_spec(v) is Some,
    ensures
        decode_mcp_spec(reorder(v, p)) == decode_mcp_spec(v),
{
    lemma_struct_entries_reorder(v, p);
    lemma_respects_scalars();
    let c = struct_entries(v)->0;
    let out = struct_entries(reorder(v, p))->0;
    lemma_field_or_kept(c, out, "enable"@, false, |x: YamlView| decode_bool_spec(x));
}

proof fn lemma_respects_mcp()
    ensures
        respects_reorder(|x: YamlView| decode_mcp_spec(x)),
{
    assert forall|x: YamlView, q: YamlView| #![trigger reorder(x, q)] decode_mcp_spec(x) is Some implies
        decode_mcp_spec(reorder(x, q)) == decode_mcp_spec(x) by {
        lemma_mcp_reorder(x, q);
    }
}

proof fn lemma_certificate_reorder(v: YamlView, p: YamlView)
    requires
        decode_certificate_spec(v) is Some,
    ensures
        decode_certificate_spec(reorder(v, p)) == decode_certificate_spec(v),
{
    lemma_struct_entries_reorder(v, p);
    lemma_respects_scalars();
    let c = struct_entries(v)->0;
    let out = struct_entries(reorder(v, p))->0;
    lemma_field_or_kept(c, out, "store_dir"@, default_store_dir(), |x: YamlView| decode_text_spec(x));
    lemma_field_or_kept(c, out, "pem_filename"@, default_pem_filename(), |x: YamlView| decode_text_spec(x));
}

proof fn lemma_respects_certificate()
    ensures
        respects_reorder(|x: YamlView| decode_certificate_spec(x)),
{
    assert forall|x: YamlView, q: YamlView| #![trigger reorder(x, q)] decode_certificate_spec(x) is Some implies
        decode_certificate_spec(reorder(x, q)) == decode_certificate_spec(x) by {
        lemma_certificate_reorder(x, q);
    }
}

proof fn lemma_request_list_reorder(v: YamlView, p: YamlView)
    requires
        decode_request_list_spec(v) is Some,
    ensures
        decode_request_list_spec(reorder(v, p)) == decode_request_list_spec(v),
{
    lemma_struct_entries_reorder(v, p);
    lemma_respects_scalars();
    let c = struct_entries(v)->0;
    let out = struct_entries(reorder(v, p))->0;
    lemma_field_or_kept(c, out, "auto_expand"@, false, |x: YamlView| decode_bool_spec(x));
}

proof fn lemma_respects_request_list()
    ensures
        respects_reorder(|x: YamlView| decode_request_list_spec(x)),
{
    assert forall|x: YamlView, q: YamlView| #![trigger reorder(x, q)] decode_request_list_spec(x) is Some implies
        decode_request_list_spec(reorder(x, q)) == decode_request_list_spec(x) by {
        lemma_request_list_reorder(x, q);
    }
}

proof fn lemma_ui_reorder(v: YamlView, p: YamlView)
    requires
        decode_ui_spec(v) is Some,
    ensures
        decode_ui_spec(reorder(v, p)) == decode_ui_spec(v),
{
    lemma_struct_entries_reorder(v, p);
    lemma_respects_request_list();
    let c = struct_entries(v)->0;
    let out = struct_entries(reorder(v, p))->0;
    lemma_field_or_kept(c, out, "request_list"@, RequestListSettings { auto_expand: false }, |x: YamlView| decode_request_list_spec(x));
}

proof fn lemma_respects_ui()
    ensures
        respects_reorder(|x: YamlView| decode_ui_spec(x)),
{
    assert forall|x: YamlView, q: YamlView| #![trigger reorder(x, q)] decode_ui_spec(x) is Some implies
        decode_ui_spec(reorder(x, q)) == decode_ui_spec(x) by {
        lemma_ui_reorder(x, q);
    }
}

proof fn lemma_rule_reorder(v: YamlView, p: YamlView)
    requires
        decode_rule_spec(v) is Some,
    ensures
        decode_rule_spec(reorder(v, p)) == decode_rule_spec(v),
{
    lemma_struct_entries_reorder(v, p);
    lemma_respects_scalars();
    let c = struct_entries(v)->0;
    let out = struct_entries(reorder(v, p))->0;
    lemma_field_or_kept(c, out, "from"@, Seq::<char>::empty(), |x: YamlView| decode_text_spec(x));
    lemma_field_or_kept(c, out, "to"@, Seq::<char>::empty(), |x: YamlView| decode_text_spec(x));
    lemma_field_or_kept(c, out, "enable"@, true, |x: YamlView| decode_bool_spec(x));
}

proof fn lemma_respects_rule()
    ensures
        respects_reorder(|x: YamlView| decode_rule_spec(x)),
{
    assert forall|x: YamlView, q: YamlView| #![trigger reorder(x, q)] decode_rule_spec(x) is Some implies
        decode_rule_spec(reorder(x, q)) == decode_rule_spec(x) by {
        lemma_rule_reorder(x, q);
    }
}

proof fn lemma_rules_reorder(v: YamlView, p: YamlView)
    requires
        decode_seq_spec(v, |y: YamlView| decode_rule_spec(y)) is Some,
    ensures
        decode_seq_spec(reorder(v, p), |y: YamlView| decode_rule_spec(y)) == decode_seq_spec(v, |y: YamlView| decode_rule_spec(y)),
{
    lemma_seq_items_reorder(v, p);
    lemma_respects_rule();
    lemma_decode_all_kept(seq_items(v)->0, seq_items(reorder(v, p))->0, |y: YamlView| decode_rule_spec(y));
}

proof fn lemma_respects_rules()
    ensures
        respects_reorder(|x: YamlView| decode_seq_spec(x, |y: YamlView| decode_rule_spec(y))),
{
    assert forall|x: YamlView, q: YamlView| #![trigger reorder(x, q)] decode_seq_spec(x, |y: YamlView| decode_rule_spec(y)) is Some implies
        decode_seq_spec(reorder(x, q), |y: YamlView| decode_rule_spec(y)) == decode_seq_spec(x, |y: YamlView| decode_rule_spec(y)) by {
        lemma_rules_reorder(x, q);
    }
}

proof fn lemma_table_reorder(v: YamlView, p: YamlView)
    requires
        decode_table_spec(v) is Some,
    ensures
        decode_table_spec(reorder(v, p)) == decode_table_spec(v),
{
    lemma_struct_entries_reorder(v, p);
    lemma_respects_scalars();
    lemma_respects_rules();
    let c = struct_entries(v)->0;
    let out = struct_entries(reorder(v, p))->0;
    lemma_field_or_kept(c, out, "enable"@, true, |x: YamlView| decode_bool_spec(x));
    lemma_field_or_kept(c, out, "rules"@, Seq::<MappingRuleView>::empty(), |x: YamlView| decode_seq_spec(x, |y: YamlView| decode_rule_spec(y)));
}

proof fn lemma_respects_table()
    ensures
        respects_reorder(|x: YamlView| decode_table_spec(x)),
{
    assert forall|x: YamlView, q: YamlView| #![trigger reorder(x, q)] decode_table_spec(x) is Some implies
        decode_table_spec(reorder(x, q)) == decode_table_spec(x) by {
        lemma_table_reorder(x, q);
    }
}

proof fn lemma_preset_reorder(v: YamlView, p: YamlView)
    requires
        decode_preset_spec(v) is Some,
    ensures
        decode_preset_spec(reorder(v, p)) == decode_preset_spec(v),
{
    lemma_struct_entries_reorder(v, p);
    lemma_respects_scalars();
    lemma_respects_table();
    let c = struct_entries(v)->0;
    let out = struct_entries(reorder(v, p))->0;
    lemma_field_or_kept(c, out, "name"@, Seq::<char>::empty(), |x: YamlView| decode_text_spec(x));
    lemma_field_or_kept(c, out, "map_remote"@, default_table(), |x: YamlView| decode_table_spec(x));
    lemma_field_or_kept(c, out, "map_local"@, default_table(), |x: YamlView| decode_table_spec(x));
}

proof fn lemma_respects_preset()
    ensures
        respects_reorder(|x: YamlView| decode_preset_spec(x)),
{
    assert forall|x: YamlView, q: YamlView| #![trigger reorder(x, q)] decode_preset_spec(x) is Some implies
        decode_preset_spec(reorder(x, q)) == decode_preset_spec(x) by {
        lemma_preset_reorder(x, q);
    }
}

proof fn lemma_presets_reorder(v: YamlView, p: YamlView)
    requires
        decode_presets_spec(v) is Some,
    ensures
        decode_presets_spec(reorder(v, p)) == decode_presets_spec(v),
{
    lemma_seq_items_reorder(v, p);
    lemma_respects_preset();
    lemma_decode_all_kept(seq_items(v)->0, seq_items(reorder(v, p))->0, |x: YamlView| decode_preset_spec(x));
}

proof fn lemma_respects_presets()
    ensures
        respects_reorder(|x: YamlView| decode_presets_spec(x)),
{
    assert forall|x: YamlView, q: YamlView| #![trigger reorder(x, q)] decode_presets_spec(x) is Some implies
        decode_presets_spec(reorder(x, q)) == decode_presets_spec(x) by {
        lemma_presets_reorder(x, q);
    }
}

proof fn lemma_proxy_reorder(v: YamlView, p: YamlView)
    requires
        decode_proxy_spec(v) is Some,
    ensures
        decode_proxy_spec(reorder(v, p)) == decode_proxy_spec(v),
{
    lemma_struct_entries_reorder(v, p);
    lemma_respects_scalars();
    lemma_respects_presets();
    let c = struct_entries(v)->0;
    let out = struct_entries(reorder(v, p))->0;
    lemma_field_or_kept(c, out, "enable"@, true, |x: YamlView| decode_bool_spec(x));
    lemma_field_or_kept(c, out, "active_preset"@, None::<Seq<char>>, |x: YamlView| decode_opt_text_spec(x));
    lemma_field_or_kept(c, out, "presets"@, Seq::<PresetView>::empty(), |x: YamlView| decode_presets_spec(x));
}

proof fn lemma_opt_proxy_reorder(v: YamlView, p: YamlView)
    requires
        decode_opt_proxy_spec(v) is Some,
    ensures
        decode_opt_proxy_spec(reorder(v, p)) == decode_opt_proxy_spec(v),
{
    lemma_reorder_shape(v, p);
    if v != YamlView::Null {
        lemma_proxy_reorder(v, p);
    }
}

proof fn lemma_respects_opt_proxy()
    ensures
        respects_reorder(|x: YamlView| decode_opt_proxy_spec(x)),
{
    assert forall|x: YamlView, q: YamlView| #![trigger reorder(x, q)] decode_opt_proxy_spec(x) is Some implies
        decode_opt_proxy_spec(reorder(x, q)) == decode_opt_proxy_spec(x) by {
        lemma_opt_proxy_reorder(x, q);
    }
}

/// Putting the keys of a settings document in another order does not change what it reads as.
pub proof fn lemma_settings_reorder(v: YamlView, p: YamlView)
    requires
        decode_settings_spec(v) is Some,
    ensures
        decode_settings_spec(reorder(v, p)) == decode_settings_spec(v),
{
    lemma_struct_entries_reorder(v, p);
    lemma_respects_server();
    lemma_respects_mcp();
    lemma_respects_certificate();
    lemma_respects_recording();
    lemma_respects_ui();
    lemma_respects_opt_proxy();
    let c = struct_entries(v)->0;
    let out = struct_entries(reorder(v, p))->0;
    lemma_field_or_kept(c, out, "server"@, ServerSettings { port: DEFAULT_PROXY_PORT }, |x: YamlView| decode_server_spec(x));
    lemma_field_or_kept(c, out, "mcp"@, McpSettings { enable: false }, |x: YamlView| decode_mcp_spec(x));
    lemma_field_or_kept(
        c,
        out,
        "certificate"@,
        CertificateView { store_dir: default_store_dir(), pem_filename: default_pem_filename() },
        |x: YamlView| decode_certificate_spec(x),
    );
    lemma_field_or_kept(
        c,
        out,
        "recording"@,
        RecordingView { start_record_on_launch: true, prefilter: default_prefilter() },
        |x: YamlView| decode_recording_spec(x),
    );
    lemma_field_or_kept(c, out, "ui"@, UiSettings { request_list: RequestListSettings { auto_expand: false } }, |x: YamlView| decode_ui_spec(x));
    lemma_field_or_kept(c, out, "proxy"@, None::<crate::settings::model::ProxyView>, |x: YamlView| decode_opt_proxy_spec(x));
}

proof fn lemma_keeping_reads(v: YamlView, missing: Seq<(Seq<crate::settings::preserve::SegmentView>, YamlView)>, s: AppSettingsView)
    requires
        decode_settings_spec(v) == Some(s),
    ensures
        decode_settings_spec(insert_each_keeping(v, missing, s)) == Some(s),
    decreases missing.len(),
{
    if missing.len() > 0 {
        lemma_keeping_reads(v, missing.drop_last(), s);
    }
}

/// The document written for some settings reads back as exactly those settings, whatever
/// the file held before: what is kept of the previous document never changes them.
pub proof fn lemma_document_reads_back(s: AppSettingsView, previous: Option<YamlView>)
    ensures
        decode_settings_spec(settings_document_spec(s, previous)) == Some(s),
{
    lemma_settings_roundtrip(s);
    if let Some(p) = previous {
        let value = encode_settings_spec(s);
        let prev = strip_patterns_spec(p, 0);
        let missing = collect_missing(Some(value), prev, Seq::empty());
        lemma_keeping_reads(value, missing, s);
        let kept = match insert_all(value, missing) {
            Some(b) => if decode_settings_spec(b) == Some(s) {
                b
            } else {
                insert_each_keeping(value, missing, s)
            },
            None => insert_each_keeping(value, missing, s),
        };
        assert(decode_settings_spec(kept) == Some(s));
        lemma_settings_reorder(kept, prev);
        assert(settings_document_spec(s, previous) == reorder(kept, prev));
    }
}

} // verus!
