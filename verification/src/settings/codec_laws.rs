use vstd::prelude::*;
use crate::settings::decode::{
    names_field, all_keys_named, struct_entries, field_absent, field_repeated, field_slot, FieldRead,
    read_field, decode_all, decode_seq_spec, has_tag, entries_have_tag, PatternKey, pattern_key,
    pattern_slot_absent, pattern_slot_repeated, pattern_slot, pattern_keys_valid, decode_pattern_spec,
    decode_patterns_spec, decode_prefilter_spec, decode_recording_spec, decode_server_spec, decode_mcp_spec,
    decode_certificate_spec, decode_request_list_spec, decode_ui_spec, decode_rule_spec, decode_table_spec,
    decode_preset_spec, decode_presets_spec, decode_proxy_spec, decode_settings_spec,
};
use crate::settings::encode::{
    push_if, encode_pattern_spec, encode_patterns_spec, encode_prefilter_spec, prefilter_is_default,
    encode_recording_spec, encode_server_spec, encode_mcp_spec, encode_certificate_spec, encode_ui_spec,
    encode_rule_spec, encode_rules_spec, table_is_default, encode_table_spec, encode_preset_spec,
    encode_presets_spec, encode_proxy_spec, encode_settings_spec,
};
use crate::settings::model::{
    AppSettingsView, CertificateView, McpSettings, ServerSettings, UiSettings, RecordingView, PrefilterView,
    PatternView, ProxyView, PresetView, MappingTableView, MappingRuleView,
};
use crate::yaml::{YamlView, NumberView};

verus! {

// ---------------------------------------------------------------- reading a field back

proof fn lemma_field_at(es: Seq<(YamlView, YamlView)>, name: Seq<char>, k: int)
    requires
        0 <= k < es.len(),
        names_field(es[k], name),
        forall|j: int| 0 <= j < es.len() && j != k ==> !names_field(#[trigger] es[j], name),
    ensures
        read_field(es, name) == FieldRead::Value(es[k].1),
{
    assert(!field_repeated(es, name));
    assert(!field_absent(es, name));
    assert(field_slot(es, name) == k);
}

proof fn lemma_field_missing(es: Seq<(YamlView, YamlView)>, name: Seq<char>)
    requires
        forall|j: int| 0 <= j < es.len() ==> !names_field(#[trigger] es[j], name),
    ensures
        read_field(es, name) == FieldRead::Absent,
{
}

/// `push_if` keeps a field exactly when asked; this names where it lands.
proof fn lemma_push_if(es: Seq<(YamlView, YamlView)>, keep: bool, name: Seq<char>, value: YamlView)
    ensures
        push_if(es, keep, name, value).len() == es.len() + if keep { 1int } else { 0int },
        forall|j: int| 0 <= j < es.len() ==> #[trigger] push_if(es, keep, name, value)[j] == es[j],
        keep ==> push_if(es, keep, name, value)[es.len() as int] == (YamlView::String(name), value),
{
}

proof fn lemma_reveal_names()
    ensures
        "pattern"@.len() == 7,
        "enable"@.len() == 6,
        "include_url_patterns"@.len() == 20,
        "start_record_on_launch"@.len() == 22,
        "prefilter"@.len() == 9,
        "port"@.len() == 4,
        "store_dir"@.len() == 9,
        "pem_filename"@.len() == 12,
        "request_list"@.len() == 12,
        "auto_expand"@.len() == 11,
        "from"@.len() == 4,
        "to"@.len() == 2,
        "rules"@.len() == 5,
        "name"@.len() == 4,
        "map_remote"@.len() == 10,
        "map_local"@.len() == 9,
        "active_preset"@.len() == 13,
        "presets"@.len() == 7,
        "server"@.len() == 6,
        "mcp"@.len() == 3,
        "certificate"@.len() == 11,
        "recording"@.len() == 9,
        "ui"@.len() == 2,
        "proxy"@.len() == 5,
        "prefilter"@ != "recording"@,
        "store_dir"@ != "recording"@,
        "store_dir"@ != "prefilter"@,
        "request_list"@ != "pem_filename"@,
{
    reveal_strlit("pattern");
    reveal_strlit("enable");
    reveal_strlit("include_url_patterns");
    reveal_strlit("start_record_on_launch");
    reveal_strlit("prefilter");
    reveal_strlit("port");
    reveal_strlit("store_dir");
    reveal_strlit("pem_filename");
    reveal_strlit("request_list");
    reveal_strlit("auto_expand");
    reveal_strlit("from");
    reveal_strlit("to");
    reveal_strlit("rules");
    reveal_strlit("name");
    reveal_strlit("map_remote");
    reveal_strlit("map_local");
    reveal_strlit("active_preset");
    reveal_strlit("presets");
    reveal_strlit("server");
    reveal_strlit("mcp");
    reveal_strlit("certificate");
    reveal_strlit("recording");
    reveal_strlit("ui");
    reveal_strlit("proxy");
    assert("prefilter"@[0] != "recording"@[0]);
    assert("store_dir"@[0] != "recording"@[0]);
    assert("store_dir"@[0] != "prefilter"@[0]);
    assert("request_list"@[0] != "pem_filename"@[0]);
}

// ---------------------------------------------------------------- patterns

proof fn lemma_roundtrip_pattern(p: PatternView)
    ensures
        decode_pattern_spec(encode_pattern_spec(p)) == Some(p),
{
    lemma_reveal_names();
    let es = Seq::empty().push((YamlView::String("pattern"@), YamlView::String(p.pattern))).push(
        (YamlView::String("enable"@), YamlView::Bool(p.enable)),
    );
    assert(encode_pattern_spec(p) == YamlView::Mapping(es));
    assert(es.drop_last().drop_last() =~= Seq::<(YamlView, YamlView)>::empty());
    assert(!entries_have_tag(es.drop_last().drop_last()));
    assert(!has_tag(es.drop_last().last().0) && !has_tag(es.drop_last().last().1));
    assert(!entries_have_tag(es.drop_last()));
    assert(es.last() == (YamlView::String("enable"@), YamlView::Bool(p.enable)));
    assert(!has_tag(es.last().0) && !has_tag(es.last().1));
    assert(!entries_have_tag(es));
    assert(!has_tag(encode_pattern_spec(p)));
    assert(es[1] == (YamlView::String("enable"@), YamlView::Bool(p.enable)));
    assert("enable"@ != "pattern"@);
    assert(pattern_key(es[0].0) == PatternKey::Pattern);
    assert(pattern_key(es[1].0) == PatternKey::Enable);
    assert(pattern_keys_valid(es));
    assert(!pattern_slot_repeated(es, PatternKey::Pattern));
    assert(!pattern_slot_absent(es, PatternKey::Pattern));
    assert(pattern_slot(es, PatternKey::Pattern) == 0);
    assert(!pattern_slot_repeated(es, PatternKey::Enable));
    assert(!pattern_slot_absent(es, PatternKey::Enable));
    assert(pattern_slot(es, PatternKey::Enable) == 1);
}

proof fn lemma_roundtrip_patterns(ps: Seq<PatternView>)
    ensures
        decode_patterns_spec(encode_patterns_spec(ps)) == Some(ps),
{
    let items = ps.map_values(|p: PatternView| encode_pattern_spec(p));
    let dec = |x: YamlView| decode_pattern_spec(x);
    assert forall|i: int| 0 <= i < items.len() implies #[trigger] dec(items[i]) == Some(ps[i]) by {
        lemma_roundtrip_pattern(ps[i]);
    }
    assert(decode_all(items, dec) == Some(ps)) by {
        assert(Seq::new(items.len(), |i: int| dec(items[i])->0) =~= ps);
    }
}

// ---------------------------------------------------------------- sections

proof fn lemma_roundtrip_prefilter(p: PrefilterView)
    ensures
        decode_prefilter_spec(encode_prefilter_spec(p)) == Some(p),
{
    lemma_reveal_names();
    let e0 = push_if(Seq::empty(), !p.enable, "enable"@, YamlView::Bool(p.enable));
    let es = push_if(e0, p.include_url_patterns.len() > 0, "include_url_patterns"@, encode_patterns_spec(p.include_url_patterns));
    lemma_push_if(Seq::empty(), !p.enable, "enable"@, YamlView::Bool(p.enable));
    lemma_push_if(e0, p.include_url_patterns.len() > 0, "include_url_patterns"@, encode_patterns_spec(p.include_url_patterns));
    assert(all_keys_named(es));
    assert(struct_entries(encode_prefilter_spec(p)) == Some(es));
    if p.enable {
        lemma_field_missing(es, "enable"@);
    } else {
        lemma_field_at(es, "enable"@, 0);
    }
    if p.include_url_patterns.len() > 0 {
        lemma_roundtrip_patterns(p.include_url_patterns);
        lemma_field_at(es, "include_url_patterns"@, e0.len() as int);
    } else {
        lemma_field_missing(es, "include_url_patterns"@);
        assert(p.include_url_patterns =~= Seq::<PatternView>::empty());
    }
}

proof fn lemma_roundtrip_recording(r: RecordingView)
    ensures
        decode_recording_spec(encode_recording_spec(r)) == Some(r),
{
    lemma_reveal_names();
    let e0 = Seq::empty().push((YamlView::String("start_record_on_launch"@), YamlView::Bool(r.start_record_on_launch)));
    let es = push_if(e0, !prefilter_is_default(r.prefilter), "prefilter"@, encode_prefilter_spec(r.prefilter));
    lemma_push_if(e0, !prefilter_is_default(r.prefilter), "prefilter"@, encode_prefilter_spec(r.prefilter));
    assert(all_keys_named(es));
    lemma_field_at(es, "start_record_on_launch"@, 0);
    if prefilter_is_default(r.prefilter) {
        lemma_field_missing(es, "prefilter"@);
        assert(r.prefilter.include_url_patterns =~= Seq::<PatternView>::empty());
    } else {
        lemma_roundtrip_prefilter(r.prefilter);
        lemma_field_at(es, "prefilter"@, 1);
    }
}

proof fn lemma_roundtrip_server(s: ServerSettings)
    ensures
        decode_server_spec(encode_server_spec(s)) == Some(s),
{
    lemma_reveal_names();
    let es = Seq::empty().push((YamlView::String("port"@), YamlView::Number(NumberView::PosInt(s.port as u64))));
    assert(all_keys_named(es));
    lemma_field_at(es, "port"@, 0);
}

proof fn lemma_roundtrip_mcp(m: McpSettings)
    ensures
        decode_mcp_spec(encode_mcp_spec(m)) == Some(m),
{
    lemma_reveal_names();
    let es = push_if(Seq::empty(), m.enable, "enable"@, YamlView::Bool(m.enable));
    lemma_push_if(Seq::empty(), m.enable, "enable"@, YamlView::Bool(m.enable));
    assert(all_keys_named(es));
    if m.enable {
        lemma_field_at(es, "enable"@, 0);
    } else {
        lemma_field_missing(es, "enable"@);
    }
}

proof fn lemma_roundtrip_certificate(c: CertificateView)
    ensures
        decode_certificate_spec(encode_certificate_spec(c)) == Some(c),
{
    lemma_reveal_names();
    let es = Seq::empty().push((YamlView::String("store_dir"@), YamlView::String(c.store_dir))).push(
        (YamlView::String("pem_filename"@), YamlView::String(c.pem_filename)),
    );
    assert(all_keys_named(es));
    lemma_field_at(es, "store_dir"@, 0);
    lemma_field_at(es, "pem_filename"@, 1);
}

proof fn lemma_roundtrip_ui(u: UiSettings)
    ensures
        decode_ui_spec(encode_ui_spec(u)) == Some(u),
{
    lemma_reveal_names();
    let inner = Seq::empty().push((YamlView::String("auto_expand"@), YamlView::Bool(u.request_list.auto_expand)));
    assert(all_keys_named(inner));
    lemma_field_at(inner, "auto_expand"@, 0);
    assert(decode_request_list_spec(YamlView::Mapping(inner)) == Some(u.request_list));
    let es = Seq::empty().push((YamlView::String("request_list"@), YamlView::Mapping(inner)));
    assert(all_keys_named(es));
    lemma_field_at(es, "request_list"@, 0);
}

proof fn lemma_roundtrip_rule(r: MappingRuleView)
    ensures
        decode_rule_spec(encode_rule_spec(r)) == Some(r),
{
    lemma_reveal_names();
    let e0 = Seq::empty().push((YamlView::String("from"@), YamlView::String(r.from))).push(
        (YamlView::String("to"@), YamlView::String(r.to)),
    );
    let es = push_if(e0, !r.enable, "enable"@, YamlView::Bool(r.enable));
    lemma_push_if(e0, !r.enable, "enable"@, YamlView::Bool(r.enable));
    assert(all_keys_named(es));
    lemma_field_at(es, "from"@, 0);
    lemma_field_at(es, "to"@, 1);
    if r.enable {
        lemma_field_missing(es, "enable"@);
    } else {
        lemma_field_at(es, "enable"@, 2);
    }
}

proof fn lemma_roundtrip_rules(rules: Seq<MappingRuleView>)
    ensures
        decode_seq_spec(encode_rules_spec(rules), |y: YamlView| decode_rule_spec(y)) == Some(rules),
{
    let items = rules.map_values(|r: MappingRuleView| encode_rule_spec(r));
    let dec = |y: YamlView| decode_rule_spec(y);
    assert forall|i: int| 0 <= i < items.len() implies #[trigger] dec(items[i]) == Some(rules[i]) by {
        lemma_roundtrip_rule(rules[i]);
    }
    assert(decode_all(items, dec) == Some(rules)) by {
        assert(Seq::new(items.len(), |i: int| dec(items[i])->0) =~= rules);
    }
}

proof fn lemma_roundtrip_table(t: MappingTableView)
    ensures
        decode_table_spec(encode_table_spec(t)) == Some(t),
{
    lemma_reveal_names();
    let e0 = push_if(Seq::empty(), !t.enable, "enable"@, YamlView::Bool(t.enable));
    let es = push_if(e0, t.rules.len() > 0, "rules"@, encode_rules_spec(t.rules));
    lemma_push_if(Seq::empty(), !t.enable, "enable"@, YamlView::Bool(t.enable));
    lemma_push_if(e0, t.rules.len() > 0, "rules"@, encode_rules_spec(t.rules));
    assert(all_keys_named(es));
    if t.enable {
        lemma_field_missing(es, "enable"@);
    } else {
        lemma_field_at(es, "enable"@, 0);
    }
    if t.rules.len() > 0 {
        lemma_roundtrip_rules(t.rules);
        lemma_field_at(es, "rules"@, e0.len() as int);
    } else {
        lemma_field_missing(es, "rules"@);
        assert(t.rules =~= Seq::<MappingRuleView>::empty());
    }
}

proof fn lemma_roundtrip_preset(p: PresetView)
    ensures
        decode_preset_spec(encode_preset_spec(p)) == Some(p),
{
    lemma_reveal_names();
    let e0 = push_if(Seq::empty(), p.name.len() > 0, "name"@, YamlView::String(p.name));
    let e1 = push_if(e0, !table_is_default(p.map_remote), "map_remote"@, encode_table_spec(p.map_remote));
    let es = push_if(e1, !table_is_default(p.map_local), "map_local"@, encode_table_spec(p.map_local));
    lemma_push_if(Seq::empty(), p.name.len() > 0, "name"@, YamlView::String(p.name));
    lemma_push_if(e0, !table_is_default(p.map_remote), "map_remote"@, encode_table_spec(p.map_remote));
    lemma_push_if(e1, !table_is_default(p.map_local), "map_local"@, encode_table_spec(p.map_local));
    assert(all_keys_named(es));
    if p.name.len() > 0 {
        lemma_field_at(es, "name"@, 0);
    } else {
        lemma_field_missing(es, "name"@);
        assert(p.name =~= Seq::<char>::empty());
    }
    if table_is_default(p.map_remote) {
        lemma_field_missing(es, "map_remote"@);
        assert(p.map_remote.rules =~= Seq::<MappingRuleView>::empty());
    } else {
        lemma_roundtrip_table(p.map_remote);
        lemma_field_at(es, "map_remote"@, e0.len() as int);
    }
    if table_is_default(p.map_local) {
        lemma_field_missing(es, "map_local"@);
        assert(p.map_local.rules =~= Seq::<MappingRuleView>::empty());
    } else {
        lemma_roundtrip_table(p.map_local);
        lemma_field_at(es, "map_local"@, e1.len() as int);
    }
}

proof fn lemma_roundtrip_presets(ps: Seq<PresetView>)
    ensures
        decode_presets_spec(encode_presets_spec(ps)) == Some(ps),
{
    let items = ps.map_values(|p: PresetView| encode_preset_spec(p));
    let dec = |x: YamlView| decode_preset_spec(x);
    assert forall|i: int| 0 <= i < items.len() implies #[trigger] dec(items[i]) == Some(ps[i]) by {
        lemma_roundtrip_preset(ps[i]);
    }
    assert(decode_all(items, dec) == Some(ps)) by {
        assert(Seq::new(items.len(), |i: int| dec(items[i])->0) =~= ps);
    }
}

proof fn lemma_roundtrip_proxy(p: ProxyView)
    ensures
        decode_proxy_spec(encode_proxy_spec(p)) == Some(p),
{
    lemma_reveal_names();
    let e0 = push_if(Seq::empty(), !p.enable, "enable"@, YamlView::Bool(p.enable));
    let e1 = push_if(e0, p.active_preset is Some, "active_preset"@, YamlView::String(p.active_preset->0));
    let es = push_if(e1, p.presets.len() > 0, "presets"@, encode_presets_spec(p.presets));
    lemma_push_if(Seq::empty(), !p.enable, "enable"@, YamlView::Bool(p.enable));
    lemma_push_if(e0, p.active_preset is Some, "active_preset"@, YamlView::String(p.active_preset->0));
    lemma_push_if(e1, p.presets.len() > 0, "presets"@, encode_presets_spec(p.presets));
    assert(all_keys_named(es));
    if p.enable {
        lemma_field_missing(es, "enable"@);
    } else {
        lemma_field_at(es, "enable"@, 0);
    }
    if p.active_preset is Some {
        lemma_field_at(es, "active_preset"@, e0.len() as int);
    } else {
        lemma_field_missing(es, "active_preset"@);
    }
    if p.presets.len() > 0 {
        lemma_roundtrip_presets(p.presets);
        lemma_field_at(es, "presets"@, e1.len() as int);
    } else {
        lemma_field_missing(es, "presets"@);
        assert(p.presets =~= Seq::<PresetView>::empty());
    }
}

/// Reading back the document written for any settings gives those settings.
pub proof fn lemma_settings_roundtrip(s: AppSettingsView)
    ensures
        decode_settings_spec(encode_settings_spec(s)) == Some(s),
{
    lemma_reveal_names();
    let e0 = Seq::empty().push((YamlView::String("server"@), encode_server_spec(s.server)));
    let e1 = push_if(e0, s.mcp.enable, "mcp"@, encode_mcp_spec(s.mcp));
    let e2 = e1.push((YamlView::String("certificate"@), encode_certificate_spec(s.certificate)));
    let e3 = e2.push((YamlView::String("recording"@), encode_recording_spec(s.recording)));
    let e4 = e3.push((YamlView::String("ui"@), encode_ui_spec(s.ui)));
    let es = push_if(e4, s.proxy is Some, "proxy"@, encode_proxy_spec(s.proxy->0));
    lemma_push_if(e0, s.mcp.enable, "mcp"@, encode_mcp_spec(s.mcp));
    lemma_push_if(e4, s.proxy is Some, "proxy"@, encode_proxy_spec(s.proxy->0));
    assert(all_keys_named(es));
    lemma_roundtrip_server(s.server);
    lemma_roundtrip_mcp(s.mcp);
    lemma_roundtrip_certificate(s.certificate);
    lemma_roundtrip_recording(s.recording);
    lemma_roundtrip_ui(s.ui);
    lemma_field_at(es, "server"@, 0);
    if s.mcp.enable {
        lemma_field_at(es, "mcp"@, 1);
    } else {
        lemma_field_missing(es, "mcp"@);
    }
    lemma_field_at(es, "certificate"@, e1.len() as int);
    lemma_field_at(es, "recording"@, e2.len() as int);
    lemma_field_at(es, "ui"@, e3.len() as int);
    if s.proxy is Some {
        lemma_roundtrip_proxy(s.proxy->0);
        lemma_field_at(es, "proxy"@, e4.len() as int);
    } else {
        lemma_field_missing(es, "proxy"@);
    }
}

} // verus!
