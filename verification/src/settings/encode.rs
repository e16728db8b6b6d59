use vstd::prelude::*;
use crate::settings::model::{
    AppSettings, AppSettingsView, CertificateSettings, CertificateView, McpSettings, ServerSettings,
    UiSettings, RecordingSettings, RecordingView, RecordingPrefilterSettings, PrefilterView,
    RecordingPrefilterPatternSettings, PatternView, ProxySettings, ProxyView, ProxyPresetSettings,
    PresetView, ProxyMapRemoteSettings, ProxyMapLocalSettings, MappingTableView, ProxyMapRemoteRule,
    ProxyMapLocalRule, MappingRuleView, patterns_view, remote_rules_view, local_rules_view, presets_view,
};
use crate::yaml::{YamlValue, YamlEntry, YamlNumber, YamlView, NumberView, entries_view, items_view};

verus! {

// ---------------------------------------------------------------- building blocks

/// `es` followed by the entry `name: value` when `keep` holds.
pub open spec fn push_if(
    es: Seq<(YamlView, YamlView)>,
    keep: bool,
    name: Seq<char>,
    value: YamlView,
) -> Seq<(YamlView, YamlView)> {
    if keep {
        es.push((YamlView::String(name), value))
    } else {
        es
    }
}

pub proof fn lemma_entries_view_push(es: Seq<YamlEntry>, e: YamlEntry)
    ensures
        entries_view(es.push(e)) == entries_view(es).push((e.key@, e.value@)),
{
    assert(es.push(e).drop_last() =~= es);
}

pub proof fn lemma_items_view_push(items: Seq<YamlValue>, x: YamlValue)
    ensures
        items_view(items.push(x)) == items_view(items).push(x@),
{
    assert(items.push(x).drop_last() =~= items);
}

/// Appends the entry `name: value`.
fn push_entry(es: &mut Vec<YamlEntry>, name: &str, value: YamlValue)
    ensures
        entries_view(final(es)@) == entries_view(old(es)@).push((YamlView::String(name@), value@)),
{
    let key = YamlValue::String(String::from_str(name));
    let e = YamlEntry { key, value };
    proof {
        lemma_entries_view_push(es@, e);
    }
    es.push(e);
}

fn empty_entries() -> (r: Vec<YamlEntry>)
    ensures
        entries_view(r@) == Seq::<(YamlView, YamlView)>::empty(),
{
    Vec::new()
}

// ---------------------------------------------------------------- sections

/// A prefilter pattern is always written in full: `pattern`, then `enable`.
pub open spec fn encode_pattern_spec(p: PatternView) -> YamlView {
    YamlView::Mapping(
        Seq::empty().push((YamlView::String("pattern"@), YamlView::String(p.pattern))).push(
            (YamlView::String("enable"@), YamlView::Bool(p.enable)),
        ),
    )
}

pub fn encode_pattern(p: &RecordingPrefilterPatternSettings) -> (r: YamlValue)
    ensures
        r@ == encode_pattern_spec(p@),
{
    let mut es = empty_entries();
    push_entry(&mut es, "pattern", YamlValue::String(p.pattern.clone()));
    push_entry(&mut es, "enable", YamlValue::Bool(p.enable));
    YamlValue::Mapping(es)
}

pub open spec fn encode_patterns_spec(ps: Seq<PatternView>) -> YamlView {
    YamlView::Sequence(ps.map_values(|p: PatternView| encode_pattern_spec(p)))
}

pub fn encode_patterns(ps: &Vec<RecordingPrefilterPatternSettings>) -> (r: YamlValue)
    ensures
        r@ == encode_patterns_spec(patterns_view(ps@)),
{
    let mut out: Vec<YamlValue> = Vec::new();
    let mut i: usize = 0;
    while i < ps.len()
        invariant
            i <= ps.len(),
            items_view(out@) == patterns_view(ps@).subrange(0, i as int).map_values(
                |p: PatternView| encode_pattern_spec(p),
            ),
        decreases ps.len() - i,
    {
        let x = encode_pattern(&ps[i]);
        proof {
            lemma_items_view_push(out@, x);
            assert(patterns_view(ps@).subrange(0, i + 1).map_values(|p: PatternView| encode_pattern_spec(p))
                =~= patterns_view(ps@).subrange(0, i as int).map_values(|p: PatternView| encode_pattern_spec(p)).push(x@));
        }
        out.push(x);
        i = i + 1;
    }
    assert(patterns_view(ps@).subrange(0, i as int) =~= patterns_view(ps@));
    YamlValue::Sequence(out)
}

/// The prefilter section: a flag that is written only when off, and the patterns, written
/// only when there are some.
pub open spec fn encode_prefilter_spec(p: PrefilterView) -> YamlView {
    YamlView::Mapping(
        push_if(
            push_if(Seq::empty(), !p.enable, "enable"@, YamlView::Bool(p.enable)),
            p.include_url_patterns.len() > 0,
            "include_url_patterns"@,
            encode_patterns_spec(p.include_url_patterns),
        ),
    )
}

pub fn encode_prefilter(p: &RecordingPrefilterSettings) -> (r: YamlValue)
    ensures
        r@ == encode_prefilter_spec(p@),
{
    let mut es = empty_entries();
    if !p.enable {
        push_entry(&mut es, "enable", YamlValue::Bool(p.enable));
    }
    if p.include_url_patterns.len() > 0 {
        push_entry(&mut es, "include_url_patterns", encode_patterns(&p.include_url_patterns));
    }
    YamlValue::Mapping(es)
}

pub open spec fn prefilter_is_default(p: PrefilterView) -> bool {
    p.enable && p.include_url_patterns.len() == 0
}

pub open spec fn encode_recording_spec(r: RecordingView) -> YamlView {
    YamlView::Mapping(
        push_if(
            Seq::empty().push((YamlView::String("start_record_on_launch"@), YamlView::Bool(r.start_record_on_launch))),
            !prefilter_is_default(r.prefilter),
            "prefilter"@,
            encode_prefilter_spec(r.prefilter),
        ),
    )
}

pub fn encode_recording(r: &RecordingSettings) -> (v: YamlValue)
    ensures
        v@ == encode_recording_spec(r@),
{
    let mut es = empty_entries();
    push_entry(&mut es, "start_record_on_launch", YamlValue::Bool(r.start_record_on_launch));
    if !(r.prefilter.enable && r.prefilter.include_url_patterns.len() == 0) {
        push_entry(&mut es, "prefilter", encode_prefilter(&r.prefilter));
    }
    YamlValue::Mapping(es)
}

pub open spec fn encode_server_spec(s: ServerSettings) -> YamlView {
    YamlView::Mapping(Seq::empty().push((YamlView::String("port"@), YamlView::Number(NumberView::PosInt(s.port as u64)))))
}

pub fn encode_server(s: &ServerSettings) -> (r: YamlValue)
    ensures
        r@ == encode_server_spec(*s),
{
    let mut es = empty_entries();
    push_entry(&mut es, "port", YamlValue::Number(YamlNumber::PosInt(s.port as u64)));
    YamlValue::Mapping(es)
}

/// The MCP section holds its flag only when it is on.
pub open spec fn encode_mcp_spec(m: McpSettings) -> YamlView {
    YamlView::Mapping(push_if(Seq::empty(), m.enable, "enable"@, YamlView::Bool(m.enable)))
}

pub fn encode_mcp(m: &McpSettings) -> (r: YamlValue)
    ensures
        r@ == encode_mcp_spec(*m),
{
    let mut es = empty_entries();
    if m.enable {
        push_entry(&mut es, "enable", YamlValue::Bool(m.enable));
    }
    YamlValue::Mapping(es)
}

pub open spec fn encode_certificate_spec(c: CertificateView) -> YamlView {
    YamlView::Mapping(
        Seq::empty().push((YamlView::String("store_dir"@), YamlView::String(c.store_dir))).push(
            (YamlView::String("pem_filename"@), YamlView::String(c.pem_filename)),
        ),
    )
}

pub fn encode_certificate(c: &CertificateSettings) -> (r: YamlValue)
    ensures
        r@ == encode_certificate_spec(c@),
{
    let mut es = empty_entries();
    push_entry(&mut es, "store_dir", YamlValue::String(c.store_dir.clone()));
    push_entry(&mut es, "pem_filename", YamlValue::String(c.pem_filename.clone()));
    YamlValue::Mapping(es)
}

pub open spec fn encode_ui_spec(u: UiSettings) -> YamlView {
    YamlView::Mapping(
        Seq::empty().push(
            (
                YamlView::String("request_list"@),
                YamlView::Mapping(
                    Seq::empty().push(
                        (YamlView::String("auto_expand"@), YamlView::Bool(u.request_list.auto_expand)),
                    ),
                ),
            ),
        ),
    )
}

pub fn encode_ui(u: &UiSettings) -> (r: YamlValue)
    ensures
        r@ == encode_ui_spec(*u),
{
    let mut inner = empty_entries();
    push_entry(&mut inner, "auto_expand", YamlValue::Bool(u.request_list.auto_expand));
    let mut es = empty_entries();
    push_entry(&mut es, "request_list", YamlValue::Mapping(inner));
    YamlValue::Mapping(es)
}

// ---------------------------------------------------------------- proxy mapping

/// A rule: `from` and `to` always, the flag only when it is off.
pub open spec fn encode_rule_spec(r: MappingRuleView) -> YamlView {
    YamlView::Mapping(
        push_if(
            Seq::empty().push((YamlView::String("from"@), YamlView::String(r.from))).push(
                (YamlView::String("to"@), YamlView::String(r.to)),
            ),
            !r.enable,
            "enable"@,
            YamlView::Bool(r.enable),
        ),
    )
}

fn encode_rule_parts(from: &String, to: &String, enable: bool) -> (r: YamlValue)
    ensures
        r@ == encode_rule_spec(MappingRuleView { from: from@, to: to@, enable }),
{
    let mut es = empty_entries();
    push_entry(&mut es, "from", YamlValue::String(from.clone()));
    push_entry(&mut es, "to", YamlValue::String(to.clone()));
    if !enable {
        push_entry(&mut es, "enable", YamlValue::Bool(enable));
    }
    YamlValue::Mapping(es)
}

pub open spec fn encode_rules_spec(rules: Seq<MappingRuleView>) -> YamlView {
    YamlView::Sequence(rules.map_values(|r: MappingRuleView| encode_rule_spec(r)))
}

pub fn encode_remote_rules(rules: &Vec<ProxyMapRemoteRule>) -> (r: YamlValue)
    ensures
        r@ == encode_rules_spec(remote_rules_view(rules@)),
{
    let mut out: Vec<YamlValue> = Vec::new();
    let mut i: usize = 0;
    while i < rules.len()
        invariant
            i <= rules.len(),
            items_view(out@) == remote_rules_view(rules@).subrange(0, i as int).map_values(
                |r: MappingRuleView| encode_rule_spec(r),
            ),
        decreases rules.len() - i,
    {
        let x = encode_rule_parts(&rules[i].from, &rules[i].to, rules[i].enable);
        proof {
            lemma_items_view_push(out@, x);
            assert(remote_rules_view(rules@).subrange(0, i + 1).map_values(|r: MappingRuleView| encode_rule_spec(r))
                =~= remote_rules_view(rules@).subrange(0, i as int).map_values(|r: MappingRuleView| encode_rule_spec(r)).push(x@));
        }
        out.push(x);
        i = i + 1;
    }
    assert(remote_rules_view(rules@).subrange(0, i as int) =~= remote_rules_view(rules@));
    YamlValue::Sequence(out)
}

pub fn encode_local_rules(rules: &Vec<ProxyMapLocalRule>) -> (r: YamlValue)
    ensures
        r@ == encode_rules_spec(local_rules_view(rules@)),
{
    let mut out: Vec<YamlValue> = Vec::new();
    let mut i: usize = 0;
    while i < rules.len()
        invariant
            i <= rules.len(),
            items_view(out@) == local_rules_view(rules@).subrange(0, i as int).map_values(
                |r: MappingRuleView| encode_rule_spec(r),
            ),
        decreases rules.len() - i,
    {
        let x = encode_rule_parts(&rules[i].from, &rules[i].to, rules[i].enable);
        proof {
            lemma_items_view_push(out@, x);
            assert(local_rules_view(rules@).subrange(0, i + 1).map_values(|r: MappingRuleView| encode_rule_spec(r))
                =~= local_rules_view(rules@).subrange(0, i as int).map_values(|r: MappingRuleView| encode_rule_spec(r)).push(x@));
        }
        out.push(x);
        i = i + 1;
    }
    assert(local_rules_view(rules@).subrange(0, i as int) =~= local_rules_view(rules@));
    YamlValue::Sequence(out)
}

pub open spec fn table_is_default(t: MappingTableView) -> bool {
    t.enable && t.rules.len() == 0
}

/// A rule table: the flag only when it is off, the rules only when there are some.
pub open spec fn encode_table_spec(t: MappingTableView) -> YamlView {
    YamlView::Mapping(
        push_if(
            push_if(Seq::empty(), !t.enable, "enable"@, YamlView::Bool(t.enable)),
            t.rules.len() > 0,
            "rules"@,
            encode_rules_spec(t.rules),
        ),
    )
}

pub fn encode_remote_table(t: &ProxyMapRemoteSettings) -> (r: YamlValue)
    ensures
        r@ == encode_table_spec(t@),
{
    let mut es = empty_entries();
    if !t.enable {
        push_entry(&mut es, "enable", YamlValue::Bool(t.enable));
    }
    if t.rules.len() > 0 {
        push_entry(&mut es, "rules", encode_remote_rules(&t.rules));
    }
    YamlValue::Mapping(es)
}

pub fn encode_local_table(t: &ProxyMapLocalSettings) -> (r: YamlValue)
    ensures
        r@ == encode_table_spec(t@),
{
    let mut es = empty_entries();
    if !t.enable {
        push_entry(&mut es, "enable", YamlValue::Bool(t.enable));
    }
    if t.rules.len() > 0 {
        push_entry(&mut es, "rules", encode_local_rules(&t.rules));
    }
    YamlValue::Mapping(es)
}

/// A preset: its name unless empty, and each rule table unless it is the default one.
pub open spec fn encode_preset_spec(p: PresetView) -> YamlView {
    YamlView::Mapping(
        push_if(
            push_if(
                push_if(Seq::empty(), p.name.len() > 0, "name"@, YamlView::String(p.name)),
                !table_is_default(p.map_remote),
                "map_remote"@,
                encode_table_spec(p.map_remote),
            ),
            !table_is_default(p.map_local),
            "map_local"@,
            encode_table_spec(p.map_local),
        ),
    )
}

pub fn encode_preset(p: &ProxyPresetSettings) -> (r: YamlValue)
    ensures
        r@ == encode_preset_spec(p@),
{
    let mut es = empty_entries();
    if p.name.unicode_len() > 0 {
        push_entry(&mut es, "name", YamlValue::String(p.name.clone()));
    }
    if !(p.map_remote.enable && p.map_remote.rules.len() == 0) {
        push_entry(&mut es, "map_remote", encode_remote_table(&p.map_remote));
    }
    if !(p.map_local.enable && p.map_local.rules.len() == 0) {
        push_entry(&mut es, "map_local", encode_local_table(&p.map_local));
    }
    YamlValue::Mapping(es)
}

pub open spec fn encode_presets_spec(ps: Seq<PresetView>) -> YamlView {
    YamlView::Sequence(ps.map_values(|p: PresetView| encode_preset_spec(p)))
}

pub fn encode_presets(ps: &Vec<ProxyPresetSettings>) -> (r: YamlValue)
    ensures
        r@ == encode_presets_spec(presets_view(ps@)),
{
    let mut out: Vec<YamlValue> = Vec::new();
    let mut i: usize = 0;
    while i < ps.len()
        invariant
            i <= ps.len(),
            items_view(out@) == presets_view(ps@).subrange(0, i as int).map_values(
                |p: PresetView| encode_preset_spec(p),
            ),
        decreases ps.len() - i,
    {
        let x = encode_preset(&ps[i]);
        proof {
            lemma_items_view_push(out@, x);
            assert(presets_view(ps@).subrange(0, i + 1).map_values(|p: PresetView| encode_preset_spec(p))
                =~= presets_view(ps@).subrange(0, i as int).map_values(|p: PresetView| encode_preset_spec(p)).push(x@));
        }
        out.push(x);
        i = i + 1;
    }
    assert(presets_view(ps@).subrange(0, i as int) =~= presets_view(ps@));
    YamlValue::Sequence(out)
}

/// The proxy section: the flag only when off, the active preset only when set, the presets
/// only when there are some.
pub open spec fn encode_proxy_spec(p: ProxyView) -> YamlView {
    YamlView::Mapping(
        push_if(
            push_if(
                push_if(Seq::empty(), !p.enable, "enable"@, YamlView::Bool(p.enable)),
                p.active_preset is Some,
                "active_preset"@,
                YamlView::String(p.active_preset->0),
            ),
            p.presets.len() > 0,
            "presets"@,
            encode_presets_spec(p.presets),
        ),
    )
}

pub fn encode_proxy(p: &ProxySettings) -> (r: YamlValue)
    ensures
        r@ == encode_proxy_spec(p@),
{
    let mut es = empty_entries();
    if !p.enable {
        push_entry(&mut es, "enable", YamlValue::Bool(p.enable));
    }
    if let Some(active) = &p.active_preset {
        push_entry(&mut es, "active_preset", YamlValue::String(active.clone()));
    }
    if p.presets.len() > 0 {
        push_entry(&mut es, "presets", encode_presets(&p.presets));
    }
    YamlValue::Mapping(es)
}

/// The document written for `s`: its sections in their fixed order, the MCP section only
/// when it is on and the proxy section only when there is one.
pub open spec fn encode_settings_spec(s: AppSettingsView) -> YamlView {
    YamlView::Mapping(
        push_if(
            push_if(
                Seq::empty().push((YamlView::String("server"@), encode_server_spec(s.server))),
                s.mcp.enable,
                "mcp"@,
                encode_mcp_spec(s.mcp),
            ).push((YamlView::String("certificate"@), encode_certificate_spec(s.certificate))).push(
                (YamlView::String("recording"@), encode_recording_spec(s.recording)),
            ).push((YamlView::String("ui"@), encode_ui_spec(s.ui))),
            s.proxy is Some,
            "proxy"@,
            encode_proxy_spec(s.proxy->0),
        ),
    )
}

/// Writes settings as a document.
pub fn encode_settings(s: &AppSettings) -> (r: YamlValue)
    ensures
        r@ == encode_settings_spec(s@),
{
    let mut es = empty_entries();
    push_entry(&mut es, "server", encode_server(&s.server));
    if s.mcp.enable {
        push_entry(&mut es, "mcp", encode_mcp(&s.mcp));
    }
    push_entry(&mut es, "certificate", encode_certificate(&s.certificate));
    push_entry(&mut es, "recording", encode_recording(&s.recording));
    push_entry(&mut es, "ui", encode_ui(&s.ui));
    if let Some(p) = &s.proxy {
        push_entry(&mut es, "proxy", encode_proxy(p));
    }
    YamlValue::Mapping(es)
}

} // verus!
