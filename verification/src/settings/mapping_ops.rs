use vstd::prelude::*;
use crate::settings::model::{
    default_preset, default_proxy, opt_string_view, AppSettings, AppSettingsView,
    MappingRuleView, MappingTableView, PresetView, ProxyMapLocalRule, ProxyMapRemoteRule,
    ProxyPresetSettings, ProxySettings, ProxyView, presets_view, remote_rules_view, local_rules_view,
};
use crate::settings::validation::{
    parse_http_url, is_http_url, shown_url, MappingDiagnosticCode, DiagnosticView,
    min_nat, proxy_diagnostics, rule_value_errors, validate_proxy_settings_capped,
    validate_rule_values, diagnostics_view, saturating, DiagnosticSeverity, MappingDiagnostic,
    MappingField, MappingRuleLocation, MappingTable,
};
use crate::text::{bounded_name, bounded_text, decimal, decimal_string, trim, trim_spec};
use vstd::utf8::encode_utf8;

verus! {

/// The most diagnostics a validation result carries.
pub const MAX_MAPPING_DIAGNOSTICS: usize = 256;

#[derive(Clone, Copy, Debug, PartialEq, Eq, Structural)]
pub enum ProxyRuleTable {
    Remote,
    Local,
}

pub open spec fn table_kind(t: ProxyRuleTable) -> MappingTable {
    match t {
        ProxyRuleTable::Remote => MappingTable::Remote,
        ProxyRuleTable::Local => MappingTable::Local,
    }
}

pub open spec fn rule_table(t: MappingTable) -> ProxyRuleTable {
    match t {
        MappingTable::Remote => ProxyRuleTable::Remote,
        MappingTable::Local => ProxyRuleTable::Local,
    }
}

impl ProxyRuleTable {
    /// The validation table of the same kind.
    pub fn to_mapping_table(self) -> (r: MappingTable)
        ensures
            r == table_kind(self),
    {
        match self {
            ProxyRuleTable::Remote => MappingTable::Remote,
            ProxyRuleTable::Local => MappingTable::Local,
        }
    }

    /// The rule table of the same kind.
    pub fn from_mapping_table(table: MappingTable) -> (r: ProxyRuleTable)
        ensures
            r == rule_table(table),
    {
        match table {
            MappingTable::Remote => ProxyRuleTable::Remote,
            MappingTable::Local => ProxyRuleTable::Local,
        }
    }
}

#[derive(Clone, Copy, Debug, PartialEq, Eq, Structural)]
pub enum MappingRuleField {
    From,
    To,
}

pub open spec fn rule_field(f: MappingField) -> MappingRuleField {
    match f {
        MappingField::From => MappingRuleField::From,
        MappingField::To => MappingRuleField::To,
    }
}

impl MappingRuleField {
    /// The rule field of the same kind as a validation field.
    pub fn from_mapping_field(field: MappingField) -> (r: MappingRuleField)
        ensures
            r == rule_field(field),
    {
        match field {
            MappingField::From => MappingRuleField::From,
            MappingField::To => MappingRuleField::To,
        }
    }
}

#[derive(Clone, Copy, Debug, PartialEq, Eq, Structural)]
pub enum MutationEffect {
    Changed,
    Unchanged,
}

#[derive(Clone, Copy, Debug, PartialEq, Eq, Structural)]
pub enum MappingMutationErrorKind {
    ProxyNotFound,
    PresetNotFound,
    DuplicatePresetName,
    RuleNotFound,
    InvalidField,
}

/// The part of the proxy settings that a mutation touched or that an error is about.
#[derive(Debug, PartialEq)]
pub enum MappingObjectRef {
    Proxy,
    ActivePreset,
    Preset { name: String },
    PresetName { name: String },
    Table { preset: String, table: ProxyRuleTable },
    Rule { preset: String, table: ProxyRuleTable, index: usize },
    RuleField { preset: String, table: ProxyRuleTable, index: usize, field: MappingRuleField },
}

pub enum ObjectRefView {
    Proxy,
    ActivePreset,
    Preset { name: Seq<char> },
    PresetName { name: Seq<char> },
    Table { preset: Seq<char>, table: ProxyRuleTable },
    Rule { preset: Seq<char>, table: ProxyRuleTable, index: usize },
    RuleField { preset: Seq<char>, table: ProxyRuleTable, index: usize, field: MappingRuleField },
}

impl View for MappingObjectRef {
    type V = ObjectRefView;

    open spec fn view(&self) -> ObjectRefView {
        match self {
            MappingObjectRef::Proxy => ObjectRefView::Proxy,
            MappingObjectRef::ActivePreset => ObjectRefView::ActivePreset,
            MappingObjectRef::Preset { name } => ObjectRefView::Preset { name: name@ },
            MappingObjectRef::PresetName { name } => ObjectRefView::PresetName { name: name@ },
            MappingObjectRef::Table { preset, table } => ObjectRefView::Table { preset: preset@, table: *table },
            MappingObjectRef::Rule { preset, table, index } => ObjectRefView::Rule { preset: preset@, table: *table, index: *index },
            MappingObjectRef::RuleField { preset, table, index, field } => ObjectRefView::RuleField {
                preset: preset@,
                table: *table,
                index: *index,
                field: *field,
            },
        }
    }
}

impl Clone for MappingObjectRef {
    fn clone(&self) -> (r: Self)
        ensures
            r@ == self@,
    {
        match self {
            MappingObjectRef::Proxy => MappingObjectRef::Proxy,
            MappingObjectRef::ActivePreset => MappingObjectRef::ActivePreset,
            MappingObjectRef::Preset { name } => MappingObjectRef::Preset { name: name.clone() },
            MappingObjectRef::PresetName { name } => MappingObjectRef::PresetName { name: name.clone() },
            MappingObjectRef::Table { preset, table } => MappingObjectRef::Table { preset: preset.clone(), table: *table },
            MappingObjectRef::Rule { preset, table, index } => MappingObjectRef::Rule {
                preset: preset.clone(),
                table: *table,
                index: *index,
            },
            MappingObjectRef::RuleField { preset, table, index, field } => MappingObjectRef::RuleField {
                preset: preset.clone(),
                table: *table,
                index: *index,
                field: *field,
            },
        }
    }
}

#[derive(Debug, PartialEq)]
pub struct MappingMutationResult {
    pub affected: MappingObjectRef,
    pub effect: MutationEffect,
}

pub struct MutationResultView {
    pub affected: ObjectRefView,
    pub effect: MutationEffect,
}

impl View for MappingMutationResult {
    type V = MutationResultView;

    open spec fn view(&self) -> MutationResultView {
        MutationResultView { affected: self.affected@, effect: self.effect }
    }
}

#[derive(Debug, PartialEq)]
pub struct MappingMutationError {
    pub kind: MappingMutationErrorKind,
    pub location: MappingObjectRef,
    pub message: String,
}

pub struct MutationErrorView {
    pub kind: MappingMutationErrorKind,
    pub location: ObjectRefView,
    pub message: Seq<char>,
}

impl View for MappingMutationError {
    type V = MutationErrorView;

    open spec fn view(&self) -> MutationErrorView {
        MutationErrorView { kind: self.kind, location: self.location@, message: self.message@ }
    }
}

impl MappingMutationError {
    /// The error's message, which its `Display` form shows.
    pub fn to_message(&self) -> (r: String)
        ensures
            r@ == self.message@,
    {
        self.message.clone()
    }
}

/// A change of the proxy mapping configuration.
#[derive(Clone, Debug, PartialEq)]
pub enum MappingMutation {
    CreatePreset { name: String, initial: Option<ProxyPresetSettings> },
    RenamePreset { name: String, new_name: String },
    DeletePreset { name: String },
    SetActivePreset { name: Option<String> },
    SetGlobalEnabled { enabled: bool },
    SetTableEnabled { preset: String, table: ProxyRuleTable, enabled: bool },
    AppendRemoteRule { preset: String, rule: ProxyMapRemoteRule },
    InsertRemoteRule { preset: String, index: usize, rule: ProxyMapRemoteRule },
    UpdateRemoteRule { preset: String, index: usize, from: String, to: String },
    AppendLocalRule { preset: String, rule: ProxyMapLocalRule },
    InsertLocalRule { preset: String, index: usize, rule: ProxyMapLocalRule },
    UpdateLocalRule { preset: String, index: usize, from: String, to: String },
    DeleteRule { preset: String, table: ProxyRuleTable, index: usize },
    MoveRule { preset: String, table: ProxyRuleTable, from: usize, to: usize },
    SetRuleEnabled { preset: String, table: ProxyRuleTable, index: usize, enabled: bool },
}

// ---------------------------------------------------------------- the model of a mutation

pub open spec fn empty_name_message() -> Seq<char> {
    "preset name cannot be empty"@
}

pub open spec fn proxy_missing_message() -> Seq<char> {
    "proxy settings do not exist"@
}

pub open spec fn duplicate_name_message() -> Seq<char> {
    "preset name already exists"@
}

pub open spec fn preset_not_found_message(name: Seq<char>) -> Seq<char> {
    "proxy preset '"@ + name + "' was not found"@
}

pub open spec fn rule_not_found_message(index: usize) -> Seq<char> {
    "mapping rule "@ + decimal(index as nat) + " was not found"@
}

pub open spec fn empty_name_error() -> MutationErrorView {
    MutationErrorView {
        kind: MappingMutationErrorKind::InvalidField,
        location: ObjectRefView::PresetName { name: Seq::empty() },
        message: empty_name_message(),
    }
}

pub open spec fn proxy_missing(location: ObjectRefView) -> MutationErrorView {
    MutationErrorView { kind: MappingMutationErrorKind::ProxyNotFound, location, message: proxy_missing_message() }
}

pub open spec fn duplicate_name(name: Seq<char>) -> MutationErrorView {
    MutationErrorView {
        kind: MappingMutationErrorKind::DuplicatePresetName,
        location: ObjectRefView::PresetName { name },
        message: duplicate_name_message(),
    }
}

pub open spec fn preset_not_found(name: Seq<char>) -> MutationErrorView {
    MutationErrorView {
        kind: MappingMutationErrorKind::PresetNotFound,
        location: ObjectRefView::Preset { name },
        message: preset_not_found_message(name),
    }
}

pub open spec fn rule_ref_view(preset: Seq<char>, table: ProxyRuleTable, index: usize) -> ObjectRefView {
    ObjectRefView::Rule { preset, table, index }
}

pub open spec fn rule_not_found_error(preset: Seq<char>, table: ProxyRuleTable, index: usize) -> MutationErrorView {
    MutationErrorView {
        kind: MappingMutationErrorKind::RuleNotFound,
        location: rule_ref_view(preset, table, index),
        message: rule_not_found_message(index),
    }
}

/// A preset name with surrounding white space removed; an empty one is refused.
pub open spec fn normalized(name: Seq<char>) -> Result<Seq<char>, MutationErrorView> {
    let t = trim_spec(name);
    if t.len() == 0 { Err(empty_name_error()) } else { Ok(t) }
}

/// The first of the first `n` presets whose trimmed name is the trimmed `name`.
pub open spec fn find_preset_upto(presets: Seq<PresetView>, name: Seq<char>, n: nat) -> Option<int>
    decreases n,
{
    if n == 0 {
        None
    } else {
        match find_preset_upto(presets, name, (n - 1) as nat) {
            Some(i) => Some(i),
            None => if trim_spec(presets[n - 1].name) == trim_spec(name) { Some(n - 1) } else { None },
        }
    }
}

/// The index of the first preset whose trimmed name is the trimmed `name`.
pub open spec fn find_preset(presets: Seq<PresetView>, name: Seq<char>) -> Option<int> {
    find_preset_upto(presets, name, presets.len())
}

pub open spec fn result_view(affected: ObjectRefView, changed: bool) -> MutationResultView {
    MutationResultView {
        affected,
        effect: if changed { MutationEffect::Changed } else { MutationEffect::Unchanged },
    }
}

pub open spec fn with_proxy(s: AppSettingsView, p: ProxyView) -> AppSettingsView {
    AppSettingsView { proxy: Some(p), ..s }
}

pub open spec fn table_of(preset: PresetView, table: ProxyRuleTable) -> MappingTableView {
    match table {
        ProxyRuleTable::Remote => preset.map_remote,
        ProxyRuleTable::Local => preset.map_local,
    }
}

pub open spec fn with_table(preset: PresetView, table: ProxyRuleTable, t: MappingTableView) -> PresetView {
    match table {
        ProxyRuleTable::Remote => PresetView { map_remote: t, ..preset },
        ProxyRuleTable::Local => PresetView { map_local: t, ..preset },
    }
}

/// The proxy settings with preset `index` replaced.
pub open spec fn with_preset(p: ProxyView, index: int, preset: PresetView) -> ProxyView {
    ProxyView { presets: p.presets.update(index, preset), ..p }
}

/// The proxy settings with the rules of one table of preset `index` replaced.
pub open spec fn with_rules(p: ProxyView, index: int, table: ProxyRuleTable, rules: Seq<MappingRuleView>) -> ProxyView {
    let preset = p.presets[index];
    let t = table_of(preset, table);
    with_preset(p, index, with_table(preset, table, MappingTableView { rules, ..t }))
}

/// The error for the first invalid field of a rule, if any.
pub open spec fn rule_field_error(preset: Seq<char>, table: ProxyRuleTable, index: usize, from: Seq<char>, to: Seq<char>) -> Option<MutationErrorView> {
    let errors = rule_value_errors(table_kind(table), from, to);
    if errors.len() == 0 {
        None
    } else {
        Some(MutationErrorView {
            kind: MappingMutationErrorKind::InvalidField,
            location: ObjectRefView::RuleField { preset, table, index, field: rule_field(errors[0].0) },
            message: errors[0].1,
        })
    }
}

/// The error for the first problem of a preset that is to be created, if any: the preset is
/// validated as the active and only preset of a proxy configuration.
pub open spec fn initial_preset_error(preset: PresetView) -> Option<MutationErrorView> {
    let diagnostics = proxy_diagnostics(ProxyView { enable: true, active_preset: Some(preset.name), presets: seq![preset] });
    if diagnostics.len() == 0 {
        None
    } else {
        let d = diagnostics[0];
        Some(MutationErrorView {
            kind: MappingMutationErrorKind::InvalidField,
            location: match d.location {
                None => ObjectRefView::PresetName { name: preset.name },
                Some(l) => ObjectRefView::RuleField {
                    preset: preset.name,
                    table: rule_table(l.table),
                    index: l.rule_index,
                    field: rule_field(l.field),
                },
            },
            message: d.message,
        })
    }
}

pub type MutationOutcome = Result<(AppSettingsView, MutationResultView), MutationErrorView>;

pub open spec fn create_spec(s: AppSettingsView, name: Seq<char>, initial: Option<PresetView>) -> MutationOutcome {
    match normalized(name) {
        Err(e) => Err(e),
        Ok(n) => if s.proxy is Some && find_preset(s.proxy->0.presets, n) is Some {
            Err(duplicate_name(n))
        } else {
            let base = match initial { Some(p) => p, None => default_preset() };
            let preset = PresetView { name: n, ..base };
            match initial_preset_error(preset) {
                Some(e) => Err(e),
                None => {
                    let p = match s.proxy { Some(p) => p, None => default_proxy() };
                    Ok((with_proxy(s, ProxyView { presets: p.presets.push(preset), ..p }),
                        result_view(ObjectRefView::Preset { name: n }, true)))
                },
            }
        },
    }
}

pub open spec fn rename_spec(s: AppSettingsView, name: Seq<char>, new_name: Seq<char>) -> MutationOutcome {
    match normalized(name) {
        Err(e) => Err(e),
        Ok(n) => match normalized(new_name) {
            Err(e) => Err(e),
            Ok(nn) => match s.proxy {
                None => Err(proxy_missing(ObjectRefView::Preset { name: n })),
                Some(p) => match find_preset(p.presets, n) {
                    None => Err(preset_not_found(n)),
                    Some(idx) => if n != nn && exists|c: int| 0 <= c < p.presets.len() && c != idx
                        && trim_spec(#[trigger] p.presets[c].name) == nn {
                        Err(duplicate_name(nn))
                    } else {
                        let active_matches = match p.active_preset { Some(a) => trim_spec(a) == n, None => false };
                        let changed = p.presets[idx].name != nn || (active_matches && p.active_preset != Some(nn));
                        let q = with_preset(p, idx, PresetView { name: nn, ..p.presets[idx] });
                        let q2 = if active_matches { ProxyView { active_preset: Some(nn), ..q } } else { q };
                        Ok((with_proxy(s, q2), result_view(ObjectRefView::PresetName { name: nn }, changed)))
                    },
                },
            },
        },
    }
}

pub open spec fn delete_preset_spec(s: AppSettingsView, name: Seq<char>) -> MutationOutcome {
    match normalized(name) {
        Err(e) => Err(e),
        Ok(n) => match s.proxy {
            None => Err(proxy_missing(ObjectRefView::Preset { name: n })),
            Some(p) => match find_preset(p.presets, n) {
                None => Err(preset_not_found(n)),
                Some(idx) => {
                    let active_matches = match p.active_preset { Some(a) => trim_spec(a) == n, None => false };
                    let q = ProxyView {
                        presets: p.presets.remove(idx),
                        active_preset: if active_matches { None } else { p.active_preset },
                        ..p
                    };
                    Ok((with_proxy(s, q), result_view(ObjectRefView::Preset { name: n }, true)))
                },
            },
        },
    }
}

pub open spec fn set_active_spec(s: AppSettingsView, name: Option<Seq<char>>) -> MutationOutcome {
    match s.proxy {
        None => Err(proxy_missing(ObjectRefView::ActivePreset)),
        Some(p) => {
            let next: Result<Option<Seq<char>>, MutationErrorView> = match name {
                None => Ok(None),
                Some(nm) => match normalized(nm) {
                    Err(e) => Err(e),
                    Ok(n) => match find_preset(p.presets, n) {
                        None => Err(preset_not_found(n)),
                        Some(_) => Ok(Some(n)),
                    },
                },
            };
            match next {
                Err(e) => Err(e),
                Ok(next) => Ok((with_proxy(s, ProxyView { active_preset: next, ..p }),
                    result_view(ObjectRefView::ActivePreset, p.active_preset != next))),
            }
        },
    }
}

pub open spec fn set_global_spec(s: AppSettingsView, enabled: bool) -> MutationOutcome {
    match s.proxy {
        None => Err(proxy_missing(ObjectRefView::Proxy)),
        Some(p) => Ok((with_proxy(s, ProxyView { enable: enabled, ..p }),
            result_view(ObjectRefView::Proxy, p.enable != enabled))),
    }
}

pub open spec fn set_table_spec(s: AppSettingsView, preset: Seq<char>, table: ProxyRuleTable, enabled: bool) -> MutationOutcome {
    match normalized(preset) {
        Err(e) => Err(e),
        Ok(n) => match s.proxy {
            None => Err(proxy_missing(ObjectRefView::Table { preset: n, table })),
            Some(p) => match find_preset(p.presets, n) {
                None => Err(preset_not_found(n)),
                Some(idx) => {
                    let t = table_of(p.presets[idx], table);
                    let q = with_preset(p, idx, with_table(p.presets[idx], table, MappingTableView { enable: enabled, ..t }));
                    Ok((with_proxy(s, q), result_view(ObjectRefView::Table { preset: n, table }, t.enable != enabled)))
                },
            },
        },
    }
}

pub open spec fn insert_rule_spec(s: AppSettingsView, preset: Seq<char>, table: ProxyRuleTable, index: Option<usize>, rule: MappingRuleView) -> MutationOutcome {
    match normalized(preset) {
        Err(e) => Err(e),
        Ok(n) => match s.proxy {
            None => Err(proxy_missing(ObjectRefView::Table { preset: n, table })),
            Some(p) => match find_preset(p.presets, n) {
                None => Err(preset_not_found(n)),
                Some(pi) => {
                    let rules = table_of(p.presets[pi], table).rules;
                    let idx: usize = match index { Some(i) => i, None => rules.len() as usize };
                    match rule_field_error(n, table, idx, rule.from, rule.to) {
                        Some(e) => Err(e),
                        None => if idx > rules.len() {
                            Err(rule_not_found_error(n, table, idx))
                        } else {
                            Ok((with_proxy(s, with_rules(p, pi, table, rules.insert(idx as int, rule))),
                                result_view(rule_ref_view(n, table, idx), true)))
                        },
                    }
                },
            },
        },
    }
}

pub open spec fn update_rule_spec(s: AppSettingsView, preset: Seq<char>, table: ProxyRuleTable, index: usize, from: Seq<char>, to: Seq<char>) -> MutationOutcome {
    match normalized(preset) {
        Err(e) => Err(e),
        Ok(n) => match rule_field_error(n, table, index, from, to) {
            Some(e) => Err(e),
            None => match s.proxy {
                None => Err(proxy_missing(rule_ref_view(n, table, index))),
                Some(p) => match find_preset(p.presets, n) {
                    None => Err(preset_not_found(n)),
                    Some(pi) => {
                        let rules = table_of(p.presets[pi], table).rules;
                        if index >= rules.len() {
                            Err(rule_not_found_error(n, table, index))
                        } else {
                            let old_rule = rules[index as int];
                            let new_rule = MappingRuleView { from, to, ..old_rule };
                            Ok((with_proxy(s, with_rules(p, pi, table, rules.update(index as int, new_rule))),
                                result_view(rule_ref_view(n, table, index), old_rule.from != from || old_rule.to != to)))
                        }
                    },
                },
            },
        },
    }
}

pub open spec fn delete_rule_spec(s: AppSettingsView, preset: Seq<char>, table: ProxyRuleTable, index: usize) -> MutationOutcome {
    match normalized(preset) {
        Err(e) => Err(e),
        Ok(n) => match s.proxy {
            None => Err(proxy_missing(rule_ref_view(n, table, index))),
            Some(p) => match find_preset(p.presets, n) {
                None => Err(preset_not_found(n)),
                Some(pi) => {
                    let rules = table_of(p.presets[pi], table).rules;
                    if index >= rules.len() {
                        Err(rule_not_found_error(n, table, index))
                    } else {
                        Ok((with_proxy(s, with_rules(p, pi, table, rules.remove(index as int))),
                            result_view(rule_ref_view(n, table, index), true)))
                    }
                },
            },
        },
    }
}

/// `rules` with the rule at `from` moved to position `to`.
pub open spec fn moved<T>(rules: Seq<T>, from: int, to: int) -> Seq<T> {
    if from == to { rules } else { rules.remove(from).insert(to, rules[from]) }
}

pub open spec fn move_rule_spec(s: AppSettingsView, preset: Seq<char>, table: ProxyRuleTable, from: usize, to: usize) -> MutationOutcome {
    match normalized(preset) {
        Err(e) => Err(e),
        Ok(n) => match s.proxy {
            None => Err(proxy_missing(rule_ref_view(n, table, from))),
            Some(p) => match find_preset(p.presets, n) {
                None => Err(preset_not_found(n)),
                Some(pi) => {
                    let rules = table_of(p.presets[pi], table).rules;
                    if from >= rules.len() {
                        Err(rule_not_found_error(n, table, from))
                    } else if to >= rules.len() {
                        Err(rule_not_found_error(n, table, to))
                    } else {
                        Ok((with_proxy(s, with_rules(p, pi, table, moved(rules, from as int, to as int))),
                            result_view(rule_ref_view(n, table, to), from != to)))
                    }
                },
            },
        },
    }
}

pub open spec fn set_rule_enabled_spec(s: AppSettingsView, preset: Seq<char>, table: ProxyRuleTable, index: usize, enabled: bool) -> MutationOutcome {
    match normalized(preset) {
        Err(e) => Err(e),
        Ok(n) => match s.proxy {
            None => Err(proxy_missing(rule_ref_view(n, table, index))),
            Some(p) => match find_preset(p.presets, n) {
                None => Err(preset_not_found(n)),
                Some(pi) => {
                    let rules = table_of(p.presets[pi], table).rules;
                    if index >= rules.len() {
                        Err(rule_not_found_error(n, table, index))
                    } else {
                        let old_rule = rules[index as int];
                        Ok((with_proxy(s, with_rules(p, pi, table, rules.update(index as int, MappingRuleView { enable: enabled, ..old_rule }))),
                            result_view(rule_ref_view(n, table, index), old_rule.enable != enabled)))
                    }
                },
            },
        },
    }
}

pub open spec fn opt_preset_view(p: Option<ProxyPresetSettings>) -> Option<PresetView> {
    match p {
        Some(v) => Some(v@),
        None => None,
    }
}

/// What a mutation makes of the settings `s`: the new settings and what changed, or the
/// error that refuses it.
pub open spec fn mutation_spec(s: AppSettingsView, m: MappingMutation) -> MutationOutcome {
    match m {
        MappingMutation::CreatePreset { name, initial } => create_spec(s, name@, opt_preset_view(initial)),
        MappingMutation::RenamePreset { name, new_name } => rename_spec(s, name@, new_name@),
        MappingMutation::DeletePreset { name } => delete_preset_spec(s, name@),
        MappingMutation::SetActivePreset { name } => set_active_spec(s, opt_string_view(name)),
        MappingMutation::SetGlobalEnabled { enabled } => set_global_spec(s, enabled),
        MappingMutation::SetTableEnabled { preset, table, enabled } => set_table_spec(s, preset@, table, enabled),
        MappingMutation::AppendRemoteRule { preset, rule } => insert_rule_spec(s, preset@, ProxyRuleTable::Remote, None, rule@),
        MappingMutation::InsertRemoteRule { preset, index, rule } => insert_rule_spec(s, preset@, ProxyRuleTable::Remote, Some(index), rule@),
        MappingMutation::UpdateRemoteRule { preset, index, from, to } => update_rule_spec(s, preset@, ProxyRuleTable::Remote, index, from@, to@),
        MappingMutation::AppendLocalRule { preset, rule } => insert_rule_spec(s, preset@, ProxyRuleTable::Local, None, rule@),
        MappingMutation::InsertLocalRule { preset, index, rule } => insert_rule_spec(s, preset@, ProxyRuleTable::Local, Some(index), rule@),
        MappingMutation::UpdateLocalRule { preset, index, from, to } => update_rule_spec(s, preset@, ProxyRuleTable::Local, index, from@, to@),
        MappingMutation::DeleteRule { preset, table, index } => delete_rule_spec(s, preset@, table, index),
        MappingMutation::MoveRule { preset, table, from, to } => move_rule_spec(s, preset@, table, from, to),
        MappingMutation::SetRuleEnabled { preset, table, index, enabled } => set_rule_enabled_spec(s, preset@, table, index, enabled),
    }
}


// ---------------------------------------------------------------- executable mutations

pub type MutationReturn = Result<(AppSettings, MappingMutationResult), MappingMutationError>;

/// Whether an executed mutation gave what the model gives.
pub open spec fn outcome_matches(r: MutationReturn, o: MutationOutcome) -> bool {
    match o {
        Ok((s, res)) => r is Ok && r->Ok_0.0@ == s && r->Ok_0.1@ == res,
        Err(e) => r is Err && r->Err_0@ == e,
    }
}

pub open spec fn opt_index(r: Option<usize>) -> Option<int> {
    match r {
        Some(i) => Some(i as int),
        None => None,
    }
}

pub proof fn lemma_find_extends(presets: Seq<PresetView>, name: Seq<char>, n: nat, m: nat)
    requires
        n <= m,
        find_preset_upto(presets, name, n) is Some,
    ensures
        find_preset_upto(presets, name, m) == find_preset_upto(presets, name, n),
    decreases m - n,
{
    if n < m {
        lemma_find_extends(presets, name, n, (m - 1) as nat);
    }
}

pub proof fn lemma_find_bounds(presets: Seq<PresetView>, name: Seq<char>, n: nat)
    requires
        n <= presets.len(),
    ensures
        find_preset_upto(presets, name, n) matches Some(i) ==> 0 <= i < n
            && trim_spec(presets[i].name) == trim_spec(name),
    decreases n,
{
    if n > 0 {
        lemma_find_bounds(presets, name, (n - 1) as nat);
    }
}

/// The index of the first preset whose trimmed name equals the trimmed `name`.
pub fn find_mapping_preset_index(proxy: &ProxySettings, name: &str) -> (r: Option<usize>)
    ensures
        opt_index(r) == find_preset(proxy@.presets, name@),
        r matches Some(i) ==> i < proxy.presets.len(),
{
    let target = trim(name);
    let ghost presets = proxy@.presets;
    let mut i: usize = 0;
    while i < proxy.presets.len()
        invariant
            i <= proxy.presets.len(),
            presets == proxy@.presets,
            target@ == trim_spec(name@),
            find_preset_upto(presets, name@, i as nat) is None,
        decreases proxy.presets.len() - i,
    {
        let candidate = trim(proxy.presets[i].name.as_str());
        assert(presets[i as int].name == proxy.presets@[i as int].name@);
        if candidate == target {
            proof {
                lemma_find_extends(presets, name@, (i + 1) as nat, presets.len());
            }
            return Some(i);
        }
        i = i + 1;
    }
    None
}

fn mutation_result(affected: MappingObjectRef, changed: bool) -> (r: MappingMutationResult)
    ensures
        r@ == result_view(affected@, changed),
{
    MappingMutationResult {
        affected,
        effect: if changed { MutationEffect::Changed } else { MutationEffect::Unchanged },
    }
}

fn normalized_name(name: &str) -> (r: Result<String, MappingMutationError>)
    ensures
        match normalized(name@) {
            Ok(n) => r is Ok && r->Ok_0@ == n,
            Err(e) => r is Err && r->Err_0@ == e,
        },
{
    let t = trim(name);
    if t.unicode_len() == 0 {
        proof {
            reveal_strlit("preset name cannot be empty");
            assert(t@ =~= Seq::<char>::empty());
        }
        return Err(MappingMutationError {
            kind: MappingMutationErrorKind::InvalidField,
            location: MappingObjectRef::PresetName { name: t },
            message: String::from_str("preset name cannot be empty"),
        });
    }
    Ok(t)
}

fn proxy_missing_error(location: MappingObjectRef) -> (r: MappingMutationError)
    ensures
        r@ == proxy_missing(location@),
{
    proof {
        reveal_strlit("proxy settings do not exist");
    }
    MappingMutationError {
        kind: MappingMutationErrorKind::ProxyNotFound,
        location,
        message: String::from_str("proxy settings do not exist"),
    }
}

fn duplicate_name_error(name: String) -> (r: MappingMutationError)
    ensures
        r@ == duplicate_name(name@),
{
    proof {
        reveal_strlit("preset name already exists");
    }
    MappingMutationError {
        kind: MappingMutationErrorKind::DuplicatePresetName,
        location: MappingObjectRef::PresetName { name },
        message: String::from_str("preset name already exists"),
    }
}

fn preset_not_found_error(name: &String) -> (r: MappingMutationError)
    ensures
        r@ == preset_not_found(name@),
{
    proof {
        reveal_strlit("proxy preset '");
        reveal_strlit("' was not found");
    }
    let mut message = String::from_str("proxy preset '");
    message.append(name.as_str());
    message.append("' was not found");
    MappingMutationError {
        kind: MappingMutationErrorKind::PresetNotFound,
        location: MappingObjectRef::Preset { name: name.clone() },
        message,
    }
}

fn rule_ref(preset: &String, table: ProxyRuleTable, index: usize) -> (r: MappingObjectRef)
    ensures
        r@ == rule_ref_view(preset@, table, index),
{
    MappingObjectRef::Rule { preset: preset.clone(), table, index }
}

fn table_ref(preset: &String, table: ProxyRuleTable) -> (r: MappingObjectRef)
    ensures
        r@ == (ObjectRefView::Table { preset: preset@, table }),
{
    MappingObjectRef::Table { preset: preset.clone(), table }
}

fn rule_not_found(preset: &String, table: ProxyRuleTable, index: usize) -> (r: MappingMutationError)
    ensures
        r@ == rule_not_found_error(preset@, table, index),
{
    proof {
        reveal_strlit("mapping rule ");
        reveal_strlit(" was not found");
    }
    let mut message = String::from_str("mapping rule ");
    let digits = decimal_string(index as u64);
    message.append(digits.as_str());
    message.append(" was not found");
    MappingMutationError {
        kind: MappingMutationErrorKind::RuleNotFound,
        location: rule_ref(preset, table, index),
        message,
    }
}

fn validate_rule_fields(preset: &String, table: ProxyRuleTable, index: usize, from: &str, to: &str) -> (r: Result<(), MappingMutationError>)
    ensures
        match rule_field_error(preset@, table, index, from@, to@) {
            Some(e) => r is Err && r->Err_0@ == e,
            None => r is Ok,
        },
{
    let errors = validate_rule_values(table.to_mapping_table(), from, to);
    proof {
        assert(errors@.map_values(|e: (MappingField, String)| (e.0, e.1@)).len() == errors@.len());
    }
    if errors.len() > 0 {
        let field = errors[0].0;
        proof {
            assert(errors@.map_values(|e: (MappingField, String)| (e.0, e.1@))[0] == (errors@[0].0, errors@[0].1@));
        }
        return Err(MappingMutationError {
            kind: MappingMutationErrorKind::InvalidField,
            location: MappingObjectRef::RuleField {
                preset: preset.clone(),
                table,
                index,
                field: MappingRuleField::from_mapping_field(field),
            },
            message: errors[0].1.clone(),
        });
    }
    Ok(())
}

/// The proxy settings with preset `index` replaced.
fn replace_preset(proxy: ProxySettings, index: usize, preset: ProxyPresetSettings) -> (r: ProxySettings)
    requires
        index < proxy.presets.len(),
    ensures
        r@ == with_preset(proxy@, index as int, preset@),
{
    let ghost pv = preset@;
    let ghost old_presets = proxy.presets@;
    let mut presets = proxy.presets;
    presets.set(index, preset);
    assert(presets_view(presets@) =~= presets_view(old_presets).update(index as int, pv));
    ProxySettings { enable: proxy.enable, active_preset: proxy.active_preset, presets }
}

fn settings_with_proxy(settings: AppSettings, proxy: ProxySettings) -> (r: AppSettings)
    ensures
        r@ == with_proxy(settings@, proxy@),
{
    AppSettings {
        server: settings.server,
        mcp: settings.mcp,
        certificate: settings.certificate,
        recording: settings.recording,
        ui: settings.ui,
        proxy: Some(proxy),
    }
}


fn initial_preset_check(preset: &ProxyPresetSettings) -> (r: Result<(), MappingMutationError>)
    ensures
        match initial_preset_error(preset@) {
            Some(e) => r is Err && r->Err_0@ == e,
            None => r is Ok,
        },
{
    let proxy = ProxySettings {
        enable: true,
        active_preset: Some(preset.name.clone()),
        presets: vec![preset.clone()],
    };
    assert(proxy@.presets =~= seq![preset@]);
    let (diagnostics, _total) = validate_proxy_settings_capped(&proxy, 1);
    let ghost all = proxy_diagnostics(proxy@);
    if diagnostics.len() > 0 {
        let d = &diagnostics[0];
        assert(diagnostics_view(diagnostics@).len() == diagnostics@.len());
        assert(all.take(min_nat(1, all.len()) as int).len() > 0);
        assert(diagnostics_view(diagnostics@)[0] == d@);
        assert(all.take(min_nat(1, all.len()) as int)[0] == all[0]);
        let location = match d.location {
            None => MappingObjectRef::PresetName { name: preset.name.clone() },
            Some(l) => MappingObjectRef::RuleField {
                preset: preset.name.clone(),
                table: ProxyRuleTable::from_mapping_table(l.table),
                index: l.rule_index,
                field: MappingRuleField::from_mapping_field(l.field),
            },
        };
        return Err(MappingMutationError {
            kind: MappingMutationErrorKind::InvalidField,
            location,
            message: d.message.clone(),
        });
    }
    assert(diagnostics_view(diagnostics@).len() == diagnostics@.len());
    assert(all.len() == 0);
    Ok(())
}

fn create_preset(settings: AppSettings, name: String, initial: Option<ProxyPresetSettings>) -> (r: MutationReturn)
    ensures
        outcome_matches(r, create_spec(settings@, name@, opt_preset_view(initial))),
{
    let name = match normalized_name(name.as_str()) {
        Ok(n) => n,
        Err(e) => return Err(e),
    };
    let exists = match &settings.proxy {
        Some(proxy) => find_mapping_preset_index(proxy, name.as_str()).is_some(),
        None => false,
    };
    if exists {
        return Err(duplicate_name_error(name));
    }
    let mut preset = match initial {
        Some(p) => p,
        None => ProxyPresetSettings::default(),
    };
    preset.name = name.clone();
    match initial_preset_check(&preset) {
        Ok(()) => {},
        Err(e) => return Err(e),
    }
    let mut proxy = match settings.proxy {
        Some(p) => p,
        None => ProxySettings::default(),
    };
    let ghost old_presets = proxy.presets@;
    let ghost pv = preset@;
    proxy.presets.push(preset);
    assert(presets_view(proxy.presets@) =~= presets_view(old_presets).push(pv));
    let rebuilt = AppSettings {
        server: settings.server,
        mcp: settings.mcp,
        certificate: settings.certificate,
        recording: settings.recording,
        ui: settings.ui,
        proxy: Some(proxy),
    };
    Ok((rebuilt, mutation_result(MappingObjectRef::Preset { name }, true)))
}

fn trimmed_name_eq(a: &Option<String>, name: &String) -> (r: bool)
    ensures
        r == (match opt_string_view(*a) { Some(v) => trim_spec(v) == name@, None => false }),
{
    match a {
        Some(v) => trim(v.as_str()) == *name,
        None => false,
    }
}

#[verifier::loop_isolation(false)]
fn rename_preset(mut settings: AppSettings, name: String, new_name: String) -> (r: MutationReturn)
    ensures
        outcome_matches(r, rename_spec(settings@, name@, new_name@)),
{
    let name = match normalized_name(name.as_str()) {
        Ok(n) => n,
        Err(e) => return Err(e),
    };
    let new_name = match normalized_name(new_name.as_str()) {
        Ok(n) => n,
        Err(e) => return Err(e),
    };
    let proxy = match settings.proxy.take() {
        Some(p) => p,
        None => return Err(proxy_missing_error(MappingObjectRef::Preset { name })),
    };
    let index = match find_mapping_preset_index(&proxy, name.as_str()) {
        Some(i) => i,
        None => return Err(preset_not_found_error(&name)),
    };
    if !(name == new_name) {
        let mut c: usize = 0;
        while c < proxy.presets.len()
            invariant
                c <= proxy.presets.len(),
                forall|j: int| 0 <= j < c && j != index ==> trim_spec(#[trigger] proxy@.presets[j].name) != new_name@,
            decreases proxy.presets.len() - c,
        {
            assert(proxy@.presets[c as int].name == proxy.presets@[c as int].name@);
            if c != index && trim(proxy.presets[c].name.as_str()) == new_name {
                assert(trim_spec(proxy@.presets[c as int].name) == new_name@);
                return Err(duplicate_name_error(new_name));
            }
            c = c + 1;
        }
    }
    let active_matches = trimmed_name_eq(&proxy.active_preset, &name);
    let active_is_new = match &proxy.active_preset {
        Some(a) => *a == new_name,
        None => false,
    };
    let changed = !(proxy.presets[index].name == new_name) || (active_matches && !active_is_new);
    let mut preset = proxy.presets[index].clone();
    preset.name = new_name.clone();
    let mut proxy = replace_preset(proxy, index, preset);
    if active_matches {
        proxy.active_preset = Some(new_name.clone());
    }
    Ok((settings_with_proxy(settings, proxy), mutation_result(MappingObjectRef::PresetName { name: new_name }, changed)))
}

fn delete_preset(mut settings: AppSettings, name: String) -> (r: MutationReturn)
    ensures
        outcome_matches(r, delete_preset_spec(settings@, name@)),
{
    let name = match normalized_name(name.as_str()) {
        Ok(n) => n,
        Err(e) => return Err(e),
    };
    let mut proxy = match settings.proxy.take() {
        Some(p) => p,
        None => return Err(proxy_missing_error(MappingObjectRef::Preset { name })),
    };
    let index = match find_mapping_preset_index(&proxy, name.as_str()) {
        Some(i) => i,
        None => return Err(preset_not_found_error(&name)),
    };
    let ghost old_presets = proxy.presets@;
    proxy.presets.remove(index);
    assert(presets_view(proxy.presets@) =~= presets_view(old_presets).remove(index as int));
    if trimmed_name_eq(&proxy.active_preset, &name) {
        proxy.active_preset = None;
    }
    Ok((settings_with_proxy(settings, proxy), mutation_result(MappingObjectRef::Preset { name }, true)))
}

fn set_active_preset(mut settings: AppSettings, name: Option<String>) -> (r: MutationReturn)
    ensures
        outcome_matches(r, set_active_spec(settings@, opt_string_view(name))),
{
    let mut proxy = match settings.proxy.take() {
        Some(p) => p,
        None => return Err(proxy_missing_error(MappingObjectRef::ActivePreset)),
    };
    let next = match name {
        Some(requested) => {
            let n = match normalized_name(requested.as_str()) {
                Ok(n) => n,
                Err(e) => return Err(e),
            };
            if find_mapping_preset_index(&proxy, n.as_str()).is_none() {
                return Err(preset_not_found_error(&n));
            }
            Some(n)
        },
        None => None,
    };
    let changed = !crate::settings::model::opt_string_eq(&proxy.active_preset, &next);
    proxy.active_preset = next;
    Ok((settings_with_proxy(settings, proxy), mutation_result(MappingObjectRef::ActivePreset, changed)))
}

fn set_global_enabled(mut settings: AppSettings, enabled: bool) -> (r: MutationReturn)
    ensures
        outcome_matches(r, set_global_spec(settings@, enabled)),
{
    let mut proxy = match settings.proxy.take() {
        Some(p) => p,
        None => return Err(proxy_missing_error(MappingObjectRef::Proxy)),
    };
    let changed = proxy.enable != enabled;
    proxy.enable = enabled;
    Ok((settings_with_proxy(settings, proxy), mutation_result(MappingObjectRef::Proxy, changed)))
}

fn set_table_enabled(mut settings: AppSettings, preset: String, table: ProxyRuleTable, enabled: bool) -> (r: MutationReturn)
    ensures
        outcome_matches(r, set_table_spec(settings@, preset@, table, enabled)),
{
    let name = match normalized_name(preset.as_str()) {
        Ok(n) => n,
        Err(e) => return Err(e),
    };
    let proxy = match settings.proxy.take() {
        Some(p) => p,
        None => return Err(proxy_missing_error(table_ref(&name, table))),
    };
    let index = match find_mapping_preset_index(&proxy, name.as_str()) {
        Some(i) => i,
        None => return Err(preset_not_found_error(&name)),
    };
    let mut entry = proxy.presets[index].clone();
    let changed = match table {
        ProxyRuleTable::Remote => {
            let changed = entry.map_remote.enable != enabled;
            entry.map_remote.enable = enabled;
            changed
        },
        ProxyRuleTable::Local => {
            let changed = entry.map_local.enable != enabled;
            entry.map_local.enable = enabled;
            changed
        },
    };
    let proxy = replace_preset(proxy, index, entry);
    Ok((settings_with_proxy(settings, proxy), mutation_result(table_ref(&name, table), changed)))
}


fn insert_remote_rule(mut settings: AppSettings, preset: String, index: Option<usize>, rule: ProxyMapRemoteRule) -> (r: MutationReturn)
    ensures
        outcome_matches(r, insert_rule_spec(settings@, preset@, ProxyRuleTable::Remote, index, rule@)),
{
    let name = match normalized_name(preset.as_str()) {
        Ok(n) => n,
        Err(e) => return Err(e),
    };
    let proxy = match settings.proxy.take() {
        Some(p) => p,
        None => return Err(proxy_missing_error(table_ref(&name, ProxyRuleTable::Remote))),
    };
    let preset_index = match find_mapping_preset_index(&proxy, name.as_str()) {
        Some(i) => i,
        None => return Err(preset_not_found_error(&name)),
    };
    let len = proxy.presets[preset_index].map_remote.rules.len();
    let index = match index {
        Some(i) => i,
        None => len,
    };
    match validate_rule_fields(&name, ProxyRuleTable::Remote, index, rule.from.as_str(), rule.to.as_str()) {
        Ok(()) => {},
        Err(e) => return Err(e),
    }
    if index > len {
        return Err(rule_not_found(&name, ProxyRuleTable::Remote, index));
    }
    let mut entry = proxy.presets[preset_index].clone();
    let ghost old_rules = entry.map_remote.rules@;
    let ghost rv = rule@;
    entry.map_remote.rules.insert(index, rule);
    assert(remote_rules_view(entry.map_remote.rules@) =~= remote_rules_view(old_rules).insert(index as int, rv));
    let proxy = replace_preset(proxy, preset_index, entry);
    Ok((settings_with_proxy(settings, proxy), mutation_result(rule_ref(&name, ProxyRuleTable::Remote, index), true)))
}

fn update_remote_rule(mut settings: AppSettings, preset: String, index: usize, from: String, to: String) -> (r: MutationReturn)
    ensures
        outcome_matches(r, update_rule_spec(settings@, preset@, ProxyRuleTable::Remote, index, from@, to@)),
{
    let name = match normalized_name(preset.as_str()) {
        Ok(n) => n,
        Err(e) => return Err(e),
    };
    match validate_rule_fields(&name, ProxyRuleTable::Remote, index, from.as_str(), to.as_str()) {
        Ok(()) => {},
        Err(e) => return Err(e),
    }
    let proxy = match settings.proxy.take() {
        Some(p) => p,
        None => return Err(proxy_missing_error(rule_ref(&name, ProxyRuleTable::Remote, index))),
    };
    let preset_index = match find_mapping_preset_index(&proxy, name.as_str()) {
        Some(i) => i,
        None => return Err(preset_not_found_error(&name)),
    };
    if index >= proxy.presets[preset_index].map_remote.rules.len() {
        return Err(rule_not_found(&name, ProxyRuleTable::Remote, index));
    }
    let mut entry = proxy.presets[preset_index].clone();
    let mut updated = entry.map_remote.rules[index].clone();
    let changed = !(updated.from == from) || !(updated.to == to);
    updated.from = from;
    updated.to = to;
    let ghost old_rules = entry.map_remote.rules@;
    let ghost uv = updated@;
    entry.map_remote.rules.set(index, updated);
    assert(remote_rules_view(entry.map_remote.rules@) =~= remote_rules_view(old_rules).update(index as int, uv));
    let proxy = replace_preset(proxy, preset_index, entry);
    Ok((settings_with_proxy(settings, proxy), mutation_result(rule_ref(&name, ProxyRuleTable::Remote, index), changed)))
}

fn insert_local_rule(mut settings: AppSettings, preset: String, index: Option<usize>, rule: ProxyMapLocalRule) -> (r: MutationReturn)
    ensures
        outcome_matches(r, insert_rule_spec(settings@, preset@, ProxyRuleTable::Local, index, rule@)),
{
    let name = match normalized_name(preset.as_str()) {
        Ok(n) => n,
        Err(e) => return Err(e),
    };
    let proxy = match settings.proxy.take() {
        Some(p) => p,
        None => return Err(proxy_missing_error(table_ref(&name, ProxyRuleTable::Local))),
    };
    let preset_index = match find_mapping_preset_index(&proxy, name.as_str()) {
        Some(i) => i,
        None => return Err(preset_not_found_error(&name)),
    };
    let len = proxy.presets[preset_index].map_local.rules.len();
    let index = match index {
        Some(i) => i,
        None => len,
    };
    match validate_rule_fields(&name, ProxyRuleTable::Local, index, rule.from.as_str(), rule.to.as_str()) {
        Ok(()) => {},
        Err(e) => return Err(e),
    }
    if index > len {
        return Err(rule_not_found(&name, ProxyRuleTable::Local, index));
    }
    let mut entry = proxy.presets[preset_index].clone();
    let ghost old_rules = entry.map_local.rules@;
    let ghost rv = rule@;
    entry.map_local.rules.insert(index, rule);
    assert(local_rules_view(entry.map_local.rules@) =~= local_rules_view(old_rules).insert(index as int, rv));
    let proxy = replace_preset(proxy, preset_index, entry);
    Ok((settings_with_proxy(settings, proxy), mutation_result(rule_ref(&name, ProxyRuleTable::Local, index), true)))
}

fn update_local_rule(mut settings: AppSettings, preset: String, index: usize, from: String, to: String) -> (r: MutationReturn)
    ensures
        outcome_matches(r, update_rule_spec(settings@, preset@, ProxyRuleTable::Local, index, from@, to@)),
{
    let name = match normalized_name(preset.as_str()) {
        Ok(n) => n,
        Err(e) => return Err(e),
    };
    match validate_rule_fields(&name, ProxyRuleTable::Local, index, from.as_str(), to.as_str()) {
        Ok(()) => {},
        Err(e) => return Err(e),
    }
    let proxy = match settings.proxy.take() {
        Some(p) => p,
        None => return Err(proxy_missing_error(rule_ref(&name, ProxyRuleTable::Local, index))),
    };
    let preset_index = match find_mapping_preset_index(&proxy, name.as_str()) {
        Some(i) => i,
        None => return Err(preset_not_found_error(&name)),
    };
    if index >= proxy.presets[preset_index].map_local.rules.len() {
        return Err(rule_not_found(&name, ProxyRuleTable::Local, index));
    }
    let mut entry = proxy.presets[preset_index].clone();
    let mut updated = entry.map_local.rules[index].clone();
    let changed = !(updated.from == from) || !(updated.to == to);
    updated.from = from;
    updated.to = to;
    let ghost old_rules = entry.map_local.rules@;
    let ghost uv = updated@;
    entry.map_local.rules.set(index, updated);
    assert(local_rules_view(entry.map_local.rules@) =~= local_rules_view(old_rules).update(index as int, uv));
    let proxy = replace_preset(proxy, preset_index, entry);
    Ok((settings_with_proxy(settings, proxy), mutation_result(rule_ref(&name, ProxyRuleTable::Local, index), changed)))
}

/// `rules` with the rule at `from` moved to position `to`; a position past the rules is
/// refused, the source first, and leaves them as they were.
fn move_item<T>(rules: &mut Vec<T>, preset: &String, table: ProxyRuleTable, from: usize, to: usize) -> (r: Result<
    (),
    MappingMutationError,
>)
    ensures
        match r {
            Ok(()) => from < old(rules).len() && to < old(rules).len() && final(rules)@ == moved(
                old(rules)@,
                from as int,
                to as int,
            ),
            Err(e) => {
                &&& final(rules)@ == old(rules)@
                &&& e@ == if from >= old(rules).len() {
                    rule_not_found_error(preset@, table, from)
                } else {
                    rule_not_found_error(preset@, table, to)
                }
                &&& (from >= old(rules).len() || to >= old(rules).len())
            },
        },
{
    if from >= rules.len() {
        return Err(rule_not_found(preset, table, from));
    }
    if to >= rules.len() {
        return Err(rule_not_found(preset, table, to));
    }
    if from != to {
        let rule = rules.remove(from);
        rules.insert(to, rule);
    }
    Ok(())
}

fn delete_rule(mut settings: AppSettings, preset: String, table: ProxyRuleTable, index: usize) -> (r: MutationReturn)
    ensures
        outcome_matches(r, delete_rule_spec(settings@, preset@, table, index)),
{
    let name = match normalized_name(preset.as_str()) {
        Ok(n) => n,
        Err(e) => return Err(e),
    };
    let proxy = match settings.proxy.take() {
        Some(p) => p,
        None => return Err(proxy_missing_error(rule_ref(&name, table, index))),
    };
    let preset_index = match find_mapping_preset_index(&proxy, name.as_str()) {
        Some(i) => i,
        None => return Err(preset_not_found_error(&name)),
    };
    let mut entry = proxy.presets[preset_index].clone();
    match table {
        ProxyRuleTable::Remote => {
            if index >= entry.map_remote.rules.len() {
                return Err(rule_not_found(&name, table, index));
            }
            let ghost old_rules = entry.map_remote.rules@;
            entry.map_remote.rules.remove(index);
            assert(remote_rules_view(entry.map_remote.rules@) =~= remote_rules_view(old_rules).remove(index as int));
        },
        ProxyRuleTable::Local => {
            if index >= entry.map_local.rules.len() {
                return Err(rule_not_found(&name, table, index));
            }
            let ghost old_rules = entry.map_local.rules@;
            entry.map_local.rules.remove(index);
            assert(local_rules_view(entry.map_local.rules@) =~= local_rules_view(old_rules).remove(index as int));
        },
    }
    let proxy = replace_preset(proxy, preset_index, entry);
    Ok((settings_with_proxy(settings, proxy), mutation_result(rule_ref(&name, table, index), true)))
}

fn move_rule(mut settings: AppSettings, preset: String, table: ProxyRuleTable, from: usize, to: usize) -> (r: MutationReturn)
    ensures
        outcome_matches(r, move_rule_spec(settings@, preset@, table, from, to)),
{
    let name = match normalized_name(preset.as_str()) {
        Ok(n) => n,
        Err(e) => return Err(e),
    };
    let proxy = match settings.proxy.take() {
        Some(p) => p,
        None => return Err(proxy_missing_error(rule_ref(&name, table, from))),
    };
    let preset_index = match find_mapping_preset_index(&proxy, name.as_str()) {
        Some(i) => i,
        None => return Err(preset_not_found_error(&name)),
    };
    let mut entry = proxy.presets[preset_index].clone();
    match table {
        ProxyRuleTable::Remote => {
            let ghost old_rules = entry.map_remote.rules@;
            if let Err(e) = move_item(&mut entry.map_remote.rules, &name, table, from, to) {
                return Err(e);
            }
            assert(remote_rules_view(entry.map_remote.rules@)
                =~= moved(remote_rules_view(old_rules), from as int, to as int));
        },
        ProxyRuleTable::Local => {
            let ghost old_rules = entry.map_local.rules@;
            if let Err(e) = move_item(&mut entry.map_local.rules, &name, table, from, to) {
                return Err(e);
            }
            assert(local_rules_view(entry.map_local.rules@)
                =~= moved(local_rules_view(old_rules), from as int, to as int));
        },
    }
    let proxy = replace_preset(proxy, preset_index, entry);
    Ok((settings_with_proxy(settings, proxy), mutation_result(rule_ref(&name, table, to), from != to)))
}

fn set_rule_enabled(mut settings: AppSettings, preset: String, table: ProxyRuleTable, index: usize, enabled: bool) -> (r: MutationReturn)
    ensures
        outcome_matches(r, set_rule_enabled_spec(settings@, preset@, table, index, enabled)),
{
    let name = match normalized_name(preset.as_str()) {
        Ok(n) => n,
        Err(e) => return Err(e),
    };
    let proxy = match settings.proxy.take() {
        Some(p) => p,
        None => return Err(proxy_missing_error(rule_ref(&name, table, index))),
    };
    let preset_index = match find_mapping_preset_index(&proxy, name.as_str()) {
        Some(i) => i,
        None => return Err(preset_not_found_error(&name)),
    };
    let mut entry = proxy.presets[preset_index].clone();
    let changed = match table {
        ProxyRuleTable::Remote => {
            if index >= entry.map_remote.rules.len() {
                return Err(rule_not_found(&name, table, index));
            }
            let mut rule = entry.map_remote.rules[index].clone();
            let changed = rule.enable != enabled;
            rule.enable = enabled;
            let ghost old_rules = entry.map_remote.rules@;
            let ghost nv = rule@;
            entry.map_remote.rules.set(index, rule);
            assert(remote_rules_view(entry.map_remote.rules@) =~= remote_rules_view(old_rules).update(index as int, nv));
            changed
        },
        ProxyRuleTable::Local => {
            if index >= entry.map_local.rules.len() {
                return Err(rule_not_found(&name, table, index));
            }
            let mut rule = entry.map_local.rules[index].clone();
            let changed = rule.enable != enabled;
            rule.enable = enabled;
            let ghost old_rules = entry.map_local.rules@;
            let ghost nv = rule@;
            entry.map_local.rules.set(index, rule);
            assert(local_rules_view(entry.map_local.rules@) =~= local_rules_view(old_rules).update(index as int, nv));
            changed
        },
    };
    let proxy = replace_preset(proxy, preset_index, entry);
    Ok((settings_with_proxy(settings, proxy), mutation_result(rule_ref(&name, table, index), changed)))
}

/// Applies a mutation to a candidate copy of the settings.
fn apply_to_candidate(settings: AppSettings, mutation: MappingMutation) -> (r: MutationReturn)
    ensures
        outcome_matches(r, mutation_spec(settings@, mutation)),
{
    match mutation {
        MappingMutation::CreatePreset { name, initial } => create_preset(settings, name, initial),
        MappingMutation::RenamePreset { name, new_name } => rename_preset(settings, name, new_name),
        MappingMutation::DeletePreset { name } => delete_preset(settings, name),
        MappingMutation::SetActivePreset { name } => set_active_preset(settings, name),
        MappingMutation::SetGlobalEnabled { enabled } => set_global_enabled(settings, enabled),
        MappingMutation::SetTableEnabled { preset, table, enabled } => set_table_enabled(settings, preset, table, enabled),
        MappingMutation::AppendRemoteRule { preset, rule } => insert_remote_rule(settings, preset, None, rule),
        MappingMutation::InsertRemoteRule { preset, index, rule } => insert_remote_rule(settings, preset, Some(index), rule),
        MappingMutation::UpdateRemoteRule { preset, index, from, to } => update_remote_rule(settings, preset, index, from, to),
        MappingMutation::AppendLocalRule { preset, rule } => insert_local_rule(settings, preset, None, rule),
        MappingMutation::InsertLocalRule { preset, index, rule } => insert_local_rule(settings, preset, Some(index), rule),
        MappingMutation::UpdateLocalRule { preset, index, from, to } => update_local_rule(settings, preset, index, from, to),
        MappingMutation::DeleteRule { preset, table, index } => delete_rule(settings, preset, table, index),
        MappingMutation::MoveRule { preset, table, from, to } => move_rule(settings, preset, table, from, to),
        MappingMutation::SetRuleEnabled { preset, table, index, enabled } => set_rule_enabled(settings, preset, table, index, enabled),
    }
}

/// Applies a mutation to the settings. On an error, or when nothing changes, the settings
/// stay as they were.
pub fn apply_mapping_mutation(settings: &mut AppSettings, mutation: MappingMutation) -> (r: Result<MappingMutationResult, MappingMutationError>)
    ensures
        match mutation_spec(old(settings)@, mutation) {
            Ok((s, res)) => r is Ok && r->Ok_0@ == res
                && final(settings)@ == (if res.effect == MutationEffect::Changed { s } else { old(settings)@ }),
            Err(e) => r is Err && r->Err_0@ == e && final(settings)@ == old(settings)@,
        },
{
    let candidate = settings.clone();
    match apply_to_candidate(candidate, mutation) {
        Ok((next, result)) => {
            if result.effect == MutationEffect::Changed {
                *settings = next;
            }
            Ok(result)
        },
        Err(e) => Err(e),
    }
}

/// Applies a mutation to owned settings and returns the resulting settings.
pub fn apply_mapping_mutation_owned(settings: AppSettings, mutation: MappingMutation) -> (r: Result<(AppSettings, MappingMutationResult), MappingMutationError>)
    ensures
        outcome_matches(r, mutation_spec(settings@, mutation)),
{
    apply_to_candidate(settings, mutation)
}


// ---------------------------------------------------------------- audit targets

/// A copy of `value` of at most `maximum_bytes` bytes, and whether it was cut.
pub fn bounded_mapping_name(value: &str, maximum_bytes: usize) -> (r: (String, bool))
    ensures
        r.0@ == bounded_text(value@, maximum_bytes as nat),
        r.1 == (encode_utf8(value@).len() > maximum_bytes),
        !r.1 ==> r.0@ == value@,
{
    bounded_name(value, maximum_bytes)
}

pub open spec fn cut(name: Seq<char>, max: usize) -> bool {
    encode_utf8(name).len() > max
}

/// The object a mutation is about, with its preset name bounded for an audit record, and
/// whether that name was cut.
pub open spec fn audit_target_spec(m: MappingMutation, max: usize) -> (ObjectRefView, bool) {
    let b = |n: Seq<char>| bounded_text(n, max as nat);
    match m {
        MappingMutation::CreatePreset { name, .. } => (ObjectRefView::Preset { name: b(name@) }, cut(name@, max)),
        MappingMutation::RenamePreset { name, .. } => (ObjectRefView::Preset { name: b(name@) }, cut(name@, max)),
        MappingMutation::DeletePreset { name } => (ObjectRefView::Preset { name: b(name@) }, cut(name@, max)),
        MappingMutation::SetActivePreset { .. } => (ObjectRefView::ActivePreset, false),
        MappingMutation::SetGlobalEnabled { .. } => (ObjectRefView::Proxy, false),
        MappingMutation::SetTableEnabled { preset, table, .. } =>
            (ObjectRefView::Table { preset: b(preset@), table }, cut(preset@, max)),
        MappingMutation::AppendRemoteRule { preset, .. } =>
            (ObjectRefView::Table { preset: b(preset@), table: ProxyRuleTable::Remote }, cut(preset@, max)),
        MappingMutation::AppendLocalRule { preset, .. } =>
            (ObjectRefView::Table { preset: b(preset@), table: ProxyRuleTable::Local }, cut(preset@, max)),
        MappingMutation::InsertRemoteRule { preset, index, .. } =>
            (ObjectRefView::Rule { preset: b(preset@), table: ProxyRuleTable::Remote, index }, cut(preset@, max)),
        MappingMutation::UpdateRemoteRule { preset, index, .. } =>
            (ObjectRefView::Rule { preset: b(preset@), table: ProxyRuleTable::Remote, index }, cut(preset@, max)),
        MappingMutation::InsertLocalRule { preset, index, .. } =>
            (ObjectRefView::Rule { preset: b(preset@), table: ProxyRuleTable::Local, index }, cut(preset@, max)),
        MappingMutation::UpdateLocalRule { preset, index, .. } =>
            (ObjectRefView::Rule { preset: b(preset@), table: ProxyRuleTable::Local, index }, cut(preset@, max)),
        MappingMutation::DeleteRule { preset, table, index } =>
            (ObjectRefView::Rule { preset: b(preset@), table, index }, cut(preset@, max)),
        MappingMutation::SetRuleEnabled { preset, table, index, .. } =>
            (ObjectRefView::Rule { preset: b(preset@), table, index }, cut(preset@, max)),
        MappingMutation::MoveRule { preset, table, from, .. } =>
            (ObjectRefView::Rule { preset: b(preset@), table, index: from }, cut(preset@, max)),
    }
}

impl MappingMutation {
    /// The object this mutation is about, for an audit record whose names are bounded to
    /// `maximum_name_bytes`; and whether a name was cut.
    pub fn audit_target_bounded(&self, maximum_name_bytes: usize) -> (r: (MappingObjectRef, bool))
        ensures
            (r.0@, r.1) == audit_target_spec(*self, maximum_name_bytes),
    {
        match self {
            MappingMutation::CreatePreset { name, .. }
            | MappingMutation::RenamePreset { name, .. }
            | MappingMutation::DeletePreset { name } => {
                let (name, truncated) = bounded_mapping_name(name.as_str(), maximum_name_bytes);
                (MappingObjectRef::Preset { name }, truncated)
            },
            MappingMutation::SetActivePreset { .. } => (MappingObjectRef::ActivePreset, false),
            MappingMutation::SetGlobalEnabled { .. } => (MappingObjectRef::Proxy, false),
            MappingMutation::SetTableEnabled { preset, table, .. } => {
                let (preset, truncated) = bounded_mapping_name(preset.as_str(), maximum_name_bytes);
                (MappingObjectRef::Table { preset, table: *table }, truncated)
            },
            MappingMutation::AppendRemoteRule { preset, .. } => {
                let (preset, truncated) = bounded_mapping_name(preset.as_str(), maximum_name_bytes);
                (MappingObjectRef::Table { preset, table: ProxyRuleTable::Remote }, truncated)
            },
            MappingMutation::AppendLocalRule { preset, .. } => {
                let (preset, truncated) = bounded_mapping_name(preset.as_str(), maximum_name_bytes);
                (MappingObjectRef::Table { preset, table: ProxyRuleTable::Local }, truncated)
            },
            MappingMutation::InsertRemoteRule { preset, index, .. }
            | MappingMutation::UpdateRemoteRule { preset, index, .. } => {
                let (preset, truncated) = bounded_mapping_name(preset.as_str(), maximum_name_bytes);
                (MappingObjectRef::Rule { preset, table: ProxyRuleTable::Remote, index: *index }, truncated)
            },
            MappingMutation::InsertLocalRule { preset, index, .. }
            | MappingMutation::UpdateLocalRule { preset, index, .. } => {
                let (preset, truncated) = bounded_mapping_name(preset.as_str(), maximum_name_bytes);
                (MappingObjectRef::Rule { preset, table: ProxyRuleTable::Local, index: *index }, truncated)
            },
            MappingMutation::DeleteRule { preset, table, index }
            | MappingMutation::SetRuleEnabled { preset, table, index, .. } => {
                let (preset, truncated) = bounded_mapping_name(preset.as_str(), maximum_name_bytes);
                (MappingObjectRef::Rule { preset, table: *table, index: *index }, truncated)
            },
            MappingMutation::MoveRule { preset, table, from, .. } => {
                let (preset, truncated) = bounded_mapping_name(preset.as_str(), maximum_name_bytes);
                (MappingObjectRef::Rule { preset, table: *table, index: *from }, truncated)
            },
        }
    }
}

/// A copy of an object reference with its name bounded, and whether the name was cut.
pub open spec fn bounded_ref_spec(r: ObjectRefView, max: usize) -> (ObjectRefView, bool) {
    let b = |n: Seq<char>| bounded_text(n, max as nat);
    match r {
        ObjectRefView::Proxy => (ObjectRefView::Proxy, false),
        ObjectRefView::ActivePreset => (ObjectRefView::ActivePreset, false),
        ObjectRefView::Preset { name } => (ObjectRefView::Preset { name: b(name) }, cut(name, max)),
        ObjectRefView::PresetName { name } => (ObjectRefView::PresetName { name: b(name) }, cut(name, max)),
        ObjectRefView::Table { preset, table } => (ObjectRefView::Table { preset: b(preset), table }, cut(preset, max)),
        ObjectRefView::Rule { preset, table, index } =>
            (ObjectRefView::Rule { preset: b(preset), table, index }, cut(preset, max)),
        ObjectRefView::RuleField { preset, table, index, field } =>
            (ObjectRefView::RuleField { preset: b(preset), table, index, field }, cut(preset, max)),
    }
}

impl MappingObjectRef {
    /// A copy with its name bounded to `maximum_name_bytes`, and whether the name was cut.
    pub fn bounded_clone(&self, maximum_name_bytes: usize) -> (r: (Self, bool))
        ensures
            (r.0@, r.1) == bounded_ref_spec(self@, maximum_name_bytes),
    {
        match self {
            MappingObjectRef::Proxy => (MappingObjectRef::Proxy, false),
            MappingObjectRef::ActivePreset => (MappingObjectRef::ActivePreset, false),
            MappingObjectRef::Preset { name } => {
                let (name, truncated) = bounded_mapping_name(name.as_str(), maximum_name_bytes);
                (MappingObjectRef::Preset { name }, truncated)
            },
            MappingObjectRef::PresetName { name } => {
                let (name, truncated) = bounded_mapping_name(name.as_str(), maximum_name_bytes);
                (MappingObjectRef::PresetName { name }, truncated)
            },
            MappingObjectRef::Table { preset, table } => {
                let (preset, truncated) = bounded_mapping_name(preset.as_str(), maximum_name_bytes);
                (MappingObjectRef::Table { preset, table: *table }, truncated)
            },
            MappingObjectRef::Rule { preset, table, index } => {
                let (preset, truncated) = bounded_mapping_name(preset.as_str(), maximum_name_bytes);
                (MappingObjectRef::Rule { preset, table: *table, index: *index }, truncated)
            },
            MappingObjectRef::RuleField { preset, table, index, field } => {
                let (preset, truncated) = bounded_mapping_name(preset.as_str(), maximum_name_bytes);
                (MappingObjectRef::RuleField { preset, table: *table, index: *index, field: *field }, truncated)
            },
        }
    }
}


// ---------------------------------------------------------------- validation of a candidate

#[derive(Debug, PartialEq)]
pub struct MappingPresetRef {
    pub name: String,
    pub index: usize,
}

/// Which gates of the mapping configuration are open.
#[derive(Debug, PartialEq)]
pub struct MappingGateState {
    pub proxy_present: bool,
    pub global_enabled: bool,
    pub active_preset: Option<MappingPresetRef>,
    pub remote_enabled: Option<bool>,
    pub local_enabled: Option<bool>,
}

pub struct GateView {
    pub proxy_present: bool,
    pub global_enabled: bool,
    pub active_preset: Option<(Seq<char>, usize)>,
    pub remote_enabled: Option<bool>,
    pub local_enabled: Option<bool>,
}

impl View for MappingGateState {
    type V = GateView;

    open spec fn view(&self) -> GateView {
        GateView {
            proxy_present: self.proxy_present,
            global_enabled: self.global_enabled,
            active_preset: match self.active_preset {
                Some(p) => Some((p.name@, p.index)),
                None => None,
            },
            remote_enabled: self.remote_enabled,
            local_enabled: self.local_enabled,
        }
    }
}

pub open spec fn closed_gates() -> GateView {
    GateView { proxy_present: false, global_enabled: false, active_preset: None, remote_enabled: None, local_enabled: None }
}

impl Default for MappingGateState {
    fn default() -> (r: Self)
        ensures
            r@ == closed_gates(),
    {
        MappingGateState {
            proxy_present: false,
            global_enabled: false,
            active_preset: None,
            remote_enabled: None,
            local_enabled: None,
        }
    }
}

/// The preset that the active preset name selects, by its stored name and index.
pub open spec fn active_preset_of(p: ProxyView) -> Option<(Seq<char>, usize)> {
    match p.active_preset {
        None => None,
        Some(a) => {
            let t = trim_spec(a);
            if t.len() == 0 {
                None
            } else {
                match find_preset(p.presets, t) {
                    Some(i) => Some((p.presets[i].name, i as usize)),
                    None => None,
                }
            }
        },
    }
}

/// The gates of a candidate proxy configuration.
pub open spec fn gates_spec(proxy: Option<ProxyView>) -> GateView {
    match proxy {
        None => closed_gates(),
        Some(p) => {
            let active = active_preset_of(p);
            GateView {
                proxy_present: true,
                global_enabled: p.enable,
                active_preset: active,
                remote_enabled: match active { Some((_, i)) => Some(p.presets[i as int].map_remote.enable), None => None },
                local_enabled: match active { Some((_, i)) => Some(p.presets[i as int].map_local.enable), None => None },
            }
        },
    }
}

pub open spec fn opt_proxy_ref_view(p: Option<&ProxySettings>) -> Option<ProxyView> {
    match p {
        Some(v) => Some(v@),
        None => None,
    }
}

/// The gates of a candidate proxy configuration.
pub fn mapping_gates(proxy: Option<&ProxySettings>) -> (r: MappingGateState)
    ensures
        r@ == gates_spec(opt_proxy_ref_view(proxy)),
{
    let proxy = match proxy {
        Some(p) => p,
        None => return MappingGateState::default(),
    };
    let active = match &proxy.active_preset {
        None => None,
        Some(name) => {
            let t = trim(name.as_str());
            if t.unicode_len() == 0 {
                None
            } else {
                match find_mapping_preset_index(proxy, t.as_str()) {
                    Some(index) => Some(MappingPresetRef { name: proxy.presets[index].name.clone(), index }),
                    None => None,
                }
            }
        },
    };
    let (remote_enabled, local_enabled) = match &active {
        Some(a) => (Some(proxy.presets[a.index].map_remote.enable), Some(proxy.presets[a.index].map_local.enable)),
        None => (None, None),
    };
    proof {
        if active is Some {
            let i = active->0.index;
            assert(proxy@.presets[i as int] == proxy.presets@[i as int]@);
        }
    }
    MappingGateState {
        proxy_present: true,
        global_enabled: proxy.enable,
        active_preset: active,
        remote_enabled,
        local_enabled,
    }
}

/// The gates and diagnostics of a candidate mapping configuration.
#[derive(Debug, PartialEq)]
pub struct MappingValidationResult {
    pub gates: MappingGateState,
    pub diagnostics: Vec<MappingDiagnostic>,
    pub diagnostics_total: usize,
    pub diagnostics_omitted: usize,
}

impl MappingValidationResult {
    /// Whether no diagnostic is an error.
    pub fn is_valid(&self) -> (r: bool)
        ensures
            r == (forall|i: int| 0 <= i < self.diagnostics@.len()
                ==> #[trigger] self.diagnostics@[i].severity != DiagnosticSeverity::Error),
    {
        let mut i: usize = 0;
        while i < self.diagnostics.len()
            invariant
                i <= self.diagnostics.len(),
                forall|j: int| 0 <= j < i ==> #[trigger] self.diagnostics@[j].severity != DiagnosticSeverity::Error,
            decreases self.diagnostics.len() - i,
        {
            if self.diagnostics[i].severity == DiagnosticSeverity::Error {
                return false;
            }
            i = i + 1;
        }
        true
    }
}

/// Validates a candidate proxy configuration: its gates, its first diagnostics, how many
/// there are in all and how many were left out.
pub fn validate_mapping_candidate(proxy: Option<&ProxySettings>) -> (r: MappingValidationResult)
    ensures
        r.gates@ == gates_spec(opt_proxy_ref_view(proxy)),
        match proxy {
            None => r.diagnostics@.len() == 0 && r.diagnostics_total == 0,
            Some(p) => {
                let all = proxy_diagnostics(p@);
                &&& diagnostics_view(r.diagnostics@) == all.take(min_nat(MAX_MAPPING_DIAGNOSTICS as nat, all.len()) as int)
                &&& r.diagnostics_total == saturating(all.len() as int)
            },
        },
        r.diagnostics_omitted == if r.diagnostics_total > MAX_MAPPING_DIAGNOSTICS {
            r.diagnostics_total - MAX_MAPPING_DIAGNOSTICS
        } else {
            0
        },
{
    let (diagnostics, diagnostics_total) = match proxy {
        Some(p) => validate_proxy_settings_capped(p, MAX_MAPPING_DIAGNOSTICS),
        None => (Vec::new(), 0),
    };
    MappingValidationResult {
        gates: mapping_gates(proxy),
        diagnostics,
        diagnostics_total,
        diagnostics_omitted: diagnostics_total.saturating_sub(MAX_MAPPING_DIAGNOSTICS),
    }
}

/// A rule that a request matched.
#[derive(Debug, PartialEq)]
pub struct MappingRuleMatch {
    pub preset: String,
    pub preset_index: usize,
    pub table: ProxyRuleTable,
    pub index: usize,
}

/// The match record for a rule location, when its preset exists.
pub fn rule_match(proxy: &ProxySettings, location: MappingRuleLocation) -> (r: Option<MappingRuleMatch>)
    ensures
        match r {
            Some(m) => location.preset_index < proxy@.presets.len()
                && m.preset@ == proxy@.presets[location.preset_index as int].name
                && m.preset_index == location.preset_index
                && m.table == rule_table(location.table)
                && m.index == location.rule_index,
            None => location.preset_index >= proxy@.presets.len(),
        },
{
    if location.preset_index >= proxy.presets.len() {
        return None;
    }
    let preset = &proxy.presets[location.preset_index];
    assert(proxy@.presets[location.preset_index as int] == preset@);
    Some(MappingRuleMatch {
        preset: preset.name.clone(),
        preset_index: location.preset_index,
        table: ProxyRuleTable::from_mapping_table(location.table),
        index: location.rule_index,
    })
}

/// What the mapping engine traced for one request: the remote and local rules it matched,
/// the URL the request is sent to, and the file that answers it.
pub struct MappingTrace {
    pub remote_match: Option<MappingRuleLocation>,
    pub local_match: Option<MappingRuleLocation>,
    pub effective_url: Option<String>,
    pub local_path: Option<String>,
}

/// How the mapping configuration treats one request URL, with the configuration's own
/// validation.
pub struct MappingExplanation {
    pub original_url: Option<String>,
    pub effective_url: Option<String>,
    pub local_path: Option<String>,
    pub matches: Vec<MappingRuleMatch>,
    pub gates: MappingGateState,
    pub diagnostics: Vec<MappingDiagnostic>,
    pub diagnostics_total: usize,
    pub diagnostics_omitted: usize,
}

pub struct MatchView {
    pub preset: Seq<char>,
    pub preset_index: usize,
    pub table: ProxyRuleTable,
    pub index: usize,
}

pub open spec fn match_view(m: MappingRuleMatch) -> MatchView {
    MatchView { preset: m.preset@, preset_index: m.preset_index, table: m.table, index: m.index }
}

/// The match record of a rule location, where its preset exists.
pub open spec fn rule_match_spec(p: ProxyView, l: MappingRuleLocation) -> Seq<MatchView> {
    if l.preset_index < p.presets.len() {
        seq![
            MatchView {
                preset: p.presets[l.preset_index as int].name,
                preset_index: l.preset_index,
                table: rule_table(l.table),
                index: l.rule_index,
            },
        ]
    } else {
        Seq::empty()
    }
}

/// The match records of a trace: the remote rule's, then the local rule's.
pub open spec fn trace_matches(proxy: Option<ProxyView>, remote: Option<MappingRuleLocation>, local: Option<
    MappingRuleLocation,
>) -> Seq<MatchView> {
    match proxy {
        None => Seq::empty(),
        Some(p) => (match remote {
            Some(l) => rule_match_spec(p, l),
            None => Seq::empty(),
        }) + (match local {
            Some(l) => rule_match_spec(p, l),
            None => Seq::empty(),
        }),
    }
}

pub open spec fn invalid_url_message() -> Seq<char> {
    "request URL must be an absolute http or https URL"@
}

pub open spec fn invalid_url_diagnostic() -> DiagnosticView {
    DiagnosticView {
        severity: DiagnosticSeverity::Error,
        code: MappingDiagnosticCode::InvalidRequestUrl,
        location: None,
        message: invalid_url_message(),
    }
}

fn push_match(matches: &mut Vec<MappingRuleMatch>, proxy: &ProxySettings, location: Option<MappingRuleLocation>)
    ensures
        final(matches)@.map_values(|m: MappingRuleMatch| match_view(m)) == old(matches)@.map_values(
            |m: MappingRuleMatch| match_view(m),
        ) + match location {
            Some(l) => rule_match_spec(proxy@, l),
            None => Seq::empty(),
        },
{
    let ghost before = matches@;
    if let Some(l) = location {
        if let Some(m) = rule_match(proxy, l) {
            matches.push(m);
            assert(matches@.map_values(|m: MappingRuleMatch| match_view(m)) =~= before.map_values(
                |m: MappingRuleMatch| match_view(m),
            ) + rule_match_spec(proxy@, l));
            return;
        }
    }
    assert(matches@.map_values(|m: MappingRuleMatch| match_view(m)) =~= before.map_values(
        |m: MappingRuleMatch| match_view(m),
    ) + match location {
        Some(l) => rule_match_spec(proxy@, l),
        None => Seq::<MatchView>::empty(),
    });
}

/// Explains how the mapping configuration `proxy` treats the request URL `url`, given what
/// the mapping engine traced for it; the URL is shown as its parse writes it. A URL that is
/// not an absolute `http` or `https` URL gets no trace, and one more error diagnostic where
/// there is room for it.
pub fn explain_mapping_candidate(proxy: Option<&ProxySettings>, url: &str, trace: MappingTrace) -> (r:
    MappingExplanation)
    ensures
        r.gates@ == gates_spec(opt_proxy_ref_view(proxy)),
        ({
            let base: Seq<DiagnosticView> = match proxy {
                None => Seq::empty(),
                Some(p) => proxy_diagnostics(p@).take(
                    min_nat(MAX_MAPPING_DIAGNOSTICS as nat, proxy_diagnostics(p@).len()) as int,
                ),
            };
            let base_total: int = match proxy {
                None => 0,
                Some(p) => saturating(proxy_diagnostics(p@).len() as int) as int,
            };
            if is_http_url(url@) {
                &&& r.original_url matches Some(u) && u@ == shown_url(url@)
                &&& r.effective_url == trace.effective_url
                &&& r.local_path == trace.local_path
                &&& r.matches@.map_values(|m: MappingRuleMatch| match_view(m)) == trace_matches(
                    opt_proxy_ref_view(proxy),
                    trace.remote_match,
                    trace.local_match,
                )
                &&& diagnostics_view(r.diagnostics@) == base
                &&& r.diagnostics_total == base_total
            } else {
                &&& r.original_url is None && r.effective_url is None && r.local_path is None
                &&& r.matches@.len() == 0
                &&& diagnostics_view(r.diagnostics@) == if base.len() < MAX_MAPPING_DIAGNOSTICS {
                    base.push(invalid_url_diagnostic())
                } else {
                    base
                }
                &&& r.diagnostics_total == saturating(base_total + 1)
            }
        }),
        r.diagnostics_omitted == if r.diagnostics_total > MAX_MAPPING_DIAGNOSTICS {
            r.diagnostics_total - MAX_MAPPING_DIAGNOSTICS
        } else {
            0
        },
{
    let validation = validate_mapping_candidate(proxy);
    let mut diagnostics = validation.diagnostics;
    let mut diagnostics_total = validation.diagnostics_total;
    let parsed = parse_http_url(url);
    if parsed.is_none() {
        diagnostics_total = diagnostics_total.saturating_add(1);
        if diagnostics.len() < MAX_MAPPING_DIAGNOSTICS {
            let ghost before = diagnostics@;
            proof {
                reveal_strlit("request URL must be an absolute http or https URL");
            }
            diagnostics.push(
                MappingDiagnostic {
                    severity: DiagnosticSeverity::Error,
                    code: MappingDiagnosticCode::InvalidRequestUrl,
                    location: None,
                    message: String::from_str("request URL must be an absolute http or https URL"),
                },
            );
            assert(diagnostics_view(diagnostics@) =~= diagnostics_view(before).push(invalid_url_diagnostic()));
        }
        return MappingExplanation {
            original_url: None,
            effective_url: None,
            local_path: None,
            matches: Vec::new(),
            gates: validation.gates,
            diagnostics,
            diagnostics_total,
            diagnostics_omitted: diagnostics_total.saturating_sub(MAX_MAPPING_DIAGNOSTICS),
        };
    }
    let mut matches: Vec<MappingRuleMatch> = Vec::new();
    if let Some(p) = proxy {
        assert(matches@.map_values(|m: MappingRuleMatch| match_view(m)) =~= Seq::<MatchView>::empty());
        push_match(&mut matches, p, trace.remote_match);
        push_match(&mut matches, p, trace.local_match);
    } else {
        assert(matches@.map_values(|m: MappingRuleMatch| match_view(m)) =~= Seq::<MatchView>::empty());
    }
    MappingExplanation {
        original_url: parsed,
        effective_url: trace.effective_url,
        local_path: trace.local_path,
        matches,
        gates: validation.gates,
        diagnostics,
        diagnostics_total,
        diagnostics_omitted: diagnostics_total.saturating_sub(MAX_MAPPING_DIAGNOSTICS),
    }
}

} // verus!
