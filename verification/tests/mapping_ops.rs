use fluxcope::settings::mapping_ops::{
    apply_mapping_mutation, apply_mapping_mutation_owned, explain_mapping_candidate, rule_match, MappingTrace, validate_mapping_candidate, MappingGateState,
    MappingMutation, MappingMutationErrorKind, MappingMutationResult, MappingObjectRef, MappingRuleField,
    MappingRuleMatch, MutationEffect, ProxyRuleTable,
};
use fluxcope::settings::model::{
    AppSettings, ProxyMapLocalRule, ProxyMapLocalSettings, ProxyMapRemoteRule, ProxyMapRemoteSettings,
    ProxyPresetSettings, ProxySettings,
};
use fluxcope::settings::validation::{
    http_url_from_parts, DiagnosticSeverity, MappingDiagnosticCode, MappingField, MappingRuleLocation, MappingTable,
};

fn remote(from: &str, to: &str) -> ProxyMapRemoteRule {
    ProxyMapRemoteRule {
        from: from.into(),
        to: to.into(),
        enable: true,
    }
}

fn local(from: &str, to: &str) -> ProxyMapLocalRule {
    ProxyMapLocalRule {
        from: from.into(),
        to: to.into(),
        enable: true,
    }
}

fn preset(name: &str) -> ProxyPresetSettings {
    ProxyPresetSettings {
        name: name.into(),
        ..ProxyPresetSettings::default()
    }
}

fn active_settings() -> AppSettings {
    AppSettings {
        proxy: Some(ProxySettings {
            active_preset: Some("dev".into()),
            presets: vec![preset("dev"), preset("qa")],
            ..ProxySettings::default()
        }),
        ..AppSettings::default()
    }
}

fn settings_with_rules() -> AppSettings {
    let mut settings = active_settings();
    let preset = &mut settings.proxy.as_mut().unwrap().presets[0];
    preset.map_remote.rules = vec![
        remote("https://a.example", "http://localhost:3001"),
        remote("https://b.example", "http://localhost:3002"),
        remote("https://c.example", "http://localhost:3003"),
    ];
    preset.map_local.rules = vec![
        local("https://a.example", "/tmp/a.json"),
        local("https://b.example", "/tmp/b.json"),
    ];
    settings
}

fn apply(settings: &mut AppSettings, mutation: MappingMutation) -> MappingMutationResult {
    apply_mapping_mutation(settings, mutation).expect("mapping mutation")
}

#[test]
fn creates_default_preset_without_activation() {
    let mut settings = AppSettings::default();
    let result = apply(
        &mut settings,
        MappingMutation::CreatePreset {
            name: "  dev  ".into(),
            initial: None,
        },
    );
    let proxy = settings.proxy.unwrap();
    assert_eq!(proxy.active_preset, None);
    assert_eq!(proxy.presets, vec![preset("dev")]);
    assert_eq!(result.effect, MutationEffect::Changed);
    assert_eq!(
        result.affected,
        MappingObjectRef::Preset { name: "dev".into() }
    );
}

#[test]
fn complete_preset_is_validated_renamed_and_not_activated() {
    let mut settings = AppSettings::default();
    let initial = ProxyPresetSettings {
        name: "payload".into(),
        map_remote: ProxyMapRemoteSettings {
            enable: false,
            rules: vec![remote("https://api.example/v1", "http://localhost:9000")],
        },
        map_local: ProxyMapLocalSettings {
            enable: false,
            rules: vec![local("https://static.example", "/tmp/static.json")],
        },
    };
    apply(
        &mut settings,
        MappingMutation::CreatePreset {
            name: " staging ".into(),
            initial: Some(initial),
        },
    );
    let proxy = settings.proxy.unwrap();
    assert_eq!(proxy.active_preset, None);
    assert_eq!(proxy.presets[0].name, "staging");
    assert!(!proxy.presets[0].map_remote.enable);
    assert!(!proxy.presets[0].map_local.enable);
    assert_eq!(proxy.presets[0].map_remote.rules.len(), 1);
    assert_eq!(proxy.presets[0].map_local.rules.len(), 1);
}

#[test]
fn names_are_trimmed_unique_and_case_sensitive() {
    let mut settings = active_settings();
    apply(
        &mut settings,
        MappingMutation::CreatePreset {
            name: " Dev ".into(),
            initial: None,
        },
    );
    let before = settings.clone();
    let error = apply_mapping_mutation(
        &mut settings,
        MappingMutation::CreatePreset {
            name: "  Dev  ".into(),
            initial: None,
        },
    )
    .unwrap_err();
    assert_eq!(error.kind, MappingMutationErrorKind::DuplicatePresetName);
    assert_eq!(
        error.location,
        MappingObjectRef::PresetName { name: "Dev".into() }
    );
    assert_eq!(settings, before);
}

#[test]
fn invalid_complete_preset_is_atomic_and_located() {
    let mut settings = AppSettings::default();
    let before = settings.clone();
    let initial = ProxyPresetSettings {
        name: "ignored".into(),
        map_remote: ProxyMapRemoteSettings {
            rules: vec![remote("bad", "http://localhost:3000")],
            ..ProxyMapRemoteSettings::default()
        },
        ..ProxyPresetSettings::default()
    };
    let error = apply_mapping_mutation(
        &mut settings,
        MappingMutation::CreatePreset {
            name: "dev".into(),
            initial: Some(initial),
        },
    )
    .unwrap_err();
    assert_eq!(error.kind, MappingMutationErrorKind::InvalidField);
    assert_eq!(
        error.location,
        MappingObjectRef::RuleField {
            preset: "dev".into(),
            table: ProxyRuleTable::Remote,
            index: 0,
            field: MappingRuleField::From,
        }
    );
    assert_eq!(settings, before);
}

#[test]
fn active_rename_delete_null_and_stale_paths_are_explicit() {
    let mut settings = active_settings();
    apply(
        &mut settings,
        MappingMutation::RenamePreset {
            name: "dev".into(),
            new_name: " staging ".into(),
        },
    );
    assert_eq!(
        settings.proxy.as_ref().unwrap().active_preset.as_deref(),
        Some("staging")
    );
    apply(
        &mut settings,
        MappingMutation::SetActivePreset {
            name: Some("qa".into()),
        },
    );
    apply(
        &mut settings,
        MappingMutation::DeletePreset { name: "qa".into() },
    );
    assert_eq!(settings.proxy.as_ref().unwrap().active_preset, None);
    settings.proxy.as_mut().unwrap().active_preset = Some("stale".into());
    let before = settings.clone();
    let error = apply_mapping_mutation(
        &mut settings,
        MappingMutation::SetActivePreset {
            name: Some("missing".into()),
        },
    )
    .unwrap_err();
    assert_eq!(error.kind, MappingMutationErrorKind::PresetNotFound);
    assert_eq!(settings, before);
    apply(
        &mut settings,
        MappingMutation::SetActivePreset { name: None },
    );
    assert_eq!(settings.proxy.unwrap().active_preset, None);
}

#[test]
fn global_remote_and_local_gates_are_mutated() {
    let mut settings = active_settings();
    apply(
        &mut settings,
        MappingMutation::SetGlobalEnabled { enabled: false },
    );
    for table in [ProxyRuleTable::Remote, ProxyRuleTable::Local] {
        apply(
            &mut settings,
            MappingMutation::SetTableEnabled {
                preset: "dev".into(),
                table,
                enabled: false,
            },
        );
    }
    let preset = &settings.proxy.as_ref().unwrap().presets[0];
    assert!(!settings.proxy.as_ref().unwrap().enable);
    assert!(!preset.map_remote.enable);
    assert!(!preset.map_local.enable);
}

#[test]
fn append_insert_keep_remote_and_local_types_separate() {
    let mut settings = active_settings();
    apply(
        &mut settings,
        MappingMutation::AppendRemoteRule {
            preset: "dev".into(),
            rule: remote("https://b.example", "http://localhost:2"),
        },
    );
    apply(
        &mut settings,
        MappingMutation::InsertRemoteRule {
            preset: "dev".into(),
            index: 0,
            rule: remote("https://a.example", "http://localhost:1"),
        },
    );
    apply(
        &mut settings,
        MappingMutation::AppendLocalRule {
            preset: "dev".into(),
            rule: local("https://b.example", "/tmp/b"),
        },
    );
    apply(
        &mut settings,
        MappingMutation::InsertLocalRule {
            preset: "dev".into(),
            index: 0,
            rule: local("https://a.example", "/tmp/a"),
        },
    );
    let preset = &settings.proxy.unwrap().presets[0];
    assert_eq!(preset.map_remote.rules.len(), 2);
    assert_eq!(preset.map_local.rules.len(), 2);
    assert_eq!(preset.map_remote.rules[0].to, "http://localhost:1");
    assert_eq!(preset.map_local.rules[0].to, "/tmp/a");
}

#[test]
fn update_delete_enable_and_move_cover_both_rule_tables() {
    let mut settings = settings_with_rules();
    apply(
        &mut settings,
        MappingMutation::UpdateRemoteRule {
            preset: "dev".into(),
            index: 0,
            from: "https://updated.example/v1".into(),
            to: "http://localhost:4000".into(),
        },
    );
    apply(
        &mut settings,
        MappingMutation::UpdateLocalRule {
            preset: "dev".into(),
            index: 0,
            from: "https://updated.example/static".into(),
            to: "/tmp/updated".into(),
        },
    );
    apply(
        &mut settings,
        MappingMutation::SetRuleEnabled {
            preset: "dev".into(),
            table: ProxyRuleTable::Remote,
            index: 0,
            enabled: false,
        },
    );
    apply(
        &mut settings,
        MappingMutation::SetRuleEnabled {
            preset: "dev".into(),
            table: ProxyRuleTable::Local,
            index: 1,
            enabled: false,
        },
    );
    let moved = apply(
        &mut settings,
        MappingMutation::MoveRule {
            preset: "dev".into(),
            table: ProxyRuleTable::Remote,
            from: 0,
            to: 2,
        },
    );
    apply(
        &mut settings,
        MappingMutation::MoveRule {
            preset: "dev".into(),
            table: ProxyRuleTable::Local,
            from: 1,
            to: 0,
        },
    );
    apply(
        &mut settings,
        MappingMutation::DeleteRule {
            preset: "dev".into(),
            table: ProxyRuleTable::Remote,
            index: 1,
        },
    );
    apply(
        &mut settings,
        MappingMutation::DeleteRule {
            preset: "dev".into(),
            table: ProxyRuleTable::Local,
            index: 1,
        },
    );
    let preset = &settings.proxy.unwrap().presets[0];
    assert_eq!(
        preset
            .map_remote
            .rules
            .iter()
            .map(|r| r.from.as_str())
            .collect::<Vec<_>>(),
        vec!["https://b.example", "https://updated.example/v1"]
    );
    assert!(!preset.map_remote.rules[1].enable);
    assert_eq!(preset.map_local.rules[0].to, "/tmp/b.json");
    assert!(!preset.map_local.rules[0].enable);
    assert_eq!(preset.map_local.rules.len(), 1);
    assert_eq!(
        moved.affected,
        MappingObjectRef::Rule {
            preset: "dev".into(),
            table: ProxyRuleTable::Remote,
            index: 2,
        }
    );
}

#[test]
fn same_index_move_is_unchanged() {
    let mut settings = settings_with_rules();
    let before = settings.clone();
    let result = apply(
        &mut settings,
        MappingMutation::MoveRule {
            preset: "dev".into(),
            table: ProxyRuleTable::Remote,
            from: 1,
            to: 1,
        },
    );
    assert_eq!(result.effect, MutationEffect::Unchanged);
    assert_eq!(settings, before);
}

#[test]
fn invalid_proxy_preset_table_index_and_field_are_atomic() {
    let cases = [
        (
            AppSettings::default(),
            MappingMutation::SetGlobalEnabled { enabled: false },
            MappingMutationErrorKind::ProxyNotFound,
        ),
        (
            active_settings(),
            MappingMutation::DeletePreset {
                name: "missing".into(),
            },
            MappingMutationErrorKind::PresetNotFound,
        ),
        (
            active_settings(),
            MappingMutation::SetTableEnabled {
                preset: "missing".into(),
                table: ProxyRuleTable::Remote,
                enabled: false,
            },
            MappingMutationErrorKind::PresetNotFound,
        ),
        (
            settings_with_rules(),
            MappingMutation::DeleteRule {
                preset: "dev".into(),
                table: ProxyRuleTable::Remote,
                index: 99,
            },
            MappingMutationErrorKind::RuleNotFound,
        ),
        (
            settings_with_rules(),
            MappingMutation::UpdateRemoteRule {
                preset: "dev".into(),
                index: 0,
                from: "bad".into(),
                to: "http://localhost:1".into(),
            },
            MappingMutationErrorKind::InvalidField,
        ),
    ];
    for (mut settings, mutation, kind) in cases {
        let before = settings.clone();
        let error = apply_mapping_mutation(&mut settings, mutation).unwrap_err();
        assert_eq!(error.kind, kind);
        assert_eq!(settings, before);
    }
}

#[test]
fn validation_reports_invalid_urls_rules_gates_and_locations() {
    let proxy = ProxySettings {
        enable: false,
        active_preset: Some("dev".into()),
        presets: vec![ProxyPresetSettings {
            name: "dev".into(),
            map_remote: ProxyMapRemoteSettings {
                enable: false,
                rules: vec![remote("bad", "bad")],
            },
            map_local: ProxyMapLocalSettings {
                enable: false,
                rules: vec![local("bad", "")],
            },
        }],
    };
    let result = validate_mapping_candidate(Some(&proxy));
    assert!(!result.is_valid());
    assert!(!result.gates.global_enabled);
    assert_eq!(result.gates.remote_enabled, Some(false));
    assert_eq!(result.gates.local_enabled, Some(false));
    assert!(
        result
            .diagnostics
            .iter()
            .all(|d| d.severity == DiagnosticSeverity::Error)
    );
    assert!(result.diagnostics.iter().any(|d| d.code
        == MappingDiagnosticCode::InvalidRuleSource
        && d.location.is_some_and(|l| l.preset_index == 0
            && l.table == MappingTable::Remote
            && l.rule_index == 0
            && l.field == MappingField::From)));
    assert!(result.diagnostics.iter().any(|d| {
        d.code == MappingDiagnosticCode::InvalidRuleTarget
            && d.location
                .is_some_and(|l| l.table == MappingTable::Local && l.field == MappingField::To)
    }));
}

#[test]
fn absent_candidate_is_valid_with_closed_gates() {
    let result = validate_mapping_candidate(None);
    assert!(result.is_valid());
    assert_eq!(result.gates, MappingGateState::default());
    assert!(result.diagnostics.is_empty());
}

#[test]
fn validation_rejects_preset_names_that_collide_after_trimming() {
    let proxy = ProxySettings {
        active_preset: Some("dev".into()),
        presets: vec![preset("dev"), preset(" dev ")],
        ..ProxySettings::default()
    };

    let result = validate_mapping_candidate(Some(&proxy));

    assert!(result.diagnostics.iter().any(|diagnostic| {
        diagnostic.code == MappingDiagnosticCode::DuplicatePresetName
            && diagnostic.severity == DiagnosticSeverity::Error
    }));
}

#[test]
fn audit_targets_bound_preset_names_on_a_character_boundary() {
    let create = MappingMutation::CreatePreset { name: "déploiement".into(), initial: None };
    assert_eq!(create.audit_target_bounded(64), (MappingObjectRef::Preset { name: "déploiement".into() }, false));
    assert_eq!(create.audit_target_bounded(2), (MappingObjectRef::Preset { name: "d".into() }, true));
    assert_eq!(create.audit_target_bounded(3), (MappingObjectRef::Preset { name: "dé".into() }, true));

    let table = MappingMutation::SetTableEnabled { preset: "qa".into(), table: ProxyRuleTable::Local, enabled: false };
    assert_eq!(
        table.audit_target_bounded(1),
        (MappingObjectRef::Table { preset: "q".into(), table: ProxyRuleTable::Local }, true)
    );
    assert_eq!(MappingMutation::SetGlobalEnabled { enabled: true }.audit_target_bounded(0), (MappingObjectRef::Proxy, false));

    let rule = MappingObjectRef::Rule { preset: "staging".into(), table: ProxyRuleTable::Remote, index: 4 };
    assert_eq!(
        rule.bounded_clone(4),
        (MappingObjectRef::Rule { preset: "stag".into(), table: ProxyRuleTable::Remote, index: 4 }, true)
    );
    assert_eq!(MappingObjectRef::ActivePreset.bounded_clone(0), (MappingObjectRef::ActivePreset, false));
}

#[test]
fn owned_mutation_returns_the_candidate_and_errors_carry_their_message() {
    let (candidate, result) = apply_mapping_mutation_owned(
        active_settings(),
        MappingMutation::SetGlobalEnabled { enabled: false },
    )
    .expect("disabling the proxy applies");
    assert!(!candidate.proxy.as_ref().expect("proxy").enable);
    assert_eq!(result, MappingMutationResult { affected: MappingObjectRef::Proxy, effect: MutationEffect::Changed });

    let error = apply_mapping_mutation_owned(
        AppSettings::default(),
        MappingMutation::DeletePreset { name: "dev".into() },
    )
    .expect_err("there is no proxy section");
    assert_eq!(error.kind, MappingMutationErrorKind::ProxyNotFound);
    assert_eq!(error.to_message(), "proxy settings do not exist");
}

#[test]
fn a_rule_location_matches_only_an_existing_preset() {
    let proxy = ProxySettings { presets: vec![preset("dev"), preset("qa")], ..ProxySettings::default() };
    let found = rule_match(
        &proxy,
        MappingRuleLocation { preset_index: 1, table: MappingTable::Local, rule_index: 7, field: MappingField::From },
    )
    .expect("the preset exists");
    assert_eq!(
        found,
        MappingRuleMatch { preset: "qa".into(), preset_index: 1, table: ProxyRuleTable::Local, index: 7 }
    );
    assert!(rule_match(
        &proxy,
        MappingRuleLocation { preset_index: 2, table: MappingTable::Remote, rule_index: 0, field: MappingField::To },
    )
    .is_none());
}

fn no_trace() -> MappingTrace {
    MappingTrace { remote_match: None, local_match: None, effective_url: None, local_path: None }
}

#[test]
fn explanation_handles_invalid_request_candidate_and_disabled_gate() {
    let mut proxy = settings_with_rules().proxy.unwrap();
    proxy.presets[0].map_remote.rules[0].from = "bad".into();
    let invalid = explain_mapping_candidate(Some(&proxy), "not a request url", no_trace());
    assert_eq!(invalid.original_url, None);
    assert_eq!(invalid.effective_url, None);
    assert!(invalid.matches.is_empty());
    assert!(invalid.diagnostics.iter().any(|d| d.code == MappingDiagnosticCode::InvalidRequestUrl));
    assert!(invalid.diagnostics.iter().any(|d| d.code == MappingDiagnosticCode::InvalidRuleSource));
    assert_eq!(invalid.diagnostics_total, 2);

    proxy.enable = false;
    let passthrough = MappingTrace { effective_url: Some("https://b.example/path".into()), ..no_trace() };
    let disabled = explain_mapping_candidate(Some(&proxy), "https://b.example/path", passthrough);
    assert_eq!(disabled.effective_url.unwrap(), "https://b.example/path");
    assert_eq!(disabled.local_path, None);
    assert!(disabled.matches.is_empty());
    assert!(!disabled.gates.global_enabled);
}

#[test]
fn an_explanation_records_the_traced_rules_of_existing_presets() {
    let settings = settings_with_rules();
    let proxy = settings.proxy.as_ref().unwrap();
    let trace = MappingTrace {
        remote_match: Some(MappingRuleLocation {
            preset_index: 0,
            table: MappingTable::Remote,
            rule_index: 1,
            field: MappingField::From,
        }),
        local_match: Some(MappingRuleLocation {
            preset_index: 5,
            table: MappingTable::Local,
            rule_index: 0,
            field: MappingField::From,
        }),
        effective_url: Some("http://localhost:3002/x".into()),
        local_path: None,
    };
    let explanation = explain_mapping_candidate(Some(proxy), "https://b.example/x", trace);
    assert_eq!(explanation.original_url.as_deref(), Some("https://b.example/x"));
    assert_eq!(
        explanation.matches,
        vec![MappingRuleMatch { preset: "dev".into(), preset_index: 0, table: ProxyRuleTable::Remote, index: 1 }]
    );
    assert_eq!(explanation.diagnostics_total, 0);
    let ftp = explain_mapping_candidate(Some(proxy), "ftp://b.example/x", no_trace());
    assert_eq!(ftp.diagnostics_total, 1);
    assert_eq!(ftp.diagnostics[0].message, "request URL must be an absolute http or https URL");
}

#[test]
fn an_explained_url_is_shown_as_its_parse_writes_it() {
    let settings = settings_with_rules();
    let explanation = explain_mapping_candidate(settings.proxy.as_ref(), "http://a.com", no_trace());
    assert_eq!(explanation.original_url.as_deref(), Some("http://a.com/"));
    assert!(http_url_from_parts(&Some((Some("https".to_string()), true, "https://x/".to_string()))));
    assert!(!http_url_from_parts(&Some((Some("ftp".to_string()), true, "ftp://x/".to_string()))));
    assert!(!http_url_from_parts(&Some((Some("http".to_string()), false, "http:x".to_string()))));
    assert!(!http_url_from_parts(&None));
}

#[test]
fn changed_effect_means_different_settings_except_a_move_among_equal_rules() {
    let mut settings = settings_with_rules();
    let before = settings.clone();
    let result = apply(&mut settings, MappingMutation::SetGlobalEnabled { enabled: false });
    assert_eq!(result.effect, MutationEffect::Changed);
    assert_ne!(settings, before);

    let before = settings.clone();
    let result = apply(&mut settings, MappingMutation::SetGlobalEnabled { enabled: false });
    assert_eq!(result.effect, MutationEffect::Unchanged);
    assert_eq!(settings, before);

    let result = apply(
        &mut settings,
        MappingMutation::MoveRule { preset: "  dev ".into(), table: ProxyRuleTable::Remote, from: 2, to: 0 },
    );
    assert_eq!(result.effect, MutationEffect::Changed);
    assert_eq!(result.affected, MappingObjectRef::Rule { preset: "dev".into(), table: ProxyRuleTable::Remote, index: 0 });
    assert_ne!(settings, before);

    let proxy = settings.proxy.as_mut().unwrap();
    proxy.presets[1].map_local.rules = vec![local("https://same.example", "/tmp/same.json"); 2];
    let before = settings.clone();
    let result = apply(
        &mut settings,
        MappingMutation::MoveRule { preset: "qa".into(), table: ProxyRuleTable::Local, from: 0, to: 1 },
    );
    assert_eq!(result.effect, MutationEffect::Changed);
    assert_eq!(settings, before);
}
