use fluxcope::settings::manager::{stored_from_text, SettingsManager, StoredSettings};
use fluxcope::settings::model::{AppSettings, RecordingPrefilterPatternSettings, DEFAULT_PROXY_PORT};
use fluxcope::settings::preserve::settings_document;
use fluxcope::yaml::{parse_yaml_text, YamlEntry, YamlNumber, YamlValue};
use std::io;
use std::path::PathBuf;

const DEFAULT_CERTIFICATE_STORE_DIR: &str = "~/.fluxcope/certificate/";
const DEFAULT_CERTIFICATE_PEM_FILENAME: &str = "fluxcope-ca.pem";
const HOME: &str = "/home/tester";

/// A settings file kept in memory: `None` where there is no file.
struct ConfigFile {
    content: Option<String>,
}

impl ConfigFile {
    fn missing() -> Self {
        ConfigFile { content: None }
    }

    fn with(content: &str) -> Self {
        ConfigFile { content: Some(content.to_string()) }
    }

    fn read(&self) -> String {
        self.content.clone().expect("the settings file should exist")
    }

    fn is_present(&self) -> bool {
        self.content.is_some()
    }

    fn yaml(&self) -> serde_yaml::Value {
        serde_yaml::from_str(&self.read()).expect("the settings file should parse")
    }

    fn on_disk(&self) -> Result<Option<YamlValue>, String> {
        match stored_from_text(self.content.as_deref()).map_err(|e| e.message)? {
            StoredSettings::Document(doc) => Ok(Some(doc)),
            StoredSettings::Missing | StoredSettings::Blank => Ok(None),
        }
    }

    fn write(&mut self, doc: &YamlValue) {
        self.content = Some(serde_yaml::to_string(&from_yaml(doc)).expect("document should serialize"));
    }
}

fn from_yaml(value: &YamlValue) -> serde_yaml::Value {
    match value {
        YamlValue::Null => serde_yaml::Value::Null,
        YamlValue::Bool(b) => serde_yaml::Value::Bool(*b),
        YamlValue::Number(YamlNumber::PosInt(u)) => serde_yaml::Value::Number((*u).into()),
        YamlValue::Number(YamlNumber::NegInt(i)) => serde_yaml::Value::Number((*i).into()),
        YamlValue::Number(YamlNumber::Text(text)) => serde_yaml::Value::Number(
            text.parse::<serde_yaml::Number>().expect("a number's text should parse back"),
        ),
        YamlValue::String(s) => serde_yaml::Value::String(s.clone()),
        YamlValue::Sequence(items) => serde_yaml::Value::Sequence(items.iter().map(from_yaml).collect()),
        YamlValue::Mapping(entries) => {
            let mut map = serde_yaml::Mapping::new();
            for entry in entries {
                map.insert(from_yaml(&entry.key), from_yaml(&entry.value));
            }
            serde_yaml::Value::Mapping(map)
        }
        YamlValue::Tagged(tag, inner) => serde_yaml::Value::Tagged(Box::new(serde_yaml::value::TaggedValue {
            tag: serde_yaml::value::Tag::new(tag.clone()),
            value: from_yaml(inner),
        })),
    }
}

/// Loads the settings of `file` and writes back what the manager asks for.
fn load(file: &mut ConfigFile) -> io::Result<SettingsManager> {
    let invalid = |message: String| io::Error::new(io::ErrorKind::InvalidData, message);
    let (manager, write) = SettingsManager::load_from_text("config.yml".to_string(), file.content.as_deref())
        .map_err(|e| invalid(e.message))?;
    if let Some(doc) = write {
        file.write(&doc);
    }
    Ok(manager)
}

/// Changes the settings and writes the file, as an update does.
fn update(manager: &mut SettingsManager, file: &mut ConfigFile, change: impl FnOnce(&mut AppSettings)) {
    let mut next = manager.settings().clone();
    change(&mut next);
    let doc = manager.document_for(&next, file.on_disk().expect("file should parse"));
    file.write(&doc);
    manager.update(next);
}

fn mapping_entry<'a>(value: &'a serde_yaml::Value, key: &str) -> Option<&'a serde_yaml::Value> {
    let serde_yaml::Value::Mapping(mapping) = value else {
        return None;
    };
    mapping.get(key)
}

fn sequence_entry<'a>(value: &'a serde_yaml::Value, key: &str) -> Option<&'a Vec<serde_yaml::Value>> {
    let serde_yaml::Value::Sequence(sequence) = mapping_entry(value, key)? else {
        return None;
    };
    Some(sequence)
}

fn bool_entry(value: &serde_yaml::Value, key: &str) -> Option<bool> {
    let serde_yaml::Value::Bool(field) = mapping_entry(value, key)? else {
        return None;
    };
    Some(*field)
}

fn string_entry<'a>(value: &'a serde_yaml::Value, key: &str) -> Option<&'a str> {
    let serde_yaml::Value::String(field) = mapping_entry(value, key)? else {
        return None;
    };
    Some(field)
}

fn mapping_keys(value: &serde_yaml::Value) -> Vec<&str> {
    let serde_yaml::Value::Mapping(mapping) = value else {
        return Vec::new();
    };
    mapping
        .keys()
        .filter_map(|key| match key {
            serde_yaml::Value::String(key) => Some(key.as_str()),
            _ => None,
        })
        .collect()
}

fn saved_settings(file: &ConfigFile) -> AppSettings {
    let doc = file.on_disk().expect("file should parse").expect("file should hold a document");
    fluxcope::settings::decode::decode_settings(&doc).expect("saved settings should read back")
}

// ---------------------------------------------------------------- basic

#[test]
fn creates_default_config_when_missing() {
    let mut file = ConfigFile::missing();

    let manager = load(&mut file).expect("load");

    assert_eq!(DEFAULT_PROXY_PORT, manager.server_port());
    assert!(file.is_present());

    let saved = saved_settings(&file);
    assert_eq!(DEFAULT_PROXY_PORT, saved.server.port);
    assert_eq!(DEFAULT_CERTIFICATE_STORE_DIR, saved.certificate.store_dir);
    assert_eq!(DEFAULT_CERTIFICATE_PEM_FILENAME, saved.certificate.pem_filename);
    assert!(manager.recording_settings().start_record_on_launch);
    assert!(saved.recording.start_record_on_launch);
    assert!(saved.recording.prefilter.enable);
    assert!(saved.recording.prefilter.include_url_patterns.is_empty());
    assert!(!saved.ui.request_list.auto_expand);
    assert!(saved.proxy.is_none());
    let content = file.read();
    assert!(!content.contains("proxy:"));
    assert!(!content.contains("prefilter:"));
}

#[test]
fn reads_existing_config_and_updates_file() {
    let mut file = ConfigFile::with("server:\n  port: 9000\n");

    let mut manager = load(&mut file).expect("load");
    assert_eq!(9000, manager.server_port());

    let mut next = manager.settings().clone();
    next.server.port = 9010;
    let doc = manager.document_for(&next, file.on_disk().expect("parse"));
    file.write(&doc);
    manager.set_server_port(9010);

    assert_eq!(9010, manager.server_port());
    let home = HOME.to_string();
    assert_eq!(
        PathBuf::from(HOME).join(".fluxcope/certificate/"),
        PathBuf::from(manager.certificate_store_dir(Some(&home)).expect("home is set"))
    );
    assert_eq!(DEFAULT_CERTIFICATE_PEM_FILENAME, manager.certificate_pem_filename());
    assert!(manager.recording_settings().start_record_on_launch);
    assert!(!manager.ui_settings().request_list.auto_expand);

    let saved = saved_settings(&file);
    assert_eq!(9010, saved.server.port);
    assert_eq!(DEFAULT_CERTIFICATE_STORE_DIR, saved.certificate.store_dir);
    assert_eq!(DEFAULT_CERTIFICATE_PEM_FILENAME, saved.certificate.pem_filename);
    assert!(saved.recording.start_record_on_launch);
    assert!(!saved.ui.request_list.auto_expand);
    assert!(saved.proxy.is_none());
    assert!(!file.read().contains("proxy:"));
}

#[test]
fn exposes_loaded_settings_snapshot() {
    let mut file = ConfigFile::with("server:\n  port: 9012\n");

    let manager = load(&mut file).expect("load");

    assert_eq!(9012, manager.settings().server.port);
}

#[test]
fn reads_request_list_auto_expand_setting() {
    let mut file = ConfigFile::with("ui:\n  request_list:\n    auto_expand: true\n");

    let manager = load(&mut file).expect("load");

    assert!(manager.ui_settings().request_list.auto_expand);
    let saved = saved_settings(&file);
    assert!(saved.ui.request_list.auto_expand);
}

#[test]
fn reads_start_record_on_launch_setting() {
    let mut file = ConfigFile::with("recording:\n  start_record_on_launch: false\n");

    let manager = load(&mut file).expect("load");

    assert!(!manager.recording_settings().start_record_on_launch);
    let saved = saved_settings(&file);
    assert!(!saved.recording.start_record_on_launch);
}

#[test]
fn default_config_path_uses_fluxcope_home_dir() {
    let home = HOME.to_string();
    assert_eq!(
        PathBuf::from(HOME).join(".fluxcope/config.yml"),
        PathBuf::from(fluxcope::settings::manager::default_config_path(&home))
    );
}

// ---------------------------------------------------------------- prefilter

#[test]
fn migrates_legacy_prefilter_patterns_and_preserves_flags_and_order() {
    let mut file = ConfigFile::with(
        r#"
recording:
  prefilter:
    enable: false
    include_url_patterns:
      - "https://api.example.com/*"
      - pattern: "*://cdn.example.com/assets/*"
        enable: false
      - pattern: "https://static.example.com/*"
"#,
    );

    let manager = load(&mut file).expect("load");

    assert!(!manager.recording_settings().prefilter.enable);
    assert_eq!(
        manager.recording_settings().prefilter.include_url_patterns,
        vec![
            RecordingPrefilterPatternSettings::new("https://api.example.com/*".to_string()),
            RecordingPrefilterPatternSettings {
                pattern: "*://cdn.example.com/assets/*".to_string(),
                enable: false,
            },
            RecordingPrefilterPatternSettings::new("https://static.example.com/*".to_string()),
        ]
    );
    let saved = file.read();
    let first = saved.find("https://api.example.com/*").expect("first pattern should be serialized");
    let second = saved.find("*://cdn.example.com/assets/*").expect("second pattern should be serialized");
    let third = saved.find("https://static.example.com/*").expect("third pattern should be serialized");
    assert!(first < second && second < third);
    assert_eq!(saved.matches("pattern:").count(), 3);
    assert_eq!(saved.matches("enable: true").count(), 2);
    assert_eq!(saved.matches("enable: false").count(), 2);
}

#[test]
fn ignores_malformed_prefilter_pattern_entries_and_reports_their_indexes() {
    let content = r#"recording:
  prefilter:
    include_url_patterns:
      - enable: true
      - pattern: "https://api.example.com/*"
        enable: false
      - 42
      - "https://legacy.example.com/*"
"#;
    let mut file = ConfigFile::with(content);

    let mut manager = load(&mut file).expect("load");

    assert_eq!(
        manager.recording_settings().prefilter.include_url_patterns,
        vec![
            RecordingPrefilterPatternSettings {
                pattern: "https://api.example.com/*".to_string(),
                enable: false,
            },
            RecordingPrefilterPatternSettings::new("https://legacy.example.com/*".to_string()),
        ]
    );
    let diagnostics = manager.take_load_diagnostics();
    assert_eq!(diagnostics.len(), 2);
    assert!(diagnostics[0].message.contains("[0]"));
    assert!(diagnostics[1].message.contains("[2]"));
    assert_eq!(file.read(), content);

    update(&mut manager, &mut file, |settings| settings.server.port = 9018);
    let repaired = file.yaml();
    let recording = mapping_entry(&repaired, "recording").expect("recording settings should be serialized");
    let prefilter = mapping_entry(recording, "prefilter").expect("prefilter should be serialized");
    let patterns = sequence_entry(prefilter, "include_url_patterns").expect("prefilter patterns should be serialized");
    assert_eq!(patterns.len(), 2);
    assert!(patterns.iter().all(|pattern| mapping_keys(pattern) == vec!["pattern", "enable"]));
}

#[test]
fn preserves_explicit_default_prefilter_fields() {
    let mut file = ConfigFile::with("recording:\n  prefilter:\n    enable: true\n    include_url_patterns: []\n");

    load(&mut file).expect("load");

    let saved = file.read();
    assert!(saved.contains("prefilter:"));
    assert!(saved.contains("enable: true"));
    assert!(saved.contains("include_url_patterns: []"));
}

#[test]
fn malformed_prefilter_is_disabled_without_rewriting_file() {
    let content = "server:\n  port: 9017\nrecording:\n  prefilter: invalid\n";
    let mut file = ConfigFile::with(content);

    let mut manager = load(&mut file).expect("load");

    assert_eq!(manager.server_port(), 9017);
    assert!(!manager.recording_settings().prefilter.enable);
    assert!(manager.recording_settings().prefilter.include_url_patterns.is_empty());
    let diagnostics = manager.take_load_diagnostics();
    assert_eq!(diagnostics.len(), 1);
    assert!(diagnostics[0].message.contains("has been disabled"));
    assert_eq!(file.read(), content);

    update(&mut manager, &mut file, |settings| settings.server.port = 9018);
    let repaired = file.read();
    assert!(repaired.contains("port: 9018"));
    assert!(repaired.contains("prefilter:"));
    assert!(repaired.contains("enable: false"));
    assert!(!repaired.contains("prefilter: invalid"));
}

#[test]
fn malformed_unrelated_setting_still_fails_when_prefilter_is_malformed() {
    let mut file = ConfigFile::with("server:\n  port: invalid\nrecording:\n  prefilter: invalid\n");

    let error = load(&mut file).err().expect("invalid server setting should fail");

    assert_eq!(error.kind(), io::ErrorKind::InvalidData);
}

// ---------------------------------------------------------------- proxy

#[test]
fn reads_optional_proxy_settings_without_filling_empty_sections() {
    let mut file = ConfigFile::with(
        r#"
proxy:
  active_preset: dev
  presets:
    - name: dev
      map_remote:
        rules:
          - from: "https://a.com"
            to: "http://b.test.com"
"#,
    );

    let manager = load(&mut file).expect("load");
    let proxy = manager.proxy_settings().expect("proxy settings should deserialize");

    assert!(proxy.enable);
    assert_eq!(proxy.active_preset.as_deref(), Some("dev"));
    assert_eq!(proxy.presets.len(), 1);
    assert!(proxy.presets[0].map_remote.enable);
    assert_eq!(proxy.presets[0].map_remote.rules.len(), 1);
    assert!(proxy.presets[0].map_remote.rules[0].enable);
    assert!(proxy.presets[0].map_local.rules.is_empty());

    let saved = file.yaml();
    let proxy = mapping_entry(&saved, "proxy").expect("proxy should be serialized");
    assert!(mapping_entry(proxy, "enable").is_none());
    let presets = sequence_entry(proxy, "presets").expect("presets should be serialized");
    let preset = presets.first().expect("preset should be serialized");
    let map_remote = mapping_entry(preset, "map_remote").expect("map_remote should be serialized");
    assert!(mapping_entry(map_remote, "enable").is_none());
    let rules = sequence_entry(map_remote, "rules").expect("rules should be serialized");
    assert!(mapping_entry(&rules[0], "enable").is_none());
    assert!(mapping_entry(preset, "map_local").is_none());
}

#[test]
fn preserves_explicit_default_true_proxy_enable_fields() {
    let mut file = ConfigFile::with(
        r#"
proxy:
  enable: true
  active_preset: dev
  presets:
    - name: dev
      map_remote:
        enable: true
        rules:
          - from: "https://a.com"
            to: "http://b.test.com"
            enable: true
      map_local:
        enable: true
        rules:
          - from: "http://b.test.com"
            to: "~/api.json"
            enable: true
"#,
    );

    load(&mut file).expect("load");

    let saved = file.yaml();
    let proxy = mapping_entry(&saved, "proxy").expect("proxy should be serialized");
    assert_eq!(bool_entry(proxy, "enable"), Some(true));
    let presets = sequence_entry(proxy, "presets").expect("presets should be serialized");
    let preset = presets.first().expect("preset should be serialized");
    let map_remote = mapping_entry(preset, "map_remote").expect("map_remote should be serialized");
    assert_eq!(bool_entry(map_remote, "enable"), Some(true));
    let remote_rules = sequence_entry(map_remote, "rules").expect("remote rules should be serialized");
    assert_eq!(bool_entry(&remote_rules[0], "enable"), Some(true));
    let map_local = mapping_entry(preset, "map_local").expect("map_local should be serialized");
    assert_eq!(mapping_keys(map_local), vec!["enable", "rules"]);
    assert_eq!(bool_entry(map_local, "enable"), Some(true));
    let local_rules = sequence_entry(map_local, "rules").expect("local rules should be serialized");
    assert_eq!(bool_entry(&local_rules[0], "enable"), Some(true));
}

#[test]
fn preserves_existing_mapping_order_at_all_config_levels() {
    let mut file = ConfigFile::with(
        r#"
proxy:
  presets:
    - map_local:
        enable: true
        rules:
          - to: "~/api.json"
            enable: true
            from: "http://b.test.com"
      map_remote:
        rules:
          - enable: true
            to: "http://b.test.com"
            from: "https://a.com"
        enable: true
      name: dev
  active_preset: dev
  enable: true
server:
  port: 9000
"#,
    );

    load(&mut file).expect("load");

    let saved = file.yaml();
    let root_keys = mapping_keys(&saved);
    assert!(root_keys.starts_with(&["proxy", "server"]));
    assert!(root_keys.contains(&"certificate"));
    assert!(root_keys.contains(&"recording"));
    assert!(root_keys.contains(&"ui"));
    let proxy = mapping_entry(&saved, "proxy").expect("proxy should be serialized");
    assert_eq!(mapping_keys(proxy), vec!["presets", "active_preset", "enable"]);
    let presets = sequence_entry(proxy, "presets").expect("presets should be serialized");
    let preset = presets.first().expect("preset should be serialized");
    assert_eq!(mapping_keys(preset), vec!["map_local", "map_remote", "name"]);

    let map_local = mapping_entry(preset, "map_local").expect("map_local should be serialized");
    assert_eq!(mapping_keys(map_local), vec!["enable", "rules"]);
    let local_rules = sequence_entry(map_local, "rules").expect("local rule should exist");
    assert_eq!(mapping_keys(&local_rules[0]), vec!["to", "enable", "from"]);

    let map_remote = mapping_entry(preset, "map_remote").expect("map_remote should be serialized");
    assert_eq!(mapping_keys(map_remote), vec!["rules", "enable"]);
    let remote_rules = sequence_entry(map_remote, "rules").expect("remote rule should exist");
    assert_eq!(mapping_keys(&remote_rules[0]), vec!["enable", "to", "from"]);
}

#[test]
fn preserves_present_default_proxy_fields_across_value_types() {
    let mut file = ConfigFile::with(
        r#"
proxy:
  enable: true
  active_preset: null
  presets:
    - name: ""
      map_remote:
        enable: true
        rules: []
      map_local: {}
"#,
    );

    load(&mut file).expect("load");

    let saved = file.yaml();
    let proxy = mapping_entry(&saved, "proxy").expect("proxy should be serialized");
    assert_eq!(bool_entry(proxy, "enable"), Some(true));
    assert!(matches!(mapping_entry(proxy, "active_preset"), Some(serde_yaml::Value::Null)));
    let presets = sequence_entry(proxy, "presets").expect("presets should be serialized");
    let preset = presets.first().expect("preset should be serialized");
    assert_eq!(string_entry(preset, "name"), Some(""));
    let map_remote = mapping_entry(preset, "map_remote").expect("map_remote should be serialized");
    assert_eq!(bool_entry(map_remote, "enable"), Some(true));
    assert_eq!(sequence_entry(map_remote, "rules").map(Vec::len), Some(0));
    let map_local = mapping_entry(preset, "map_local").expect("map_local should be preserved");
    assert!(matches!(map_local, serde_yaml::Value::Mapping(mapping) if mapping.is_empty()));
}

#[test]
fn does_not_restore_previous_config_that_changes_settings() {
    let mut file = ConfigFile::with(
        r#"
proxy:
  active_preset: dev
  presets:
    - name: dev
"#,
    );

    let mut manager = load(&mut file).expect("load");
    update(&mut manager, &mut file, |settings| {
        settings.proxy = None;
    });

    let saved = file.yaml();
    assert!(mapping_entry(&saved, "proxy").is_none());
}

#[test]
fn explicit_enable_flags_are_written_on_proxy_remote_tables_and_their_rules() {
    let text = "proxy:\n  presets:\n  - name: a\n    map_remote:\n      rules:\n      - from: https://a.example\n        to: https://b.example\n      - not a rule\n    map_local:\n      rules: []\n  - plain\nserver:\n  port: 1\n";
    let mut doc = parse_yaml_text(text).unwrap();
    fluxcope::settings::defaults::add_explicit_default_enable_fields(&mut doc);
    let expected = "proxy:\n  presets:\n  - name: a\n    map_remote:\n      rules:\n      - from: https://a.example\n        to: https://b.example\n        enable: true\n      - not a rule\n      enable: true\n    map_local:\n      rules: []\n  - plain\n  enable: true\nserver:\n  port: 1\n";
    let expected: serde_yaml::Value = serde_yaml::from_str(expected).unwrap();
    assert_eq!(from_yaml(&doc), expected);
    let rendered = serde_yaml::to_string(&from_yaml(&doc)).unwrap();
    assert!(rendered.starts_with("proxy:\n  presets:"), "{rendered}");
    assert!(rendered.contains("  enable: true\nserver:"), "{rendered}");
}

#[test]
fn explicit_enable_flags_leave_a_document_without_proxy_unchanged_and_replace_false() {
    let mut doc = parse_yaml_text("server:\n  port: 1\n").unwrap();
    let before = from_yaml(&doc);
    fluxcope::settings::defaults::add_explicit_default_enable_fields(&mut doc);
    assert_eq!(from_yaml(&doc), before);

    let mut doc = parse_yaml_text("proxy:\n  enable: false\n  presets: []\n").unwrap();
    fluxcope::settings::defaults::add_explicit_default_enable_fields(&mut doc);
    let rendered = serde_yaml::to_string(&from_yaml(&doc)).unwrap();
    assert_eq!(rendered, "proxy:\n  enable: true\n  presets: []\n");
}

#[test]
fn settings_text_is_missing_blank_invalid_or_a_document() {
    use_text_cases();
}

fn use_text_cases() {
    let missing = SettingsManager::load_from_text("/c.yml".into(), None).expect("missing file");
    assert!(missing.1.is_some());
    let blank = SettingsManager::load_from_text("/c.yml".into(), Some(" \n\t")).expect("blank file");
    assert!(blank.1.is_some());
    assert_eq!(blank.0.server_port(), DEFAULT_PROXY_PORT);
    let invalid = SettingsManager::load_from_text("/c.yml".into(), Some("server: ["));
    let expected = serde_yaml::from_str::<serde_yaml::Value>("server: [").unwrap_err().to_string();
    assert_eq!(invalid.err().map(|e| e.message), Some(expected));
    let (manager, write) = SettingsManager::load_from_text("/c.yml".into(), Some("server:\n  port: 9100\n")).expect("document");
    assert_eq!(manager.server_port(), 9100);
    assert!(write.is_some());
    assert!(matches!(stored_from_text(None), Ok(StoredSettings::Missing)));
    assert!(matches!(stored_from_text(Some("")), Ok(StoredSettings::Blank)));
    assert!(matches!(stored_from_text(Some("  \n")), Ok(StoredSettings::Blank)));
    assert!(matches!(stored_from_text(Some("port: 1\n")), Ok(StoredSettings::Document(_))));
}

#[test]
fn yaml_text_parse_keeps_numbers_as_their_text_and_mappings_in_order() {
    let doc = parse_yaml_text("b: 7\na: [1.5, -2, x]\n").expect("a document");
    let expected = YamlValue::Mapping(vec![
        YamlEntry { key: YamlValue::String("b".into()), value: YamlValue::Number(YamlNumber::Text("7".into())) },
        YamlEntry {
            key: YamlValue::String("a".into()),
            value: YamlValue::Sequence(vec![
                YamlValue::Number(YamlNumber::Text("1.5".into())),
                YamlValue::Number(YamlNumber::Text("-2".into())),
                YamlValue::String("x".into()),
            ]),
        },
    ]);
    assert_eq!(doc, expected);
    assert!(parse_yaml_text("a: [").is_err());
}

#[test]
fn a_port_written_as_a_float_or_a_negative_number_is_refused() {
    assert!(SettingsManager::load_from_text("/c.yml".into(), Some("server:\n  port: 8080.0\n")).is_err());
    assert!(SettingsManager::load_from_text("/c.yml".into(), Some("server:\n  port: -1\n")).is_err());
    assert!(SettingsManager::load_from_text("/c.yml".into(), Some("server:\n  port: 65536\n")).is_err());
    let (manager, _) = SettingsManager::load_from_text("/c.yml".into(), Some("server:\n  port: 65535\n")).expect("a port");
    assert_eq!(manager.server_port(), 65535);
}

#[test]
fn writing_back_keeps_every_top_level_key_and_adds_the_previous_ones() {
    let mut settings = AppSettings::default();
    settings.server.port = 9200;
    let previous = parse_yaml_text("ui:\n  request_list:\n    auto_expand: false\nserver:\n  port: 1\n").unwrap();
    let written = from_yaml(&settings_document(&settings, Some(previous)));
    let keys: Vec<String> = written
        .as_mapping()
        .expect("a mapping")
        .keys()
        .map(|k| k.as_str().expect("a string key").to_string())
        .collect();
    assert_eq!(keys.first().map(String::as_str), Some("ui"));
    assert!(keys.contains(&"server".to_string()));
    assert_eq!(written["server"]["port"], serde_yaml::Value::from(9200));
}

#[test]
fn writing_back_puts_shared_keys_first_in_the_previous_order_at_every_depth() {
    let mut settings = AppSettings::default();
    settings.server.port = 9300;
    let previous = parse_yaml_text("ui:\n  request_list:\n    auto_expand: false\nserver:\n  port: 1\nmcp:\n  enable: false\n")
        .unwrap();
    let written = from_yaml(&settings_document(&settings, Some(previous)));
    let keys: Vec<String> = written
        .as_mapping()
        .expect("a mapping")
        .keys()
        .map(|k| k.as_str().expect("a string key").to_string())
        .collect();
    assert_eq!(&keys[..3], ["ui", "server", "mcp"]);
    assert_eq!(written["server"]["port"], serde_yaml::Value::from(9300));
    assert_eq!(written["ui"]["request_list"]["auto_expand"], serde_yaml::Value::from(false));
}
