use fluxcope::settings::manager::StoredSettings;
use fluxcope::settings::model::{
    AppSettings, ProxyMapRemoteRule, ProxyMapRemoteSettings, ProxyPresetSettings, ProxySettings,
    RecordingPrefilterPatternSettings,
};
use fluxcope::settings::session::{
    ConfigMode, ConfigSource, PersistenceMode, SettingsCommitError, SettingsCommitPhase, SettingsCommitter,
    SettingsSession, SettingsUiContext,
};
use fluxcope::yaml::{YamlEntry, YamlNumber, YamlValue};

fn port_document(port: u64) -> YamlValue {
    YamlValue::Mapping(vec![YamlEntry {
        key: YamlValue::String("server".to_string()),
        value: YamlValue::Mapping(vec![YamlEntry {
            key: YamlValue::String("port".to_string()),
            value: YamlValue::Number(YamlNumber::PosInt(port)),
        }]),
    }])
}

#[test]
fn temporary_sessions_use_the_port_and_are_never_written() {
    let (mut session, write) = SettingsSession::load(ConfigSource::Temporary { port: 9555 }).expect("temporary");
    assert!(write.is_none());
    assert_eq!(session.snapshot().server.port, 9555);
    assert_eq!(
        session.ui_context(),
        SettingsUiContext { config_mode: ConfigMode::Temporary, persistence: PersistenceMode::Ephemeral }
    );
    assert!(session.source_path().is_none());
    let mut next = session.snapshot();
    next.server.port = 9556;
    assert_eq!(session.commit_document(&next, None), Ok(None));
    assert_eq!(session.commit(next), PersistenceMode::Ephemeral);
    assert_eq!(session.snapshot().server.port, 9556);
    assert!(session.take_load_diagnostics().is_empty());
}

#[test]
fn read_only_files_load_but_are_never_written() {
    let (session, write) = SettingsSession::load(ConfigSource::ReadOnlyFile {
        path: "/etc/fluxcope.yml".to_string(),
        stored: StoredSettings::Document(port_document(9300)),
    })
    .expect("read only");
    assert!(write.is_none());
    assert_eq!(session.snapshot().server.port, 9300);
    assert_eq!(session.ui_context().persistence, PersistenceMode::Ephemeral);
    assert_eq!(session.source_path().map(|p| p.as_str()), Some("/etc/fluxcope.yml"));
}

#[test]
fn default_sessions_are_persistent_and_write_their_document() {
    let (session, write) = SettingsSession::load(ConfigSource::DefaultOwned {
        path: "/home/u/.fluxcope/config.yml".to_string(),
        stored: StoredSettings::Missing,
    })
    .expect("default");
    assert!(write.is_some());
    assert_eq!(session.ui_context(), SettingsUiContext::default());
    let (settings, context, committer) = session.into_runtime_parts();
    assert_eq!(settings, AppSettings::default());
    assert_eq!(context.persistence, PersistenceMode::Persistent);
    assert_eq!(committer.persistence(), PersistenceMode::Persistent);
}

#[test]
fn a_prepared_commit_begins_once_and_completes_after_its_write() {
    let committer = SettingsCommitter::new(PersistenceMode::Persistent, Some("/tmp/config.yml".to_string()));
    let mut prepared = committer.prepare(AppSettings::default(), None).expect("prepared");
    assert_eq!(prepared.phase(), SettingsCommitPhase::PreCommit);
    assert!(prepared.pending_write().is_some());
    assert_eq!(prepared.commit_to_completion(true).unwrap_err(), SettingsCommitError::NotStarted);
    prepared.begin_commit().expect("begun");
    assert_eq!(prepared.begin_commit().unwrap_err(), SettingsCommitError::AlreadyStarted);
    assert_eq!(prepared.commit_to_completion(false).unwrap_err(), SettingsCommitError::WriteFailed);
    assert_eq!(prepared.phase(), SettingsCommitPhase::Committing);
    let committed = prepared.commit_to_completion(true).expect("committed");
    assert_eq!(committed.persistence, PersistenceMode::Persistent);
    assert_eq!(prepared.phase(), SettingsCommitPhase::Committed);

    let orphan = SettingsCommitter::new(PersistenceMode::Persistent, None);
    assert_eq!(orphan.prepare(AppSettings::default(), None).unwrap_err(), SettingsCommitError::NoSourcePath);
}

#[test]
fn save_settings_draft_commits_and_replaces_request_policy() {
    let mut session = SettingsSession::temporary(AppSettings::default());
    let mut draft = AppSettings::default();
    draft.server.port = 9013;
    draft.recording.prefilter.include_url_patterns =
        vec![RecordingPrefilterPatternSettings::new("http://mapped.example.com:80/*".to_string())];
    draft.proxy = Some(ProxySettings {
        enable: true,
        active_preset: Some("test".to_string()),
        presets: vec![ProxyPresetSettings {
            name: "test".to_string(),
            map_remote: ProxyMapRemoteSettings {
                enable: true,
                rules: vec![ProxyMapRemoteRule {
                    from: "https://api.example.com".to_string(),
                    to: "http://mapped.example.com".to_string(),
                    enable: true,
                }],
            },
            ..ProxyPresetSettings::default()
        }],
    });

    assert_eq!(session.commit(draft), PersistenceMode::Ephemeral);
    let saved = session.snapshot();

    assert_eq!(9013, saved.server.port);
    assert_eq!(session.snapshot().server.port, 9013);
}
