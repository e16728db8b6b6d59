use vstd::prelude::*;
use crate::settings::document::{SettingsLoadDiagnostic, SettingsLoadError, deserialize_settings_tolerantly, messages_of};
use crate::settings::manager::{
    SettingsManager, StoredSettings, SettingsPathError, stored_document, loaded_settings, expand_home_path,
    expand_home_spec, diagnostics_view, stored_report,
};
use crate::settings::model::{AppSettings, AppSettingsView, RecordingSettings, default_settings};
use crate::settings::preserve::{settings_document, settings_document_spec};
use crate::yaml::{YamlValue, YamlView};

verus! {

/// Which configuration the program runs with.
#[derive(Clone, Copy, Debug, PartialEq, Eq, Structural)]
pub enum ConfigMode {
    /// The default configuration file, owned by this instance.
    DefaultOwned,
    /// A configuration file that is read and never written.
    ReadOnlyFile,
    /// Settings that live only as long as the program.
    Temporary,
}

/// Whether committed settings are written to their file.
#[derive(Clone, Copy, Debug, PartialEq, Eq, Structural)]
pub enum PersistenceMode {
    Persistent,
    Ephemeral,
}

/// What the settings screen is told about the configuration.
#[derive(Clone, Copy, Debug, PartialEq, Eq, Structural)]
pub struct SettingsUiContext {
    pub config_mode: ConfigMode,
    pub persistence: PersistenceMode,
}

impl Default for SettingsUiContext {
    fn default() -> (r: Self)
        ensures
            r.config_mode == ConfigMode::DefaultOwned,
            r.persistence == PersistenceMode::Persistent,
    {
        SettingsUiContext { config_mode: ConfigMode::DefaultOwned, persistence: PersistenceMode::Persistent }
    }
}

/// Where the settings come from, with what the file holds where there is one.
#[derive(Debug)]
pub enum ConfigSource {
    DefaultOwned { path: String, stored: StoredSettings },
    ReadOnlyFile { path: String, stored: StoredSettings },
    Temporary { port: u16 },
}

/// Why settings could not be committed.
#[derive(Clone, Copy, Debug, PartialEq, Eq, Structural)]
pub enum SettingsCommitError {
    /// Persistent settings have nowhere to be written.
    NoSourcePath,
    /// The commit was begun already.
    AlreadyStarted,
    /// The commit was not begun.
    NotStarted,
    /// Writing the file failed.
    WriteFailed,
}

/// The settings the program runs with, where they come from, and what loading them found.
#[derive(Debug)]
pub struct SettingsSession {
    settings: AppSettings,
    mode: ConfigMode,
    persistence: PersistenceMode,
    source_path: Option<String>,
    load_diagnostics: Vec<SettingsLoadDiagnostic>,
}

pub struct SessionView {
    pub settings: AppSettingsView,
    pub mode: ConfigMode,
    pub persistence: PersistenceMode,
    pub source_path: Option<Seq<char>>,
    pub diagnostics: Seq<Seq<char>>,
}

impl View for SettingsSession {
    type V = SessionView;

    closed spec fn view(&self) -> SessionView {
        SessionView {
            settings: self.settings@,
            mode: self.mode,
            persistence: self.persistence,
            source_path: match self.source_path {
                Some(p) => Some(p@),
                None => None,
            },
            diagnostics: diagnostics_view(self.load_diagnostics@),
        }
    }
}

pub open spec fn with_port(s: AppSettingsView, port: u16) -> AppSettingsView {
    AppSettingsView { server: crate::settings::model::ServerSettings { port }, ..s }
}

/// The settings a read-only file loads as: blank or missing files hold the defaults.
pub open spec fn read_only_settings(stored: Option<YamlView>) -> Option<AppSettingsView> {
    loaded_settings(stored)
}

impl SettingsSession {
    /// Loads the settings of a configuration. The default configuration is loaded as the
    /// settings manager loads it, and gives back what it asks to write; a read-only file is
    /// loaded alike but never written; temporary settings are the defaults with the port.
    pub fn load(source: ConfigSource) -> (r: Result<(SettingsSession, Option<YamlValue>), SettingsLoadError>)
        ensures
            match source {
                ConfigSource::DefaultOwned { path, stored } => match r {
                    Ok((s, write)) => {
                        &&& loaded_settings(stored_document(stored)) == Some(s@.settings)
                        &&& s@.mode == ConfigMode::DefaultOwned
                        &&& s@.persistence == PersistenceMode::Persistent
                        &&& s@.source_path == Some(path@)
                        &&& stored_report(stored_document(stored), s@.diagnostics)
                        &&& match write {
                            Some(doc) => s@.diagnostics.len() == 0 && doc@ == settings_document_spec(
                                s@.settings,
                                stored_document(stored),
                            ),
                            None => s@.diagnostics.len() > 0,
                        }
                    },
                    Err(_) => loaded_settings(stored_document(stored)) is None,
                },
                ConfigSource::ReadOnlyFile { path, stored } => match r {
                    Ok((s, write)) => {
                        &&& read_only_settings(stored_document(stored)) == Some(s@.settings)
                        &&& s@.mode == ConfigMode::ReadOnlyFile
                        &&& s@.persistence == PersistenceMode::Ephemeral
                        &&& s@.source_path == Some(path@)
                        &&& stored_report(stored_document(stored), s@.diagnostics)
                        &&& write is None
                    },
                    Err(_) => read_only_settings(stored_document(stored)) is None,
                },
                ConfigSource::Temporary { port } => match r {
                    Ok((s, write)) => {
                        &&& s@.settings == with_port(default_settings(), port)
                        &&& s@.mode == ConfigMode::Temporary
                        &&& s@.persistence == PersistenceMode::Ephemeral
                        &&& s@.source_path is None
                        &&& s@.diagnostics.len() == 0
                        &&& write is None
                    },
                    Err(_) => false,
                },
            },
    {
        match source {
            ConfigSource::DefaultOwned { path, stored } => {
                let source_path = path.clone();
                let (mut manager, write) = SettingsManager::load_from_path(path, stored)?;
                let load_diagnostics = manager.take_load_diagnostics();
                let settings = manager.settings().clone();
                Ok((
                    SettingsSession {
                        settings,
                        mode: ConfigMode::DefaultOwned,
                        persistence: PersistenceMode::Persistent,
                        source_path: Some(source_path),
                        load_diagnostics,
                    },
                    write,
                ))
            },
            ConfigSource::ReadOnlyFile { path, stored } => {
                let (settings, load_diagnostics) = match stored {
                    StoredSettings::Document(doc) => deserialize_settings_tolerantly(doc)?,
                    _ => (AppSettings::default(), Vec::new()),
                };
                assert(diagnostics_view(load_diagnostics@) =~= messages_of(load_diagnostics@));
                Ok((
                    SettingsSession {
                        settings,
                        mode: ConfigMode::ReadOnlyFile,
                        persistence: PersistenceMode::Ephemeral,
                        source_path: Some(path),
                        load_diagnostics,
                    },
                    None,
                ))
            },
            ConfigSource::Temporary { port } => {
                let mut settings = AppSettings::default();
                settings.server.port = port;
                Ok((Self::temporary(settings), None))
            },
        }
    }

    /// Settings that live only as long as the program.
    pub fn temporary(settings: AppSettings) -> (r: Self)
        ensures
            r@.settings == settings@,
            r@.mode == ConfigMode::Temporary,
            r@.persistence == PersistenceMode::Ephemeral,
            r@.source_path is None,
            r@.diagnostics.len() == 0,
    {
        let r = SettingsSession {
            settings,
            mode: ConfigMode::Temporary,
            persistence: PersistenceMode::Ephemeral,
            source_path: None,
            load_diagnostics: Vec::new(),
        };
        assert(diagnostics_view(r.load_diagnostics@) =~= Seq::<Seq<char>>::empty());
        r
    }

    /// A copy of the current settings.
    pub fn snapshot(&self) -> (r: AppSettings)
        ensures
            r@ == self@.settings,
    {
        self.settings.clone()
    }

    /// The document to write before committing `candidate`: `None` for settings that are not
    /// written; an error for persistent settings without a file.
    pub fn commit_document(&self, candidate: &AppSettings, on_disk: Option<YamlValue>) -> (r: Result<
        Option<YamlValue>,
        SettingsCommitError,
    >)
        ensures
            self@.persistence == PersistenceMode::Persistent ==> match r {
                Ok(Some(doc)) => self@.source_path is Some && doc@ == settings_document_spec(
                    candidate@,
                    match on_disk {
                        Some(d) => Some(d@),
                        None => None,
                    },
                ),
                Ok(None) => false,
                Err(e) => self@.source_path is None && e == SettingsCommitError::NoSourcePath,
            },
            self@.persistence == PersistenceMode::Ephemeral ==> r == Ok::<Option<YamlValue>, SettingsCommitError>(None),
    {
        match self.persistence {
            PersistenceMode::Persistent => {
                if self.source_path.is_none() {
                    return Err(SettingsCommitError::NoSourcePath);
                }
                Ok(Some(settings_document(candidate, on_disk)))
            },
            PersistenceMode::Ephemeral => Ok(None),
        }
    }

    /// Takes `candidate` as the settings once its document, if any, is written.
    pub fn commit(&mut self, candidate: AppSettings) -> (r: PersistenceMode)
        ensures
            r == old(self)@.persistence,
            final(self)@ == (SessionView { settings: candidate@, ..old(self)@ }),
    {
        self.settings = candidate;
        self.persistence
    }

    pub fn source_path(&self) -> (r: Option<&String>)
        ensures
            match r {
                Some(p) => self@.source_path == Some(p@),
                None => self@.source_path is None,
            },
    {
        self.source_path.as_ref()
    }

    pub fn ui_context(&self) -> (r: SettingsUiContext)
        ensures
            r.config_mode == self@.mode,
            r.persistence == self@.persistence,
    {
        SettingsUiContext { config_mode: self.mode, persistence: self.persistence }
    }

    /// Hands over the settings, what the settings screen is told, and the committer.
    pub fn into_runtime_parts(self) -> (r: (AppSettings, SettingsUiContext, SettingsCommitter))
        ensures
            r.0@ == self@.settings,
            r.1.config_mode == self@.mode,
            r.1.persistence == self@.persistence,
            r.2@.persistence == self@.persistence,
            r.2@.source_path == self@.source_path,
    {
        let context = SettingsUiContext { config_mode: self.mode, persistence: self.persistence };
        let committer = SettingsCommitter { persistence: self.persistence, source_path: self.source_path };
        (self.settings, context, committer)
    }

    /// Hands over the problems met while loading; none are left behind.
    pub fn take_load_diagnostics(&mut self) -> (r: Vec<SettingsLoadDiagnostic>)
        ensures
            diagnostics_view(r@) == old(self)@.diagnostics,
            final(self)@ == (SessionView { diagnostics: Seq::empty(), ..old(self)@ }),
    {
        let mut taken: Vec<SettingsLoadDiagnostic> = Vec::new();
        std::mem::swap(&mut taken, &mut self.load_diagnostics);
        assert(diagnostics_view(self.load_diagnostics@) =~= Seq::<Seq<char>>::empty());
        taken
    }

    /// The certificate directory, with a leading `~` expanded to the home directory `home`.
    pub fn certificate_store_dir(&self, home: Option<&String>) -> (r: Result<String, SettingsPathError>)
        ensures
            match r {
                Ok(p) => expand_home_spec(self@.settings.certificate.store_dir, match home {
                    Some(h) => Some(h@),
                    None => None,
                }) == Some(p@),
                Err(_) => expand_home_spec(self@.settings.certificate.store_dir, match home {
                    Some(h) => Some(h@),
                    None => None,
                }) is None,
            },
    {
        expand_home_path(&self.settings.certificate.store_dir, home)
    }

    pub fn certificate_pem_filename(&self) -> (r: &str)
        ensures
            r@ == self@.settings.certificate.pem_filename,
    {
        self.settings.certificate.pem_filename.as_str()
    }

    pub fn recording_settings(&self) -> (r: &RecordingSettings)
        ensures
            r@ == self@.settings.recording,
    {
        &self.settings.recording
    }
}

// ---------------------------------------------------------------- committing

/// Commits settings the way the configuration asks: to its file, or only in memory.
#[derive(Debug)]
pub struct SettingsCommitter {
    persistence: PersistenceMode,
    source_path: Option<String>,
}

pub struct CommitterView {
    pub persistence: PersistenceMode,
    pub source_path: Option<Seq<char>>,
}

impl View for SettingsCommitter {
    type V = CommitterView;

    closed spec fn view(&self) -> CommitterView {
        CommitterView {
            persistence: self.persistence,
            source_path: match self.source_path {
                Some(p) => Some(p@),
                None => None,
            },
        }
    }
}

/// How far a prepared commit has come.
#[derive(Clone, Copy, Debug, PartialEq, Eq, Structural)]
pub enum SettingsCommitPhase {
    PreCommit,
    Committing,
    Committed,
}

/// A commit whose document is ready to be put in place.
#[derive(Debug)]
pub struct PreparedSettingsCommit {
    phase: SettingsCommitPhase,
    persistence: PersistenceMode,
    settings: AppSettings,
    source_path: Option<String>,
    document: Option<YamlValue>,
}

pub struct PreparedView {
    pub phase: SettingsCommitPhase,
    pub persistence: PersistenceMode,
    pub settings: AppSettingsView,
    pub source_path: Option<Seq<char>>,
    pub document: Option<YamlView>,
}

impl View for PreparedSettingsCommit {
    type V = PreparedView;

    closed spec fn view(&self) -> PreparedView {
        PreparedView {
            phase: self.phase,
            persistence: self.persistence,
            settings: self.settings@,
            source_path: match self.source_path {
                Some(p) => Some(p@),
                None => None,
            },
            document: match self.document {
                Some(d) => Some(d@),
                None => None,
            },
        }
    }
}

/// Settings that were committed, and whether they were written.
#[derive(Debug)]
pub struct CommittedSettings {
    pub settings: AppSettings,
    pub persistence: PersistenceMode,
}

impl SettingsCommitter {
    pub fn new(persistence: PersistenceMode, source_path: Option<String>) -> (r: Self)
        ensures
            r@.persistence == persistence,
            r@.source_path == match source_path {
                Some(p) => Some(p@),
                None => None::<Seq<char>>,
            },
    {
        SettingsCommitter { persistence, source_path }
    }

    pub fn persistence(&self) -> (r: PersistenceMode)
        ensures
            r == self@.persistence,
    {
        self.persistence
    }

    /// Prepares the commit of `settings`: for persistent settings, the document to write,
    /// given what the file holds now; persistent settings without a file are refused.
    pub fn prepare(&self, settings: AppSettings, on_disk: Option<YamlValue>) -> (r: Result<
        PreparedSettingsCommit,
        SettingsCommitError,
    >)
        ensures
            match r {
                Ok(p) => {
                    &&& p@.phase == SettingsCommitPhase::PreCommit
                    &&& p@.persistence == self@.persistence
                    &&& p@.settings == settings@
                    &&& p@.source_path == self@.source_path
                    &&& p@.document == if self@.persistence == PersistenceMode::Persistent {
                        Some(settings_document_spec(settings@, match on_disk {
                            Some(d) => Some(d@),
                            None => None,
                        }))
                    } else {
                        None::<YamlView>
                    }
                    &&& (self@.persistence == PersistenceMode::Persistent ==> self@.source_path is Some)
                },
                Err(e) => self@.persistence == PersistenceMode::Persistent && self@.source_path is None
                    && e == SettingsCommitError::NoSourcePath,
            },
    {
        let document = match self.persistence {
            PersistenceMode::Persistent => {
                if self.source_path.is_none() {
                    return Err(SettingsCommitError::NoSourcePath);
                }
                Some(settings_document(&settings, on_disk))
            },
            PersistenceMode::Ephemeral => None,
        };
        let source_path = match &self.source_path {
            Some(p) => Some(p.clone()),
            None => None,
        };
        Ok(PreparedSettingsCommit {
            phase: SettingsCommitPhase::PreCommit,
            persistence: self.persistence,
            settings,
            source_path,
            document,
        })
    }
}

impl PreparedSettingsCommit {
    pub fn phase(&self) -> (r: SettingsCommitPhase)
        ensures
            r == self@.phase,
    {
        self.phase
    }

    pub fn persistence(&self) -> (r: PersistenceMode)
        ensures
            r == self@.persistence,
    {
        self.persistence
    }

    /// The document to put in place, and where, while the commit writes one.
    pub fn pending_write(&self) -> (r: Option<(&String, &YamlValue)>)
        ensures
            match r {
                Some((path, doc)) => self@.source_path == Some(path@) && self@.document == Some(doc@),
                None => self@.source_path is None || self@.document is None,
            },
    {
        match (&self.source_path, &self.document) {
            (Some(path), Some(doc)) => Some((path, doc)),
            _ => None,
        }
    }

    /// Starts the commit; a commit starts once.
    pub fn begin_commit(&mut self) -> (r: Result<(), SettingsCommitError>)
        ensures
            match r {
                Ok(()) => old(self)@.phase == SettingsCommitPhase::PreCommit
                    && final(self)@ == (PreparedView { phase: SettingsCommitPhase::Committing, ..old(self)@ }),
                Err(e) => old(self)@.phase != SettingsCommitPhase::PreCommit && e == SettingsCommitError::AlreadyStarted
                    && final(self)@ == old(self)@,
            },
    {
        if self.phase != SettingsCommitPhase::PreCommit {
            return Err(SettingsCommitError::AlreadyStarted);
        }
        self.phase = SettingsCommitPhase::Committing;
        Ok(())
    }

    /// Ends a started commit, once the document, if any, is in place (`written`). A commit
    /// with a document and no file, or whose document could not be put in place, does not end.
    pub fn commit_to_completion(&mut self, written: bool) -> (r: Result<CommittedSettings, SettingsCommitError>)
        ensures
            match r {
                Ok(c) => {
                    &&& old(self)@.phase == SettingsCommitPhase::Committing
                    &&& (old(self)@.document is Some ==> old(self)@.source_path is Some && written)
                    &&& c.settings@ == old(self)@.settings
                    &&& c.persistence == old(self)@.persistence
                    &&& final(self)@ == (PreparedView { phase: SettingsCommitPhase::Committed, ..old(self)@ })
                },
                Err(e) => {
                    &&& final(self)@ == old(self)@
                    &&& e == if old(self)@.phase != SettingsCommitPhase::Committing {
                        SettingsCommitError::NotStarted
                    } else if old(self)@.source_path is None {
                        SettingsCommitError::NoSourcePath
                    } else {
                        SettingsCommitError::WriteFailed
                    }
                    &&& (old(self)@.phase == SettingsCommitPhase::Committing ==> old(self)@.document is Some)
                },
            },
    {
        if self.phase != SettingsCommitPhase::Committing {
            return Err(SettingsCommitError::NotStarted);
        }
        if self.document.is_some() {
            if self.source_path.is_none() {
                return Err(SettingsCommitError::NoSourcePath);
            }
            if !written {
                return Err(SettingsCommitError::WriteFailed);
            }
        }
        self.phase = SettingsCommitPhase::Committed;
        Ok(CommittedSettings { settings: self.settings.clone(), persistence: self.persistence })
    }
}

} // verus!
