use vstd::prelude::*;
use crate::settings::document::{
    SettingsLoadDiagnostic, SettingsLoadError, load_report, messages_of, deserialize_settings_tolerantly, tolerant_settings_spec,
};
use crate::settings::model::{
    AppSettings, AppSettingsView, RecordingSettings, UiSettings, ProxySettings, ServerSettings,
    default_settings,
};
use crate::settings::preserve::{settings_document, settings_document_spec};
use crate::text::{trim, trim_spec};
use crate::yaml::{YamlValue, YamlView, clone_yaml, parse_yaml_text, yaml_text_parse};

verus! {

/// What the settings file holds when it is read.
#[derive(Debug)]
pub enum StoredSettings {
    /// There is no file.
    Missing,
    /// The file holds nothing but white space.
    Blank,
    /// The file holds this document.
    Document(YamlValue),
}

pub open spec fn stored_document(stored: StoredSettings) -> Option<YamlView> {
    match stored {
        StoredSettings::Document(d) => Some(d@),
        _ => None,
    }
}

/// Why a path could not be worked out.
#[derive(Debug, PartialEq, Eq, Structural)]
pub enum SettingsPathError {
    /// The path starts at the home directory and there is none.
    HomeNotSet,
}

/// The settings of one configuration file, as loaded and as updated since.
pub struct SettingsManager {
    path: String,
    settings: AppSettings,
    load_diagnostics: Vec<SettingsLoadDiagnostic>,
}

pub struct ManagerView {
    pub path: Seq<char>,
    pub settings: AppSettingsView,
    pub diagnostics: Seq<Seq<char>>,
}

pub open spec fn diagnostics_view(d: Seq<SettingsLoadDiagnostic>) -> Seq<Seq<char>> {
    d.map_values(|x: SettingsLoadDiagnostic| x.message@)
}

/// The problems loading what a file holds reports: those of its document as `load_report`
/// tells, and none where it holds no document.
pub open spec fn stored_report(stored: Option<YamlView>, messages: Seq<Seq<char>>) -> bool {
    match stored {
        Some(d) => load_report(d, messages),
        None => messages.len() == 0,
    }
}

impl View for SettingsManager {
    type V = ManagerView;

    closed spec fn view(&self) -> ManagerView {
        ManagerView {
            path: self.path@,
            settings: self.settings@,
            diagnostics: diagnostics_view(self.load_diagnostics@),
        }
    }
}

/// The settings a stored file loads as; `None` where the file does not read as settings.
pub open spec fn loaded_settings(stored: Option<YamlView>) -> Option<AppSettingsView> {
    match stored {
        Some(d) => tolerant_settings_spec(d),
        None => Some(default_settings()),
    }
}

// ---------------------------------------------------------------- home-relative paths

pub open spec fn join_path(base: Seq<char>, rest: Seq<char>) -> Seq<char> {
    if rest.len() > 0 && rest[0] == '/' {
        rest
    } else if base.len() == 0 {
        rest
    } else if base.last() == '/' {
        base + rest
    } else {
        base + seq!['/'] + rest
    }
}

/// `~` names the home directory and `~/rest` a path below it; other paths stand as written.
pub open spec fn expand_home_spec(path: Seq<char>, home: Option<Seq<char>>) -> Option<Seq<char>> {
    if path == seq!['~'] {
        home
    } else if path.len() >= 2 && path[0] == '~' && path[1] == '/' {
        match home {
            Some(h) => Some(join_path(h, path.subrange(2, path.len() as int))),
            None => None,
        }
    } else {
        Some(path)
    }
}

/// Joins `rest` onto `base` as a path: an absolute `rest` stands alone, and one separator
/// goes between them where `base` does not end in one.
pub fn join_path_text(base: &String, rest: &str) -> (r: String)
    ensures
        r@ == join_path(base@, rest@),
{
    let n = rest.unicode_len();
    if n > 0 && rest.get_char(0) == '/' {
        return String::from_str(rest);
    }
    let m = base.as_str().unicode_len();
    if m == 0 {
        return String::from_str(rest);
    }
    let mut out = base.clone();
    if base.as_str().get_char(m - 1) != '/' {
        let ghost before = out@;
        out.append("/");
        proof {
            reveal_strlit("/");
            assert(out@ == before + seq!['/']);
        }
    }
    out.append(rest);
    proof {
        if base@.last() == '/' {
            assert(out@ == base@ + rest@);
        } else {
            assert(out@ =~= base@ + seq!['/'] + rest@);
        }
    }
    out
}

/// Expands a leading `~` to the home directory `home`.
pub fn expand_home_path(path: &String, home: Option<&String>) -> (r: Result<String, SettingsPathError>)
    ensures
        match r {
            Ok(p) => expand_home_spec(path@, match home {
                Some(h) => Some(h@),
                None => None,
            }) == Some(p@),
            Err(_) => expand_home_spec(path@, match home {
                Some(h) => Some(h@),
                None => None,
            }) is None,
        },
{
    let text = path.as_str();
    let n = text.unicode_len();
    if n == 1 && text.get_char(0) == '~' {
        assert(path@ =~= seq!['~']);
        return match home {
            Some(h) => Ok(h.clone()),
            None => Err(SettingsPathError::HomeNotSet),
        };
    }
    proof {
        if path@ == seq!['~'] {
            assert(path@.len() == 1 && path@[0] == '~');
        }
    }
    if n >= 2 && text.get_char(0) == '~' && text.get_char(1) == '/' {
        let rest = text.substring_char(2, n);
        return match home {
            Some(h) => Ok(join_path_text(h, rest)),
            None => Err(SettingsPathError::HomeNotSet),
        };
    }
    Ok(path.clone())
}

/// Where the default configuration lives below the home directory `home`.
pub fn default_config_path(home: &String) -> (r: String)
    ensures
        r@ == join_path(home@, ".fluxcope/config.yml"@),
{
    join_path_text(home, ".fluxcope/config.yml")
}

// ---------------------------------------------------------------- the text of a settings file

/// What the text of a settings file holds: no document where there is no file or nothing
/// but white space in it, otherwise the document its YAML parse gives, or the parse's error.
pub open spec fn text_document(text: Option<Seq<char>>) -> Result<Option<YamlView>, Seq<char>> {
    match text {
        None => Ok(None),
        Some(t) => if trim_spec(t).len() == 0 {
            Ok(None)
        } else {
            match yaml_text_parse(t) {
                Ok(d) => Ok(Some(d)),
                Err(e) => Err(e),
            }
        },
    }
}

pub open spec fn text_view(text: Option<&str>) -> Option<Seq<char>> {
    match text {
        Some(t) => Some(t@),
        None => None,
    }
}

/// What a settings file holds, given its text (`None` where there is no file). The text is
/// parsed as YAML unless it is blank.
pub fn stored_from_text(text: Option<&str>) -> (r: Result<StoredSettings, SettingsLoadError>)
    ensures
        match text_document(text_view(text)) {
            Ok(None) => r matches Ok(stored) && stored_document(stored) is None && (text is None <==> stored
                is Missing),
            Ok(Some(d)) => r matches Ok(stored) && stored_document(stored) == Some(d),
            Err(e) => r matches Err(err) && err.message@ == e,
        },
{
    match text {
        None => Ok(StoredSettings::Missing),
        Some(t) => {
            let trimmed = trim(t);
            if trimmed.unicode_len() == 0 {
                Ok(StoredSettings::Blank)
            } else {
                match parse_yaml_text(t) {
                    Ok(d) => Ok(StoredSettings::Document(d)),
                    Err(message) => Err(SettingsLoadError { message }),
                }
            }
        },
    }
}

// ---------------------------------------------------------------- the manager

impl SettingsManager {
    /// Loads the settings of the file at `path`, given what it holds. Gives back the manager
    /// and the document to write back, if any: the file is written when it was missing or
    /// blank, and when it loaded without a problem to report; a file with a problem is left
    /// as it is, so that nothing the user wrote is lost.
    pub fn load_from_path(path: String, stored: StoredSettings) -> (r: Result<
        (SettingsManager, Option<YamlValue>),
        SettingsLoadError,
    >)
        ensures
            match r {
                Ok((m, write)) => {
                    &&& loaded_settings(stored_document(stored)) == Some(m@.settings)
                    &&& m@.path == path@
                    &&& stored_report(stored_document(stored), m@.diagnostics)
                    &&& match write {
                        Some(doc) => m@.diagnostics.len() == 0 && doc@ == settings_document_spec(
                            m@.settings,
                            stored_document(stored),
                        ),
                        None => m@.diagnostics.len() > 0,
                    }
                },
                Err(_) => loaded_settings(stored_document(stored)) is None,
            },
    {
        match stored {
            StoredSettings::Document(doc) => {
                let previous = clone_yaml(&doc);
                let (settings, load_diagnostics) = deserialize_settings_tolerantly(doc)?;
                assert(diagnostics_view(load_diagnostics@) =~= messages_of(load_diagnostics@));
                let manager = SettingsManager { path, settings, load_diagnostics };
                if manager.load_diagnostics.len() == 0 {
                    let write = settings_document(&manager.settings, Some(previous));
                    Ok((manager, Some(write)))
                } else {
                    Ok((manager, None))
                }
            },
            _ => {
                let manager = SettingsManager {
                    path,
                    settings: AppSettings::default(),
                    load_diagnostics: Vec::new(),
                };
                assert(diagnostics_view(manager.load_diagnostics@) =~= Seq::<Seq<char>>::empty());
                let write = settings_document(&manager.settings, None);
                Ok((manager, Some(write)))
            },
        }
    }

    /// Loads the settings of the file at `path` from its text (`None` where there is no
    /// file), as `load_from_path` does with what the text holds; a text that does not parse
    /// as YAML is refused with the parse's error.
    pub fn load_from_text(path: String, text: Option<&str>) -> (r: Result<
        (SettingsManager, Option<YamlValue>),
        SettingsLoadError,
    >)
        ensures
            match text_document(text_view(text)) {
                Err(e) => r matches Err(err) && err.message@ == e,
                Ok(doc) => match r {
                    Ok((m, write)) => {
                        &&& loaded_settings(doc) == Some(m@.settings)
                        &&& m@.path == path@
                        &&& stored_report(doc, m@.diagnostics)
                        &&& match write {
                            Some(w) => m@.diagnostics.len() == 0 && w@ == settings_document_spec(m@.settings, doc),
                            None => m@.diagnostics.len() > 0,
                        }
                    },
                    Err(_) => loaded_settings(doc) is None,
                },
            },
    {
        let stored = stored_from_text(text)?;
        SettingsManager::load_from_path(path, stored)
    }

    /// The file these settings belong to.
    pub fn path(&self) -> (r: &String)
        ensures
            r@ == self@.path,
    {
        &self.path
    }

    pub fn server_port(&self) -> (r: u16)
        ensures
            r == self@.settings.server.port,
    {
        self.settings.server.port
    }

    /// The certificate directory, with a leading `~` expanded to the home directory `home`.
    pub fn certificate_store_dir(&self, home: Option<&String>) -> (r: Result<String, SettingsPathError>)
        ensures
            match r {
                Ok(p) => expand_home_spec(self@.settings.certificate.store_dir, match home {
                    Some(h) => Some(h@),
                    None => None,
                }) == Some(p@),
                Err(_) => expand_home_spec(self@.settings.certificate.store_dir, match home {
                    Some(h) => Some(h@),
                    None => None,
                }) is None,
            },
    {
        expand_home_path(&self.settings.certificate.store_dir, home)
    }

    pub fn certificate_pem_filename(&self) -> (r: &str)
        ensures
            r@ == self@.settings.certificate.pem_filename,
    {
        self.settings.certificate.pem_filename.as_str()
    }

    pub fn recording_settings(&self) -> (r: &RecordingSettings)
        ensures
            r@ == self@.settings.recording,
    {
        &self.settings.recording
    }

    pub fn ui_settings(&self) -> (r: &UiSettings)
        ensures
            *r == self@.settings.ui,
    {
        &self.settings.ui
    }

    pub fn settings(&self) -> (r: &AppSettings)
        ensures
            r@ == self@.settings,
    {
        &self.settings
    }

    pub fn proxy_settings(&self) -> (r: Option<&ProxySettings>)
        ensures
            match r {
                Some(p) => self@.settings.proxy == Some(p@),
                None => self@.settings.proxy is None,
            },
    {
        self.settings.proxy.as_ref()
    }

    /// Hands over the problems met while loading; none are left behind.
    pub fn take_load_diagnostics(&mut self) -> (r: Vec<SettingsLoadDiagnostic>)
        ensures
            diagnostics_view(r@) == old(self)@.diagnostics,
            final(self)@.diagnostics.len() == 0,
            final(self)@.settings == old(self)@.settings,
            final(self)@.path == old(self)@.path,
    {
        let mut taken: Vec<SettingsLoadDiagnostic> = Vec::new();
        std::mem::swap(&mut taken, &mut self.load_diagnostics);
        assert(diagnostics_view(self.load_diagnostics@) =~= Seq::<Seq<char>>::empty());
        taken
    }

    /// The document to write for settings `next`, given what the file holds now (`None`
    /// where it is missing or blank).
    pub fn document_for(&self, next: &AppSettings, on_disk: Option<YamlValue>) -> (r: YamlValue)
        ensures
            r@ == settings_document_spec(next@, match on_disk {
                Some(d) => Some(d@),
                None => None,
            }),
    {
        settings_document(next, on_disk)
    }

    /// Takes `next` as the current settings, once its document is written.
    pub fn update(&mut self, next: AppSettings)
        ensures
            final(self)@.settings == next@,
            final(self)@.path == old(self)@.path,
            final(self)@.diagnostics == old(self)@.diagnostics,
    {
        self.settings = next;
    }

    /// Takes `port` as the server port, once the document with it is written.
    pub fn set_server_port(&mut self, port: u16)
        ensures
            final(self)@.settings == (AppSettingsView {
                server: ServerSettings { port },
                ..old(self)@.settings
            }),
            final(self)@.path == old(self)@.path,
            final(self)@.diagnostics == old(self)@.diagnostics,
    {
        self.settings.server.port = port;
    }
}

} // verus!
