use vstd::prelude::*;

verus! {

/// The proxy port used when no configuration names one.
pub const DEFAULT_PROXY_PORT: u16 = 8989;

pub open spec fn default_store_dir() -> Seq<char> {
    "~/.fluxcope/certificate/"@
}

pub open spec fn default_pem_filename() -> Seq<char> {
    "fluxcope-ca.pem"@
}

// ---------------------------------------------------------------- plain sections

#[derive(Clone, Copy, Debug, PartialEq, Eq, Structural)]
pub struct ServerSettings {
    pub port: u16,
}

impl Default for ServerSettings {
    fn default() -> (r: Self)
        ensures
            r.port == DEFAULT_PROXY_PORT,
    {
        ServerSettings { port: DEFAULT_PROXY_PORT }
    }
}

#[derive(Clone, Copy, Debug, PartialEq, Eq, Structural)]
pub struct McpSettings {
    pub enable: bool,
}

impl Default for McpSettings {
    fn default() -> (r: Self)
        ensures
            !r.enable,
    {
        McpSettings { enable: false }
    }
}

impl McpSettings {
    /// The MCP section is omitted from the document when it is the default.
    pub fn is_default(&self) -> (r: bool)
        ensures
            r == !self.enable,
    {
        !self.enable
    }
}

/// Whether a boolean flag is unset (`false`).
pub fn is_false(value: &bool) -> (r: bool)
    ensures
        r == !*value,
{
    !*value
}

/// Whether a boolean flag is set (`true`).
pub fn is_true(value: &bool) -> (r: bool)
    ensures
        r == *value,
{
    *value
}

#[derive(Clone, Copy, Debug, PartialEq, Eq, Structural)]
pub struct RequestListSettings {
    pub auto_expand: bool,
}

impl Default for RequestListSettings {
    fn default() -> (r: Self)
        ensures
            !r.auto_expand,
    {
        RequestListSettings { auto_expand: false }
    }
}

#[derive(Clone, Copy, Debug, PartialEq, Eq, Structural)]
pub struct UiSettings {
    pub request_list: RequestListSettings,
}

impl Default for UiSettings {
    fn default() -> (r: Self)
        ensures
            !r.request_list.auto_expand,
    {
        UiSettings { request_list: RequestListSettings { auto_expand: false } }
    }
}

// ---------------------------------------------------------------- certificate

#[derive(Debug, PartialEq)]
pub struct CertificateSettings {
    pub store_dir: String,
    pub pem_filename: String,
}

pub struct CertificateView {
    pub store_dir: Seq<char>,
    pub pem_filename: Seq<char>,
}

impl View for CertificateSettings {
    type V = CertificateView;

    open spec fn view(&self) -> CertificateView {
        CertificateView { store_dir: self.store_dir@, pem_filename: self.pem_filename@ }
    }
}

impl Clone for CertificateSettings {
    fn clone(&self) -> (r: Self)
        ensures
            r@ == self@,
    {
        CertificateSettings { store_dir: self.store_dir.clone(), pem_filename: self.pem_filename.clone() }
    }
}

impl Default for CertificateSettings {
    fn default() -> (r: Self)
        ensures
            r@.store_dir == default_store_dir(),
            r@.pem_filename == default_pem_filename(),
    {
        proof {
            reveal_strlit("~/.fluxcope/certificate/");
            reveal_strlit("fluxcope-ca.pem");
        }
        CertificateSettings {
            store_dir: String::from_str("~/.fluxcope/certificate/"),
            pem_filename: String::from_str("fluxcope-ca.pem"),
        }
    }
}

impl CertificateSettings {
    pub fn eq_view(&self, other: &Self) -> (r: bool)
        ensures
            r == (self@ == other@),
    {
        self.store_dir == other.store_dir && self.pem_filename == other.pem_filename
    }
}

// ---------------------------------------------------------------- recording prefilter

#[derive(Debug, PartialEq)]
pub struct RecordingPrefilterPatternSettings {
    pub pattern: String,
    pub enable: bool,
}

pub struct PatternView {
    pub pattern: Seq<char>,
    pub enable: bool,
}

impl View for RecordingPrefilterPatternSettings {
    type V = PatternView;

    open spec fn view(&self) -> PatternView {
        PatternView { pattern: self.pattern@, enable: self.enable }
    }
}

impl Clone for RecordingPrefilterPatternSettings {
    fn clone(&self) -> (r: Self)
        ensures
            r@ == self@,
    {
        RecordingPrefilterPatternSettings { pattern: self.pattern.clone(), enable: self.enable }
    }
}

impl RecordingPrefilterPatternSettings {
    /// An enabled pattern.
    pub fn new(pattern: String) -> (r: Self)
        ensures
            r@ == (PatternView { pattern: pattern@, enable: true }),
    {
        RecordingPrefilterPatternSettings { pattern, enable: true }
    }

    pub fn eq_view(&self, other: &Self) -> (r: bool)
        ensures
            r == (self@ == other@),
    {
        self.pattern == other.pattern && self.enable == other.enable
    }
}

impl Default for RecordingPrefilterPatternSettings {
    fn default() -> (r: Self)
        ensures
            r@ == (PatternView { pattern: Seq::empty(), enable: true }),
    {
        RecordingPrefilterPatternSettings::new(String::new())
    }
}

pub open spec fn patterns_view(v: Seq<RecordingPrefilterPatternSettings>) -> Seq<PatternView> {
    v.map_values(|p: RecordingPrefilterPatternSettings| p@)
}

#[derive(Debug, PartialEq)]
pub struct RecordingPrefilterSettings {
    pub enable: bool,
    pub include_url_patterns: Vec<RecordingPrefilterPatternSettings>,
}

pub struct PrefilterView {
    pub enable: bool,
    pub include_url_patterns: Seq<PatternView>,
}

impl View for RecordingPrefilterSettings {
    type V = PrefilterView;

    open spec fn view(&self) -> PrefilterView {
        PrefilterView {
            enable: self.enable,
            include_url_patterns: patterns_view(self.include_url_patterns@),
        }
    }
}

pub open spec fn default_prefilter() -> PrefilterView {
    PrefilterView { enable: true, include_url_patterns: Seq::empty() }
}

pub open spec fn disabled_prefilter() -> PrefilterView {
    PrefilterView { enable: false, include_url_patterns: Seq::empty() }
}

pub fn clone_patterns(v: &Vec<RecordingPrefilterPatternSettings>) -> (r: Vec<RecordingPrefilterPatternSettings>)
    ensures
        patterns_view(r@) == patterns_view(v@),
{
    let mut out: Vec<RecordingPrefilterPatternSettings> = Vec::new();
    let mut i: usize = 0;
    while i < v.len()
        invariant
            i <= v.len(),
            out@.len() == i,
            forall|j: int| 0 <= j < i ==> out@[j]@ == v@[j]@,
        decreases v.len() - i,
    {
        out.push(v[i].clone());
        i = i + 1;
    }
    assert(patterns_view(out@) =~= patterns_view(v@));
    out
}

pub fn patterns_eq(a: &Vec<RecordingPrefilterPatternSettings>, b: &Vec<RecordingPrefilterPatternSettings>) -> (r: bool)
    ensures
        r == (patterns_view(a@) == patterns_view(b@)),
{
    if a.len() != b.len() {
        assert(patterns_view(a@).len() != patterns_view(b@).len());
        return false;
    }
    let mut i: usize = 0;
    while i < a.len()
        invariant
            i <= a.len(),
            a.len() == b.len(),
            forall|j: int| 0 <= j < i ==> a@[j]@ == b@[j]@,
        decreases a.len() - i,
    {
        if !a[i].eq_view(&b[i]) {
            assert(patterns_view(a@)[i as int] != patterns_view(b@)[i as int]);
            return false;
        }
        i = i + 1;
    }
    assert(patterns_view(a@) =~= patterns_view(b@));
    true
}

impl Clone for RecordingPrefilterSettings {
    fn clone(&self) -> (r: Self)
        ensures
            r@ == self@,
    {
        RecordingPrefilterSettings {
            enable: self.enable,
            include_url_patterns: clone_patterns(&self.include_url_patterns),
        }
    }
}

impl Default for RecordingPrefilterSettings {
    fn default() -> (r: Self)
        ensures
            r@ == default_prefilter(),
    {
        let r = RecordingPrefilterSettings { enable: true, include_url_patterns: Vec::new() };
        assert(r@.include_url_patterns =~= Seq::<PatternView>::empty());
        r
    }
}

impl RecordingPrefilterSettings {
    /// The prefilter used in place of a malformed one: disabled, with no patterns.
    pub fn disabled() -> (r: Self)
        ensures
            r@ == disabled_prefilter(),
    {
        let r = RecordingPrefilterSettings { enable: false, include_url_patterns: Vec::new() };
        assert(r@.include_url_patterns =~= Seq::<PatternView>::empty());
        r
    }

    pub fn eq_view(&self, other: &Self) -> (r: bool)
        ensures
            r == (self@ == other@),
    {
        self.enable == other.enable && patterns_eq(&self.include_url_patterns, &other.include_url_patterns)
    }

    /// The prefilter section is omitted from the document when it is the default.
    pub fn is_default(settings: &Self) -> (r: bool)
        ensures
            r == (settings@ == default_prefilter()),
    {
        let r = settings.enable && settings.include_url_patterns.len() == 0;
        proof {
            if settings.include_url_patterns.len() == 0 {
                assert(settings@.include_url_patterns =~= Seq::<PatternView>::empty());
            }
            if settings@ == default_prefilter() {
                assert(settings@.include_url_patterns.len() == 0);
            }
        }
        r
    }
}

#[derive(Debug, PartialEq)]
pub struct RecordingSettings {
    pub start_record_on_launch: bool,
    pub prefilter: RecordingPrefilterSettings,
}

pub struct RecordingView {
    pub start_record_on_launch: bool,
    pub prefilter: PrefilterView,
}

impl View for RecordingSettings {
    type V = RecordingView;

    open spec fn view(&self) -> RecordingView {
        RecordingView { start_record_on_launch: self.start_record_on_launch, prefilter: self.prefilter@ }
    }
}

impl Clone for RecordingSettings {
    fn clone(&self) -> (r: Self)
        ensures
            r@ == self@,
    {
        RecordingSettings { start_record_on_launch: self.start_record_on_launch, prefilter: self.prefilter.clone() }
    }
}

impl Default for RecordingSettings {
    fn default() -> (r: Self)
        ensures
            r@ == (RecordingView { start_record_on_launch: true, prefilter: default_prefilter() }),
    {
        RecordingSettings { start_record_on_launch: true, prefilter: RecordingPrefilterSettings::default() }
    }
}

impl RecordingSettings {
    pub fn eq_view(&self, other: &Self) -> (r: bool)
        ensures
            r == (self@ == other@),
    {
        self.start_record_on_launch == other.start_record_on_launch && self.prefilter.eq_view(&other.prefilter)
    }
}


// ---------------------------------------------------------------- proxy mapping rules

/// The model of a mapping rule of either table.
pub struct MappingRuleView {
    pub from: Seq<char>,
    pub to: Seq<char>,
    pub enable: bool,
}

#[derive(Debug, PartialEq)]
pub struct ProxyMapRemoteRule {
    pub from: String,
    pub to: String,
    pub enable: bool,
}

impl View for ProxyMapRemoteRule {
    type V = MappingRuleView;

    open spec fn view(&self) -> MappingRuleView {
        MappingRuleView { from: self.from@, to: self.to@, enable: self.enable }
    }
}

impl Clone for ProxyMapRemoteRule {
    fn clone(&self) -> (r: Self)
        ensures
            r@ == self@,
    {
        ProxyMapRemoteRule { from: self.from.clone(), to: self.to.clone(), enable: self.enable }
    }
}

impl Default for ProxyMapRemoteRule {
    fn default() -> (r: Self)
        ensures
            r@ == (MappingRuleView { from: Seq::empty(), to: Seq::empty(), enable: true }),
    {
        ProxyMapRemoteRule { from: String::new(), to: String::new(), enable: true }
    }
}

impl ProxyMapRemoteRule {
    pub fn eq_view(&self, other: &Self) -> (r: bool)
        ensures
            r == (self@ == other@),
    {
        self.from == other.from && self.to == other.to && self.enable == other.enable
    }
}

#[derive(Debug, PartialEq)]
pub struct ProxyMapLocalRule {
    pub from: String,
    pub to: String,
    pub enable: bool,
}

impl View for ProxyMapLocalRule {
    type V = MappingRuleView;

    open spec fn view(&self) -> MappingRuleView {
        MappingRuleView { from: self.from@, to: self.to@, enable: self.enable }
    }
}

impl Clone for ProxyMapLocalRule {
    fn clone(&self) -> (r: Self)
        ensures
            r@ == self@,
    {
        ProxyMapLocalRule { from: self.from.clone(), to: self.to.clone(), enable: self.enable }
    }
}

impl Default for ProxyMapLocalRule {
    fn default() -> (r: Self)
        ensures
            r@ == (MappingRuleView { from: Seq::empty(), to: Seq::empty(), enable: true }),
    {
        ProxyMapLocalRule { from: String::new(), to: String::new(), enable: true }
    }
}

impl ProxyMapLocalRule {
    pub fn eq_view(&self, other: &Self) -> (r: bool)
        ensures
            r == (self@ == other@),
    {
        self.from == other.from && self.to == other.to && self.enable == other.enable
    }
}

pub open spec fn remote_rules_view(v: Seq<ProxyMapRemoteRule>) -> Seq<MappingRuleView> {
    v.map_values(|r: ProxyMapRemoteRule| r@)
}

pub open spec fn local_rules_view(v: Seq<ProxyMapLocalRule>) -> Seq<MappingRuleView> {
    v.map_values(|r: ProxyMapLocalRule| r@)
}

pub fn clone_remote_rules(v: &Vec<ProxyMapRemoteRule>) -> (r: Vec<ProxyMapRemoteRule>)
    ensures
        remote_rules_view(r@) == remote_rules_view(v@),
{
    let mut out: Vec<ProxyMapRemoteRule> = Vec::new();
    let mut i: usize = 0;
    while i < v.len()
        invariant
            i <= v.len(),
            out@.len() == i,
            forall|j: int| 0 <= j < i ==> out@[j]@ == v@[j]@,
        decreases v.len() - i,
    {
        out.push(v[i].clone());
        i = i + 1;
    }
    assert(remote_rules_view(out@) =~= remote_rules_view(v@));
    out
}

pub fn clone_local_rules(v: &Vec<ProxyMapLocalRule>) -> (r: Vec<ProxyMapLocalRule>)
    ensures
        local_rules_view(r@) == local_rules_view(v@),
{
    let mut out: Vec<ProxyMapLocalRule> = Vec::new();
    let mut i: usize = 0;
    while i < v.len()
        invariant
            i <= v.len(),
            out@.len() == i,
            forall|j: int| 0 <= j < i ==> out@[j]@ == v@[j]@,
        decreases v.len() - i,
    {
        out.push(v[i].clone());
        i = i + 1;
    }
    assert(local_rules_view(out@) =~= local_rules_view(v@));
    out
}

pub fn remote_rules_eq(a: &Vec<ProxyMapRemoteRule>, b: &Vec<ProxyMapRemoteRule>) -> (r: bool)
    ensures
        r == (remote_rules_view(a@) == remote_rules_view(b@)),
{
    if a.len() != b.len() {
        assert(remote_rules_view(a@).len() != remote_rules_view(b@).len());
        return false;
    }
    let mut i: usize = 0;
    while i < a.len()
        invariant
            i <= a.len(),
            a.len() == b.len(),
            forall|j: int| 0 <= j < i ==> a@[j]@ == b@[j]@,
        decreases a.len() - i,
    {
        if !a[i].eq_view(&b[i]) {
            assert(remote_rules_view(a@)[i as int] != remote_rules_view(b@)[i as int]);
            return false;
        }
        i = i + 1;
    }
    assert(remote_rules_view(a@) =~= remote_rules_view(b@));
    true
}

pub fn local_rules_eq(a: &Vec<ProxyMapLocalRule>, b: &Vec<ProxyMapLocalRule>) -> (r: bool)
    ensures
        r == (local_rules_view(a@) == local_rules_view(b@)),
{
    if a.len() != b.len() {
        assert(local_rules_view(a@).len() != local_rules_view(b@).len());
        return false;
    }
    let mut i: usize = 0;
    while i < a.len()
        invariant
            i <= a.len(),
            a.len() == b.len(),
            forall|j: int| 0 <= j < i ==> a@[j]@ == b@[j]@,
        decreases a.len() - i,
    {
        if !a[i].eq_view(&b[i]) {
            assert(local_rules_view(a@)[i as int] != local_rules_view(b@)[i as int]);
            return false;
        }
        i = i + 1;
    }
    assert(local_rules_view(a@) =~= local_rules_view(b@));
    true
}

/// The model of a rule table of either kind.
pub struct MappingTableView {
    pub enable: bool,
    pub rules: Seq<MappingRuleView>,
}

pub open spec fn default_table() -> MappingTableView {
    MappingTableView { enable: true, rules: Seq::empty() }
}

#[derive(Debug, PartialEq)]
pub struct ProxyMapRemoteSettings {
    pub enable: bool,
    pub rules: Vec<ProxyMapRemoteRule>,
}

impl View for ProxyMapRemoteSettings {
    type V = MappingTableView;

    open spec fn view(&self) -> MappingTableView {
        MappingTableView { enable: self.enable, rules: remote_rules_view(self.rules@) }
    }
}

impl Clone for ProxyMapRemoteSettings {
    fn clone(&self) -> (r: Self)
        ensures
            r@ == self@,
    {
        ProxyMapRemoteSettings { enable: self.enable, rules: clone_remote_rules(&self.rules) }
    }
}

impl Default for ProxyMapRemoteSettings {
    fn default() -> (r: Self)
        ensures
            r@ == default_table(),
    {
        let r = ProxyMapRemoteSettings { enable: true, rules: Vec::new() };
        assert(r@.rules =~= Seq::<MappingRuleView>::empty());
        r
    }
}

impl ProxyMapRemoteSettings {
    pub fn eq_view(&self, other: &Self) -> (r: bool)
        ensures
            r == (self@ == other@),
    {
        self.enable == other.enable && remote_rules_eq(&self.rules, &other.rules)
    }

    /// The table is omitted from the document when it is the default.
    pub fn is_default(settings: &Self) -> (r: bool)
        ensures
            r == (settings@ == default_table()),
    {
        let r = settings.enable && settings.rules.len() == 0;
        proof {
            if settings.rules.len() == 0 {
                assert(settings@.rules =~= Seq::<MappingRuleView>::empty());
            }
            if settings@ == default_table() {
                assert(settings@.rules.len() == 0);
            }
        }
        r
    }
}

#[derive(Debug, PartialEq)]
pub struct ProxyMapLocalSettings {
    pub enable: bool,
    pub rules: Vec<ProxyMapLocalRule>,
}

impl View for ProxyMapLocalSettings {
    type V = MappingTableView;

    open spec fn view(&self) -> MappingTableView {
        MappingTableView { enable: self.enable, rules: local_rules_view(self.rules@) }
    }
}

impl Clone for ProxyMapLocalSettings {
    fn clone(&self) -> (r: Self)
        ensures
            r@ == self@,
    {
        ProxyMapLocalSettings { enable: self.enable, rules: clone_local_rules(&self.rules) }
    }
}

impl Default for ProxyMapLocalSettings {
    fn default() -> (r: Self)
        ensures
            r@ == default_table(),
    {
        let r = ProxyMapLocalSettings { enable: true, rules: Vec::new() };
        assert(r@.rules =~= Seq::<MappingRuleView>::empty());
        r
    }
}

impl ProxyMapLocalSettings {
    pub fn eq_view(&self, other: &Self) -> (r: bool)
        ensures
            r == (self@ == other@),
    {
        self.enable == other.enable && local_rules_eq(&self.rules, &other.rules)
    }

    /// The table is omitted from the document when it is the default.
    pub fn is_default(settings: &Self) -> (r: bool)
        ensures
            r == (settings@ == default_table()),
    {
        let r = settings.enable && settings.rules.len() == 0;
        proof {
            if settings.rules.len() == 0 {
                assert(settings@.rules =~= Seq::<MappingRuleView>::empty());
            }
            if settings@ == default_table() {
                assert(settings@.rules.len() == 0);
            }
        }
        r
    }
}

// ---------------------------------------------------------------- presets and proxy

pub struct PresetView {
    pub name: Seq<char>,
    pub map_remote: MappingTableView,
    pub map_local: MappingTableView,
}

pub open spec fn default_preset() -> PresetView {
    PresetView { name: Seq::empty(), map_remote: default_table(), map_local: default_table() }
}

#[derive(Debug, PartialEq)]
pub struct ProxyPresetSettings {
    pub name: String,
    pub map_remote: ProxyMapRemoteSettings,
    pub map_local: ProxyMapLocalSettings,
}

impl View for ProxyPresetSettings {
    type V = PresetView;

    open spec fn view(&self) -> PresetView {
        PresetView { name: self.name@, map_remote: self.map_remote@, map_local: self.map_local@ }
    }
}

impl Clone for ProxyPresetSettings {
    fn clone(&self) -> (r: Self)
        ensures
            r@ == self@,
    {
        ProxyPresetSettings {
            name: self.name.clone(),
            map_remote: self.map_remote.clone(),
            map_local: self.map_local.clone(),
        }
    }
}

impl Default for ProxyPresetSettings {
    fn default() -> (r: Self)
        ensures
            r@ == default_preset(),
    {
        ProxyPresetSettings {
            name: String::new(),
            map_remote: ProxyMapRemoteSettings::default(),
            map_local: ProxyMapLocalSettings::default(),
        }
    }
}

impl ProxyPresetSettings {
    pub fn eq_view(&self, other: &Self) -> (r: bool)
        ensures
            r == (self@ == other@),
    {
        self.name == other.name && self.map_remote.eq_view(&other.map_remote)
            && self.map_local.eq_view(&other.map_local)
    }
}

pub open spec fn presets_view(v: Seq<ProxyPresetSettings>) -> Seq<PresetView> {
    v.map_values(|p: ProxyPresetSettings| p@)
}

pub fn clone_presets(v: &Vec<ProxyPresetSettings>) -> (r: Vec<ProxyPresetSettings>)
    ensures
        presets_view(r@) == presets_view(v@),
{
    let mut out: Vec<ProxyPresetSettings> = Vec::new();
    let mut i: usize = 0;
    while i < v.len()
        invariant
            i <= v.len(),
            out@.len() == i,
            forall|j: int| 0 <= j < i ==> out@[j]@ == v@[j]@,
        decreases v.len() - i,
    {
        out.push(v[i].clone());
        i = i + 1;
    }
    assert(presets_view(out@) =~= presets_view(v@));
    out
}

pub fn presets_eq(a: &Vec<ProxyPresetSettings>, b: &Vec<ProxyPresetSettings>) -> (r: bool)
    ensures
        r == (presets_view(a@) == presets_view(b@)),
{
    if a.len() != b.len() {
        assert(presets_view(a@).len() != presets_view(b@).len());
        return false;
    }
    let mut i: usize = 0;
    while i < a.len()
        invariant
            i <= a.len(),
            a.len() == b.len(),
            forall|j: int| 0 <= j < i ==> a@[j]@ == b@[j]@,
        decreases a.len() - i,
    {
        if !a[i].eq_view(&b[i]) {
            assert(presets_view(a@)[i as int] != presets_view(b@)[i as int]);
            return false;
        }
        i = i + 1;
    }
    assert(presets_view(a@) =~= presets_view(b@));
    true
}

pub struct ProxyView {
    pub enable: bool,
    pub active_preset: Option<Seq<char>>,
    pub presets: Seq<PresetView>,
}

pub open spec fn opt_string_view(s: Option<String>) -> Option<Seq<char>> {
    match s {
        Some(v) => Some(v@),
        None => None,
    }
}

pub fn clone_opt_string(s: &Option<String>) -> (r: Option<String>)
    ensures
        opt_string_view(r) == opt_string_view(*s),
{
    match s {
        Some(v) => Some(v.clone()),
        None => None,
    }
}

pub fn opt_string_eq(a: &Option<String>, b: &Option<String>) -> (r: bool)
    ensures
        r == (opt_string_view(*a) == opt_string_view(*b)),
{
    match (a, b) {
        (Some(x), Some(y)) => *x == *y,
        (None, None) => true,
        _ => false,
    }
}

pub open spec fn default_proxy() -> ProxyView {
    ProxyView { enable: true, active_preset: None, presets: Seq::empty() }
}

#[derive(Debug, PartialEq)]
pub struct ProxySettings {
    pub enable: bool,
    pub active_preset: Option<String>,
    pub presets: Vec<ProxyPresetSettings>,
}

impl View for ProxySettings {
    type V = ProxyView;

    open spec fn view(&self) -> ProxyView {
        ProxyView {
            enable: self.enable,
            active_preset: opt_string_view(self.active_preset),
            presets: presets_view(self.presets@),
        }
    }
}

impl Clone for ProxySettings {
    fn clone(&self) -> (r: Self)
        ensures
            r@ == self@,
    {
        ProxySettings {
            enable: self.enable,
            active_preset: clone_opt_string(&self.active_preset),
            presets: clone_presets(&self.presets),
        }
    }
}

impl Default for ProxySettings {
    fn default() -> (r: Self)
        ensures
            r@ == default_proxy(),
    {
        let r = ProxySettings { enable: true, active_preset: None, presets: Vec::new() };
        assert(r@.presets =~= Seq::<PresetView>::empty());
        r
    }
}

impl ProxySettings {
    pub fn eq_view(&self, other: &Self) -> (r: bool)
        ensures
            r == (self@ == other@),
    {
        self.enable == other.enable && opt_string_eq(&self.active_preset, &other.active_preset)
            && presets_eq(&self.presets, &other.presets)
    }
}

pub open spec fn opt_proxy_view(p: Option<ProxySettings>) -> Option<ProxyView> {
    match p {
        Some(v) => Some(v@),
        None => None,
    }
}

// ---------------------------------------------------------------- the whole document

pub struct AppSettingsView {
    pub server: ServerSettings,
    pub mcp: McpSettings,
    pub certificate: CertificateView,
    pub recording: RecordingView,
    pub ui: UiSettings,
    pub proxy: Option<ProxyView>,
}

pub open spec fn default_settings() -> AppSettingsView {
    AppSettingsView {
        server: ServerSettings { port: DEFAULT_PROXY_PORT },
        mcp: McpSettings { enable: false },
        certificate: CertificateView { store_dir: default_store_dir(), pem_filename: default_pem_filename() },
        recording: RecordingView { start_record_on_launch: true, prefilter: default_prefilter() },
        ui: UiSettings { request_list: RequestListSettings { auto_expand: false } },
        proxy: None,
    }
}

#[derive(Debug, PartialEq)]
pub struct AppSettings {
    pub server: ServerSettings,
    pub mcp: McpSettings,
    pub certificate: CertificateSettings,
    pub recording: RecordingSettings,
    pub ui: UiSettings,
    pub proxy: Option<ProxySettings>,
}

impl View for AppSettings {
    type V = AppSettingsView;

    open spec fn view(&self) -> AppSettingsView {
        AppSettingsView {
            server: self.server,
            mcp: self.mcp,
            certificate: self.certificate@,
            recording: self.recording@,
            ui: self.ui,
            proxy: opt_proxy_view(self.proxy),
        }
    }
}

impl Clone for AppSettings {
    fn clone(&self) -> (r: Self)
        ensures
            r@ == self@,
    {
        AppSettings {
            server: self.server,
            mcp: self.mcp,
            certificate: self.certificate.clone(),
            recording: self.recording.clone(),
            ui: self.ui,
            proxy: match &self.proxy {
                Some(p) => Some(p.clone()),
                None => None,
            },
        }
    }
}

impl Default for AppSettings {
    fn default() -> (r: Self)
        ensures
            r@ == default_settings(),
    {
        AppSettings {
            server: ServerSettings::default(),
            mcp: McpSettings::default(),
            certificate: CertificateSettings::default(),
            recording: RecordingSettings::default(),
            ui: UiSettings::default(),
            proxy: None,
        }
    }
}

impl AppSettings {
    /// Semantic equality of two settings documents.
    pub fn eq_view(&self, other: &Self) -> (r: bool)
        ensures
            r == (self@ == other@),
    {
        let proxy_eq = match (&self.proxy, &other.proxy) {
            (Some(a), Some(b)) => a.eq_view(b),
            (None, None) => true,
            _ => false,
        };
        self.server.port == other.server.port && self.mcp.enable == other.mcp.enable
            && self.certificate.eq_view(&other.certificate) && self.recording.eq_view(&other.recording)
            && self.ui.request_list.auto_expand == other.ui.request_list.auto_expand && proxy_eq
    }
}

} // verus!
