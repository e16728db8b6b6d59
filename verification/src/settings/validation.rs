use vstd::prelude::*;
use crate::settings::model::{opt_string_view, presets_view, remote_rules_view, local_rules_view, MappingRuleView, PresetView, ProxyView, ProxySettings, ProxyPresetSettings, ProxyMapRemoteRule, ProxyMapLocalRule};
use crate::text::{trim, trim_spec};

verus! {

/// The rule table a location or rule belongs to.
#[derive(Clone, Copy, Debug, PartialEq, Eq, Structural)]
pub enum MappingTable {
    Remote,
    Local,
}

/// The field of a rule that a diagnostic is about.
#[derive(Clone, Copy, Debug, PartialEq, Eq, Structural)]
pub enum MappingField {
    From,
    To,
}

#[derive(Clone, Copy, Debug, PartialEq, Eq, Structural)]
pub enum DiagnosticSeverity {
    Warning,
    Error,
}

#[derive(Clone, Copy, Debug, PartialEq, Eq, Structural)]
pub enum MappingDiagnosticCode {
    DuplicatePresetName,
    InvalidRuleSource,
    InvalidRuleTarget,
    InvalidRequestUrl,
}

/// Where in the proxy settings a rule field stands.
#[derive(Clone, Copy, Debug, PartialEq, Eq, Structural)]
pub struct MappingRuleLocation {
    pub preset_index: usize,
    pub table: MappingTable,
    pub rule_index: usize,
    pub field: MappingField,
}

#[derive(Debug, PartialEq)]
pub struct MappingDiagnostic {
    pub severity: DiagnosticSeverity,
    pub code: MappingDiagnosticCode,
    pub location: Option<MappingRuleLocation>,
    pub message: String,
}

pub struct DiagnosticView {
    pub severity: DiagnosticSeverity,
    pub code: MappingDiagnosticCode,
    pub location: Option<MappingRuleLocation>,
    pub message: Seq<char>,
}

impl View for MappingDiagnostic {
    type V = DiagnosticView;

    open spec fn view(&self) -> DiagnosticView {
        DiagnosticView {
            severity: self.severity,
            code: self.code,
            location: self.location,
            message: self.message@,
        }
    }
}

impl Clone for MappingDiagnostic {
    fn clone(&self) -> (r: Self)
        ensures
            r@ == self@,
    {
        MappingDiagnostic {
            severity: self.severity,
            code: self.code,
            location: self.location,
            message: self.message.clone(),
        }
    }
}

pub open spec fn diagnostics_view(v: Seq<MappingDiagnostic>) -> Seq<DiagnosticView> {
    v.map_values(|d: MappingDiagnostic| d@)
}

// ---------------------------------------------------------------- URL syntax

/// What `http::Uri` parsing makes of a text: `None` when it is not a URI; otherwise the
/// scheme that `Uri::scheme_str` reports, whether `Uri::authority` is present, and the
/// text that the URI's `Display` writes.
pub uninterp spec fn uri_parts(text: Seq<char>) -> Option<(Option<Seq<char>>, bool, Seq<char>)>;

/// Calls `<http::Uri as FromStr>::from_str` and reads back `scheme_str`, `authority` and
/// the `Display` text. The result is named by `uri_parts` and depends on the text alone;
/// the URI grammar is not restated.
#[verifier::external_body]
fn parse_uri_parts(text: &str) -> (r: Option<(Option<String>, bool, String)>)
    ensures
        match r {
            Some((scheme, authority, shown)) => uri_parts(text@) == Some(
                (opt_string_view(scheme), authority, shown@),
            ),
            None => uri_parts(text@) is None,
        },
{
    match text.parse::<http::Uri>() {
        Ok(uri) => Some((uri.scheme_str().map(String::from), uri.authority().is_some(), uri.to_string())),
        Err(_) => None,
    }
}

/// Whether the parts of a parsed URI make it an absolute `http` or `https` URL: an
/// authority and one of these schemes.
pub open spec fn http_parts(parts: Option<(Option<Seq<char>>, bool, Seq<char>)>) -> bool {
    match parts {
        Some((Some(scheme), authority, _)) => authority && (scheme == "http"@ || scheme == "https"@),
        _ => false,
    }
}

/// An absolute `http` or `https` URL: it parses as a URI with one of these schemes and an
/// authority.
pub open spec fn is_http_url(text: Seq<char>) -> bool {
    http_parts(uri_parts(text))
}

/// The text a URL is shown as once parsed, where it parses.
pub open spec fn shown_url(text: Seq<char>) -> Seq<char> {
    match uri_parts(text) {
        Some((_, _, shown)) => shown,
        None => Seq::empty(),
    }
}

pub open spec fn parts_view(parts: Option<(Option<String>, bool, String)>) -> Option<(Option<Seq<char>>, bool, Seq<char>)> {
    match parts {
        Some((scheme, authority, shown)) => Some((opt_string_view(scheme), authority, shown@)),
        None => None,
    }
}

/// Whether the parts of a parsed URI (its scheme, whether it has an authority, and its
/// text) make it an absolute `http` or `https` URL.
pub fn http_url_from_parts(parts: &Option<(Option<String>, bool, String)>) -> (r: bool)
    ensures
        r == http_parts(parts_view(*parts)),
{
    proof {
        reveal_strlit("http");
        reveal_strlit("https");
    }
    match parts {
        Some((Some(scheme), authority, _)) => {
            let http = String::from_str("http");
            let https = String::from_str("https");
            *authority && (*scheme == http || *scheme == https)
        },
        _ => false,
    }
}

pub fn check_http_url(text: &str) -> (r: bool)
    ensures
        r == is_http_url(text@),
{
    http_url_from_parts(&parse_uri_parts(text))
}

/// The text of an absolute `http` or `https` URL as its parse shows it, or `None` for any
/// other text.
pub fn parse_http_url(text: &str) -> (r: Option<String>)
    ensures
        match r {
            Some(u) => is_http_url(text@) && u@ == shown_url(text@),
            None => !is_http_url(text@),
        },
{
    let parts = parse_uri_parts(text);
    if http_url_from_parts(&parts) {
        match parts {
            Some((_, _, shown)) => Some(shown),
            None => None,
        }
    } else {
        None
    }
}

pub open spec fn source_message() -> Seq<char> {
    "rule source must be an absolute http or https URL"@
}

pub open spec fn remote_target_message() -> Seq<char> {
    "remote rule target must be an absolute http or https URL"@
}

pub open spec fn local_target_message() -> Seq<char> {
    "local rule target must be a non-empty file path"@
}

pub open spec fn duplicate_preset_message() -> Seq<char> {
    "preset name is not unique after trimming white space"@
}

/// Whether the target of a rule is acceptable for its table.
pub open spec fn target_is_valid(table: MappingTable, to: Seq<char>) -> bool {
    match table {
        MappingTable::Remote => is_http_url(to),
        MappingTable::Local => trim_spec(to).len() > 0,
    }
}

pub open spec fn target_message(table: MappingTable) -> Seq<char> {
    match table {
        MappingTable::Remote => remote_target_message(),
        MappingTable::Local => local_target_message(),
    }
}

/// The problems of a rule's two fields, the source first.
pub open spec fn rule_value_errors(table: MappingTable, from: Seq<char>, to: Seq<char>) -> Seq<(MappingField, Seq<char>)> {
    let source = if is_http_url(from) {
        Seq::<(MappingField, Seq<char>)>::empty()
    } else {
        seq![(MappingField::From, source_message())]
    };
    let target = if target_is_valid(table, to) {
        Seq::<(MappingField, Seq<char>)>::empty()
    } else {
        seq![(MappingField::To, target_message(table))]
    };
    source + target
}

/// The problems of a rule's fields, in the order source, target.
pub fn validate_rule_values(table: MappingTable, from: &str, to: &str) -> (r: Vec<(MappingField, String)>)
    ensures
        r@.map_values(|e: (MappingField, String)| (e.0, e.1@)) == rule_value_errors(table, from@, to@),
{
    proof {
        reveal_strlit("rule source must be an absolute http or https URL");
        reveal_strlit("remote rule target must be an absolute http or https URL");
        reveal_strlit("local rule target must be a non-empty file path");
    }
    let mut errors: Vec<(MappingField, String)> = Vec::new();
    if !check_http_url(from) {
        errors.push((MappingField::From, String::from_str("rule source must be an absolute http or https URL")));
    }
    let target_ok = match table {
        MappingTable::Remote => check_http_url(to),
        MappingTable::Local => trim(to).unicode_len() > 0,
    };
    if !target_ok {
        let message = match table {
            MappingTable::Remote => String::from_str("remote rule target must be an absolute http or https URL"),
            MappingTable::Local => String::from_str("local rule target must be a non-empty file path"),
        };
        errors.push((MappingField::To, message));
    }
    assert(errors@.map_values(|e: (MappingField, String)| (e.0, e.1@)) =~= rule_value_errors(table, from@, to@));
    errors
}

// ---------------------------------------------------------------- whole proxy settings

pub open spec fn field_code(field: MappingField) -> MappingDiagnosticCode {
    match field {
        MappingField::From => MappingDiagnosticCode::InvalidRuleSource,
        MappingField::To => MappingDiagnosticCode::InvalidRuleTarget,
    }
}

pub open spec fn field_diagnostic(preset_index: usize, table: MappingTable, rule_index: usize, e: (MappingField, Seq<char>)) -> DiagnosticView {
    DiagnosticView {
        severity: DiagnosticSeverity::Error,
        code: field_code(e.0),
        location: Some(MappingRuleLocation { preset_index, table, rule_index, field: e.0 }),
        message: e.1,
    }
}

pub open spec fn rule_diagnostics(preset_index: usize, table: MappingTable, rule_index: usize, rule: MappingRuleView) -> Seq<DiagnosticView> {
    rule_value_errors(table, rule.from, rule.to).map_values(
        |e: (MappingField, Seq<char>)| field_diagnostic(preset_index, table, rule_index, e))
}

/// The diagnostics of the first `n` rules of a table, in rule order.
pub open spec fn table_diagnostics(preset_index: nat, table: MappingTable, rules: Seq<MappingRuleView>, n: nat) -> Seq<DiagnosticView>
    decreases n,
{
    if n == 0 || n > rules.len() {
        Seq::empty()
    } else {
        table_diagnostics(preset_index, table, rules, (n - 1) as nat)
            + rule_diagnostics(preset_index as usize, table, (n - 1) as usize, rules[n - 1])
    }
}

/// Whether a preset before index `i` has the same trimmed name as preset `i`.
pub open spec fn name_taken_before(presets: Seq<PresetView>, i: int) -> bool {
    exists|j: int| 0 <= j < i && trim_spec(#[trigger] presets[j].name) == trim_spec(presets[i].name)
}

pub open spec fn preset_diagnostics(presets: Seq<PresetView>, i: int) -> Seq<DiagnosticView> {
    let duplicate = if name_taken_before(presets, i) {
        seq![DiagnosticView {
            severity: DiagnosticSeverity::Error,
            code: MappingDiagnosticCode::DuplicatePresetName,
            location: None,
            message: duplicate_preset_message(),
        }]
    } else {
        Seq::empty()
    };
    let preset = presets[i];
    duplicate
        + table_diagnostics(i as nat, MappingTable::Remote, preset.map_remote.rules, preset.map_remote.rules.len())
        + table_diagnostics(i as nat, MappingTable::Local, preset.map_local.rules, preset.map_local.rules.len())
}

/// The diagnostics of the first `n` presets, in preset order.
pub open spec fn presets_diagnostics(presets: Seq<PresetView>, n: nat) -> Seq<DiagnosticView>
    decreases n,
{
    if n == 0 || n > presets.len() {
        Seq::empty()
    } else {
        presets_diagnostics(presets, (n - 1) as nat) + preset_diagnostics(presets, n - 1)
    }
}

/// Every diagnostic of a proxy configuration, in document order.
pub open spec fn proxy_diagnostics(proxy: ProxyView) -> Seq<DiagnosticView> {
    presets_diagnostics(proxy.presets, proxy.presets.len())
}

pub open spec fn saturating(n: int) -> usize {
    if n > usize::MAX { usize::MAX } else { n as usize }
}

pub open spec fn min_nat(a: nat, b: nat) -> nat {
    if a < b { a } else { b }
}

/// Keeps at most `cap` diagnostics while counting all of them.
struct DiagnosticSink {
    kept: Vec<MappingDiagnostic>,
    total: usize,
    cap: usize,
    all: Ghost<Seq<DiagnosticView>>,
}

impl DiagnosticSink {
    spec fn inv(&self) -> bool {
        &&& diagnostics_view(self.kept@) == self.all@.take(min_nat(self.cap as nat, self.all@.len()) as int)
        &&& self.total == saturating(self.all@.len() as int)
    }

    fn push(&mut self, d: MappingDiagnostic)
        requires
            old(self).inv(),
        ensures
            final(self).inv(),
            final(self).all@ == old(self).all@.push(d@),
            final(self).cap == old(self).cap,
    {
        let ghost prev = self.all@;
        let ghost prev_kept = self.kept@;
        assert(diagnostics_view(prev_kept).len() == prev_kept.len());
        self.all = Ghost(self.all@.push(d@));
        if self.kept.len() < self.cap {
            self.kept.push(d);
            assert(diagnostics_view(self.kept@) =~= diagnostics_view(prev_kept).push(d@));
            assert(self.all@.take(min_nat(self.cap as nat, self.all@.len()) as int)
                =~= prev.take(min_nat(self.cap as nat, prev.len()) as int).push(d@));
        } else {
            assert(self.all@.take(min_nat(self.cap as nat, self.all@.len()) as int)
                =~= prev.take(min_nat(self.cap as nat, prev.len()) as int));
        }
        self.total = self.total.saturating_add(1);
        assert(diagnostics_view(self.kept@) =~= self.all@.take(min_nat(self.cap as nat, self.all@.len()) as int));
    }
}

fn rule_check(sink: &mut DiagnosticSink, preset_index: usize, table: MappingTable, rule_index: usize, from: &str, to: &str)
    requires
        old(sink).inv(),
    ensures
        final(sink).inv(),
        final(sink).cap == old(sink).cap,
        final(sink).all@ == old(sink).all@ + rule_diagnostics(preset_index, table, rule_index,
            MappingRuleView { from: from@, to: to@, enable: true }),
{
    let errors = validate_rule_values(table, from, to);
    let ghost spec_errors = rule_value_errors(table, from@, to@);
    let ghost start = sink.all@;
    let ghost target = rule_diagnostics(preset_index, table, rule_index,
        MappingRuleView { from: from@, to: to@, enable: true });
    let mut k: usize = 0;
    while k < errors.len()
        invariant
            sink.inv(),
            sink.cap == old(sink).cap,
            k <= errors.len(),
            errors@.len() == spec_errors.len(),
            forall|m: int| 0 <= m < errors@.len() ==> (errors@[m].0, errors@[m].1@) == spec_errors[m],
            target.len() == spec_errors.len(),
            spec_errors == rule_value_errors(table, from@, to@),
            target == rule_diagnostics(preset_index, table, rule_index,
                MappingRuleView { from: from@, to: to@, enable: true }),
            sink.all@ == start + target.take(k as int),
        decreases errors.len() - k,
    {
        assert((errors@[k as int].0, errors@[k as int].1@) == spec_errors[k as int]) by {
            assert(errors@.map_values(|e: (MappingField, String)| (e.0, e.1@))[k as int] == spec_errors[k as int]);
        }
        let field = errors[k].0;
        let code = match field {
            MappingField::From => MappingDiagnosticCode::InvalidRuleSource,
            MappingField::To => MappingDiagnosticCode::InvalidRuleTarget,
        };
        let d = MappingDiagnostic {
            severity: DiagnosticSeverity::Error,
            code,
            location: Some(MappingRuleLocation { preset_index, table, rule_index, field }),
            message: errors[k].1.clone(),
        };
        assert(target.len() == spec_errors.len());
        assert(target[k as int] == field_diagnostic(preset_index, table, rule_index, spec_errors[k as int]));
        assert(d@.message == spec_errors[k as int].1);
        assert(d@ == target[k as int]);
        sink.push(d);
        assert(target.take(k + 1) =~= target.take(k as int).push(target[k as int]));
        k = k + 1;
    }
    proof {
        assert(errors@.len() == spec_errors.len()) by {
            assert(errors@.map_values(|e: (MappingField, String)| (e.0, e.1@)).len() == spec_errors.len());
        }
        assert(target.take(k as int) =~= target);
    }
}


/// Whether a preset before index `i` has the same trimmed name as preset `i`.
fn name_taken_before_exec(presets: &Vec<ProxyPresetSettings>, i: usize) -> (r: bool)
    requires
        i < presets.len(),
    ensures
        r == name_taken_before(presets_view(presets@), i as int),
{
    let name = trim(presets[i].name.as_str());
    let mut j: usize = 0;
    while j < i
        invariant
            j <= i < presets.len(),
            name@ == trim_spec(presets@[i as int].name@),
            forall|m: int| 0 <= m < j ==> trim_spec(#[trigger] presets@[m].name@) != name@,
        decreases i - j,
    {
        let other = trim(presets[j].name.as_str());
        if other == name {
            assert(presets_view(presets@)[j as int].name == presets@[j as int].name@);
            return true;
        }
        j = j + 1;
    }
    proof {
        if name_taken_before(presets_view(presets@), i as int) {
            let m = choose|m: int| 0 <= m < i && trim_spec(#[trigger] presets_view(presets@)[m].name)
                == trim_spec(presets_view(presets@)[i as int].name);
            assert(presets_view(presets@)[m].name == presets@[m].name@);
        }
    }
    false
}

fn remote_table_check(sink: &mut DiagnosticSink, preset_index: usize, rules: &Vec<ProxyMapRemoteRule>)
    requires
        old(sink).inv(),
    ensures
        final(sink).inv(),
        final(sink).cap == old(sink).cap,
        final(sink).all@ == old(sink).all@ + table_diagnostics(preset_index as nat, MappingTable::Remote,
            remote_rules_view(rules@), rules@.len()),
{
    let ghost start = sink.all@;
    let ghost view = remote_rules_view(rules@);
    let mut k: usize = 0;
    while k < rules.len()
        invariant
            sink.inv(),
            sink.cap == old(sink).cap,
            k <= rules.len(),
            view == remote_rules_view(rules@),
            sink.all@ == start + table_diagnostics(preset_index as nat, MappingTable::Remote, view, k as nat),
        decreases rules.len() - k,
    {
        rule_check(sink, preset_index, MappingTable::Remote, k, rules[k].from.as_str(), rules[k].to.as_str());
        proof {
            let rv = view[k as int];
            assert(rule_diagnostics(preset_index, MappingTable::Remote, k, rv)
                == rule_diagnostics(preset_index, MappingTable::Remote, k,
                    MappingRuleView { from: rules@[k as int].from@, to: rules@[k as int].to@, enable: true }));
            assert(table_diagnostics(preset_index as nat, MappingTable::Remote, view, (k + 1) as nat)
                == table_diagnostics(preset_index as nat, MappingTable::Remote, view, k as nat)
                    + rule_diagnostics(preset_index, MappingTable::Remote, k, rv));
            assert(sink.all@ =~= start + table_diagnostics(preset_index as nat, MappingTable::Remote, view, (k + 1) as nat));
        }
        k = k + 1;
    }
}

fn local_table_check(sink: &mut DiagnosticSink, preset_index: usize, rules: &Vec<ProxyMapLocalRule>)
    requires
        old(sink).inv(),
    ensures
        final(sink).inv(),
        final(sink).cap == old(sink).cap,
        final(sink).all@ == old(sink).all@ + table_diagnostics(preset_index as nat, MappingTable::Local,
            local_rules_view(rules@), rules@.len()),
{
    let ghost start = sink.all@;
    let ghost view = local_rules_view(rules@);
    let mut k: usize = 0;
    while k < rules.len()
        invariant
            sink.inv(),
            sink.cap == old(sink).cap,
            k <= rules.len(),
            view == local_rules_view(rules@),
            sink.all@ == start + table_diagnostics(preset_index as nat, MappingTable::Local, view, k as nat),
        decreases rules.len() - k,
    {
        rule_check(sink, preset_index, MappingTable::Local, k, rules[k].from.as_str(), rules[k].to.as_str());
        proof {
            let rv = view[k as int];
            assert(rule_diagnostics(preset_index, MappingTable::Local, k, rv)
                == rule_diagnostics(preset_index, MappingTable::Local, k,
                    MappingRuleView { from: rules@[k as int].from@, to: rules@[k as int].to@, enable: true }));
            assert(table_diagnostics(preset_index as nat, MappingTable::Local, view, (k + 1) as nat)
                == table_diagnostics(preset_index as nat, MappingTable::Local, view, k as nat)
                    + rule_diagnostics(preset_index, MappingTable::Local, k, rv));
            assert(sink.all@ =~= start + table_diagnostics(preset_index as nat, MappingTable::Local, view, (k + 1) as nat));
        }
        k = k + 1;
    }
}

/// The first `cap` diagnostics of a proxy configuration, and how many there are in all
/// (saturating at `usize::MAX`).
pub fn validate_proxy_settings_capped(proxy: &ProxySettings, cap: usize) -> (r: (Vec<MappingDiagnostic>, usize))
    ensures
        diagnostics_view(r.0@) == proxy_diagnostics(proxy@).take(
            min_nat(cap as nat, proxy_diagnostics(proxy@).len()) as int),
        r.1 == saturating(proxy_diagnostics(proxy@).len() as int),
{
    let mut sink = DiagnosticSink { kept: Vec::new(), total: 0, cap, all: Ghost(Seq::empty()) };
    proof {
        assert(diagnostics_view(sink.kept@) =~= sink.all@.take(0));
    }
    let ghost presets = presets_view(proxy.presets@);
    let mut i: usize = 0;
    while i < proxy.presets.len()
        invariant
            sink.inv(),
            sink.cap == cap,
            i <= proxy.presets.len(),
            presets == presets_view(proxy.presets@),
            sink.all@ == presets_diagnostics(presets, i as nat),
        decreases proxy.presets.len() - i,
    {
        let ghost before = sink.all@;
        let preset = &proxy.presets[i];
        if name_taken_before_exec(&proxy.presets, i) {
            proof {
                reveal_strlit("preset name is not unique after trimming white space");
            }
            sink.push(MappingDiagnostic {
                severity: DiagnosticSeverity::Error,
                code: MappingDiagnosticCode::DuplicatePresetName,
                location: None,
                message: String::from_str("preset name is not unique after trimming white space"),
            });
        }
        remote_table_check(&mut sink, i, &preset.map_remote.rules);
        local_table_check(&mut sink, i, &preset.map_local.rules);
        proof {
            assert(presets[i as int] == preset@);
            assert(presets_diagnostics(presets, (i + 1) as nat)
                == presets_diagnostics(presets, i as nat) + preset_diagnostics(presets, i as int));
            assert(sink.all@ =~= before + preset_diagnostics(presets, i as int));
        }
        i = i + 1;
    }
    (sink.kept, sink.total)
}

} // verus!
