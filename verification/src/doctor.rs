use vstd::prelude::*;
use crate::config::{Config, ConfigSource};
use crate::hosts::{count_lines, count_markers, existing_block, has_expected_block, is_blocked, block_section};
use crate::i18n::{I18n, Msg, text};
use crate::launchd::{ServiceStatus, opt_view, plist_program_arguments, plist_value, plist_value_spec, program_arguments_spec};
use crate::num::{decimal, decimal_chars};
use crate::paths::{LAUNCHD_LABEL, LEGACY_LAUNCHD_LABEL, LEGACY_PLIST_DEST, LEGACY_SYSTEM_CONFIG_FILE, PLIST_DEST, SYSTEM_CONFIG_FILE};
use crate::text::{
    chars_eq, contains_sub, extend, extend_str, from_chars, join, join_chars, lemma_views_push, lines_of, strs,
    to_chars, views,
};

verus! {

#[derive(Debug, Clone, Copy, PartialEq, Eq, Structural)]
pub enum DiagnosticLevel {
    Success,
    Warn,
    Error,
}

/// One finding of the doctor.
#[derive(Debug, Clone)]
pub struct Diagnostic {
    pub level: DiagnosticLevel,
    pub title: String,
    pub detail: String,
    pub hint: Option<String>,
}

/// A finding as plain values: level, title, detail and hint.
pub type DiagView = (DiagnosticLevel, Seq<char>, Seq<char>, Option<Seq<char>>);

impl View for Diagnostic {
    type V = DiagView;

    open spec fn view(&self) -> DiagView {
        (self.level, self.title@, self.detail@, opt_view(self.hint))
    }
}

pub open spec fn diag_views(ds: Seq<Diagnostic>) -> Seq<DiagView> {
    ds.map_values(|d: Diagnostic| d@)
}

/// A finding from its parts.
pub fn diagnostic(level: DiagnosticLevel, title: &str, detail: &str, hint: Option<&str>) -> (r: Diagnostic)
    ensures
        r@ == (level, title@, detail@, match hint {
            Some(h) => Some(h@),
            None => None::<Seq<char>>,
        }),
{
    Diagnostic {
        level,
        title: String::from_str(title),
        detail: String::from_str(detail),
        hint: match hint {
            Some(h) => Some(String::from_str(h)),
            None => None,
        },
    }
}

pub open spec fn level_text(l: crate::i18n::Language, level: DiagnosticLevel) -> Seq<char> {
    match level {
        DiagnosticLevel::Success => text(l, Msg::OkLabel),
        DiagnosticLevel::Warn => text(l, Msg::WarningLabel),
        DiagnosticLevel::Error => text(l, Msg::ErrorLabel),
    }
}

/// The lines that show one finding: `[LEVEL] title`, the detail, and the hint if
/// there is one, the last two indented by two spaces.
pub open spec fn diagnostic_lines(l: crate::i18n::Language, d: DiagView) -> Seq<Seq<char>> {
    seq!["["@ + level_text(l, d.0) + "] "@ + d.1, "  "@ + d.2] + match d.3 {
        Some(h) => seq!["  "@ + h],
        None => Seq::empty(),
    }
}

pub open spec fn all_diagnostic_lines(l: crate::i18n::Language, ds: Seq<DiagView>) -> Seq<Seq<char>>
    decreases ds.len(),
{
    if ds.len() == 0 {
        Seq::empty()
    } else {
        all_diagnostic_lines(l, ds.drop_last()) + diagnostic_lines(l, ds.last())
    }
}

/// The doctor's report: its title, then the lines of each finding, one per line.
pub open spec fn report_text(l: crate::i18n::Language, ds: Seq<DiagView>) -> Seq<char> {
    join(seq![text(l, Msg::DoctorTitle)] + all_diagnostic_lines(l, ds), seq!['\n'])
}

fn push_line(lines: &mut Vec<Vec<char>>, line: Vec<char>)
    ensures
        views(final(lines)@) == views(old(lines)@).push(line@),
{
    let ghost o = lines@;
    lines.push(line);
    proof {
        lemma_views_push(o, line);
    }
}

/// The report for `diagnostics` (see `report_text`).
pub fn render_cli(diagnostics: &[Diagnostic], i18n: I18n) -> (r: String)
    ensures
        r@ == report_text(i18n@, diag_views(diagnostics@)),
{
    let ghost l = i18n@;
    let mut lines: Vec<Vec<char>> = Vec::new();
    push_line(&mut lines, to_chars(i18n.doctor_title()));
    let ghost ds = diag_views(diagnostics@);
    let mut i: usize = 0;
    proof {
        assert(ds.take(0) =~= Seq::<DiagView>::empty());
        assert(views(lines@) =~= seq![text(l, Msg::DoctorTitle)] + all_diagnostic_lines(l, ds.take(0)));
    }
    while i < diagnostics.len()
        invariant
            i <= diagnostics.len(),
            l == i18n@,
            ds == diag_views(diagnostics@),
            views(lines@) == seq![text(l, Msg::DoctorTitle)] + all_diagnostic_lines(l, ds.take(i as int)),
        decreases diagnostics.len() - i,
    {
        let item = &diagnostics[i];
        let level = match item.level {
            DiagnosticLevel::Success => i18n.ok(),
            DiagnosticLevel::Warn => i18n.warning(),
            DiagnosticLevel::Error => i18n.error(),
        };
        let ghost before = views(lines@);
        let mut first = to_chars("[");
        extend_str(&mut first, level);
        extend_str(&mut first, "] ");
        extend_str(&mut first, item.title.as_str());
        push_line(&mut lines, first);
        let mut second = to_chars("  ");
        extend_str(&mut second, item.detail.as_str());
        push_line(&mut lines, second);
        match &item.hint {
            Some(h) => {
                let mut third = to_chars("  ");
                extend_str(&mut third, h.as_str());
                push_line(&mut lines, third);
            },
            None => {},
        }
        proof {
            assert(ds.take(i + 1).drop_last() =~= ds.take(i as int));
            assert(ds.take(i + 1).last() == diagnostics@[i as int]@);
            assert(views(lines@) =~= before + diagnostic_lines(l, diagnostics@[i as int]@));
        }
        i = i + 1;
    }
    proof {
        assert(ds.take(diagnostics.len() as int) =~= ds);
    }
    let sep = to_chars("\n");
    proof {
        reveal_strlit("\n");
        assert(sep@ =~= seq!['\n']);
    }
    let j = join_chars(&lines, &sep);
    from_chars(&j)
}

/// Where the configuration comes from, as a finding.
pub open spec fn config_source_spec(l: crate::i18n::Language, source: ConfigSource) -> DiagView {
    match source {
        ConfigSource::Active => (DiagnosticLevel::Success, text(l, Msg::DoctorConfigActiveTitle), SYSTEM_CONFIG_FILE@, None),
        ConfigSource::Legacy => (
            DiagnosticLevel::Warn,
            text(l, Msg::DoctorConfigLegacyTitle),
            text(l, Msg::DoctorConfigLegacyDetail),
            Some(text(l, Msg::DoctorConfigLegacyHint)),
        ),
        ConfigSource::EmbeddedDefault => (
            DiagnosticLevel::Warn,
            text(l, Msg::DoctorConfigEmbeddedTitle),
            text(l, Msg::DoctorConfigEmbeddedDetail),
            Some(text(l, Msg::DoctorConfigEmbeddedHint)),
        ),
    }
}

pub fn config_source_diagnostic(source: ConfigSource, i18n: I18n) -> (r: Diagnostic)
    ensures
        r@ == config_source_spec(i18n@, source),
{
    match source {
        ConfigSource::Active => diagnostic(
            DiagnosticLevel::Success,
            i18n.t(Msg::DoctorConfigActiveTitle),
            SYSTEM_CONFIG_FILE,
            None,
        ),
        ConfigSource::Legacy => diagnostic(
            DiagnosticLevel::Warn,
            i18n.t(Msg::DoctorConfigLegacyTitle),
            i18n.t(Msg::DoctorConfigLegacyDetail),
            Some(i18n.t(Msg::DoctorConfigLegacyHint)),
        ),
        ConfigSource::EmbeddedDefault => diagnostic(
            DiagnosticLevel::Warn,
            i18n.t(Msg::DoctorConfigEmbeddedTitle),
            i18n.t(Msg::DoctorConfigEmbeddedDetail),
            Some(i18n.t(Msg::DoctorConfigEmbeddedHint)),
        ),
    }
}

/// The leftovers of an earlier installation: its configuration (when it is the
/// one in use and exists), its plist, and its launchd service (loaded, or else
/// disabled).
pub open spec fn legacy_artifacts(
    source: ConfigSource,
    legacy_config_exists: bool,
    legacy_plist_exists: bool,
    service: (bool, Option<bool>),
) -> Seq<Seq<char>> {
    let a: Seq<Seq<char>> = if source == ConfigSource::Legacy && legacy_config_exists {
        seq![LEGACY_SYSTEM_CONFIG_FILE@]
    } else {
        Seq::empty()
    };
    let b = if legacy_plist_exists {
        a.push(LEGACY_PLIST_DEST@)
    } else {
        a
    };
    if service.0 {
        b.push("launchd:"@ + LEGACY_LAUNCHD_LABEL@)
    } else if service.1 == Some(true) {
        b.push("launchd-disabled:"@ + LEGACY_LAUNCHD_LABEL@)
    } else {
        b
    }
}

pub open spec fn legacy_installation_spec(
    l: crate::i18n::Language,
    source: ConfigSource,
    legacy_config_exists: bool,
    legacy_plist_exists: bool,
    service: (bool, Option<bool>),
) -> Option<DiagView> {
    let arts = legacy_artifacts(source, legacy_config_exists, legacy_plist_exists, service);
    if arts.len() == 0 {
        None
    } else {
        Some(
            (
                DiagnosticLevel::Warn,
                text(l, Msg::DoctorLegacyArtifactsTitle),
                join(arts, ", "@),
                Some(text(l, Msg::DoctorLegacyArtifactsHint)),
            ),
        )
    }
}

pub open spec fn opt_diag_view(o: Option<Diagnostic>) -> Option<DiagView> {
    match o {
        Some(d) => Some(d@),
        None => None,
    }
}

pub fn legacy_installation_diagnostic(
    source: ConfigSource,
    legacy_config_exists: bool,
    legacy_plist_exists: bool,
    legacy_service: &ServiceStatus,
    i18n: I18n,
) -> (r: Option<Diagnostic>)
    ensures
        opt_diag_view(r) == legacy_installation_spec(
            i18n@,
            source,
            legacy_config_exists,
            legacy_plist_exists,
            (legacy_service.loaded, legacy_service.disabled),
        ),
{
    let mut artifacts: Vec<Vec<char>> = Vec::new();
    if source == ConfigSource::Legacy && legacy_config_exists {
        push_line(&mut artifacts, to_chars(LEGACY_SYSTEM_CONFIG_FILE));
    }
    if legacy_plist_exists {
        push_line(&mut artifacts, to_chars(LEGACY_PLIST_DEST));
    }
    if legacy_service.loaded {
        let mut a = to_chars("launchd:");
        extend_str(&mut a, LEGACY_LAUNCHD_LABEL);
        push_line(&mut artifacts, a);
    } else if legacy_service.disabled == Some(true) {
        let mut a = to_chars("launchd-disabled:");
        extend_str(&mut a, LEGACY_LAUNCHD_LABEL);
        push_line(&mut artifacts, a);
    }
    proof {
        assert(views(artifacts@) =~= legacy_artifacts(
            source,
            legacy_config_exists,
            legacy_plist_exists,
            (legacy_service.loaded, legacy_service.disabled),
        ));
    }
    if artifacts.len() == 0 {
        return None;
    }
    let sep = to_chars(", ");
    let j = join_chars(&artifacts, &sep);
    let detail = from_chars(&j);
    Some(
        diagnostic(
            DiagnosticLevel::Warn,
            i18n.t(Msg::DoctorLegacyArtifactsTitle),
            detail.as_str(),
            Some(i18n.t(Msg::DoctorLegacyArtifactsHint)),
        ),
    )
}

/// The doctor's finding on DNS over HTTPS, which it cannot inspect.
pub open spec fn doh_spec(l: crate::i18n::Language) -> DiagView {
    (
        DiagnosticLevel::Warn,
        text(l, Msg::DoctorDohTitle),
        text(l, Msg::DoctorDohDetail),
        Some(text(l, Msg::DoctorDohHint)),
    )
}

pub fn doh_diagnostic(i18n: I18n) -> (r: Diagnostic)
    ensures
        r@ == doh_spec(i18n@),
{
    diagnostic(
        DiagnosticLevel::Warn,
        i18n.t(Msg::DoctorDohTitle),
        i18n.t(Msg::DoctorDohDetail),
        Some(i18n.t(Msg::DoctorDohHint)),
    )
}

/// The finding on the site list: a warning when it is empty, else how many sites.
pub open spec fn site_list_spec(l: crate::i18n::Language, n: nat) -> DiagView {
    if n == 0 {
        (
            DiagnosticLevel::Warn,
            text(l, Msg::DoctorSitesEmptyTitle),
            text(l, Msg::DoctorSitesEmptyDetail),
            Some(text(l, Msg::DoctorSitesEmptyHint)),
        )
    } else {
        (
            DiagnosticLevel::Success,
            text(l, Msg::DoctorSitesLoadedTitle),
            text(l, Msg::ConfiguredSitesLabel) + ": "@ + decimal(n),
            None,
        )
    }
}

pub fn site_list_diagnostic(config: &Config, i18n: I18n) -> (r: Diagnostic)
    ensures
        r@ == site_list_spec(i18n@, config.domains.list@.len()),
{
    if config.domains.list.len() == 0 {
        diagnostic(
            DiagnosticLevel::Warn,
            i18n.t(Msg::DoctorSitesEmptyTitle),
            i18n.t(Msg::DoctorSitesEmptyDetail),
            Some(i18n.t(Msg::DoctorSitesEmptyHint)),
        )
    } else {
        let mut d = to_chars(i18n.configured_sites_label());
        extend_str(&mut d, ": ");
        let n = decimal_chars(config.domains.list.len() as u64);
        extend(&mut d, &n);
        let detail = from_chars(&d);
        diagnostic(DiagnosticLevel::Success, i18n.t(Msg::DoctorSitesLoadedTitle), detail.as_str(), None)
    }
}

/// The findings on the hosts file: unreadable; else duplicated sections (more than
/// two marker lines) or consistent, then a section that differs from the expected
/// one, or in sync.
pub open spec fn hosts_spec(l: crate::i18n::Language, c: Config, hosts: Result<Seq<char>, Seq<char>>) -> Seq<DiagView> {
    match hosts {
        Err(e) => seq![
            (
                DiagnosticLevel::Error,
                text(l, Msg::DoctorHostsUnreadableTitle),
                e,
                Some(text(l, Msg::DoctorHostsUnreadableHint)),
            ),
        ],
        Ok(content) => {
            let m = c.hosts.marker@;
            let count = count_lines(lines_of(content), m);
            let first = if count > 2 {
                (
                    DiagnosticLevel::Warn,
                    text(l, Msg::DoctorHostsDuplicateTitle),
                    decimal(count) + " markers"@,
                    Some(text(l, Msg::DoctorHostsDuplicateHint)),
                )
            } else {
                (DiagnosticLevel::Success, text(l, Msg::DoctorHostsConsistentTitle), c.hosts.file@, None)
            };
            let stale = contains_sub(content, m) && existing_block(content, m) != Some(
                block_section(m, strs(c.domains.list@), strs(c.hosts.redirect_ips@)),
            );
            let second = if stale {
                (
                    DiagnosticLevel::Warn,
                    text(l, Msg::DoctorHostsMismatchTitle),
                    text(l, Msg::DoctorHostsMismatchDetail),
                    Some(text(l, Msg::DoctorHostsMismatchHint)),
                )
            } else {
                (
                    DiagnosticLevel::Success,
                    text(l, Msg::DoctorHostsSyncedTitle),
                    text(l, Msg::DoctorHostsSyncedDetail),
                    None,
                )
            };
            seq![first, second]
        },
    }
}

pub open spec fn result_view(r: Result<String, String>) -> Result<Seq<char>, Seq<char>> {
    match r {
        Ok(s) => Ok(s@),
        Err(e) => Err(e@),
    }
}

fn push_diag(v: &mut Vec<Diagnostic>, d: Diagnostic)
    ensures
        diag_views(final(v)@) == diag_views(old(v)@).push(d@),
{
    let ghost o = v@;
    v.push(d);
    proof {
        assert(diag_views(v@) =~= diag_views(o).push(d@));
    }
}

/// The findings on the hosts file as read (`Err` holds the read error's text).
pub fn hosts_diagnostics(config: &Config, hosts: &Result<String, String>, i18n: I18n) -> (r: Vec<Diagnostic>)
    ensures
        diag_views(r@) == hosts_spec(i18n@, *config, result_view(*hosts)),
{
    let mut out: Vec<Diagnostic> = Vec::new();
    match hosts {
        Err(e) => {
            push_diag(
                &mut out,
                diagnostic(
                    DiagnosticLevel::Error,
                    i18n.t(Msg::DoctorHostsUnreadableTitle),
                    e.as_str(),
                    Some(i18n.t(Msg::DoctorHostsUnreadableHint)),
                ),
            );
            assert(diag_views(out@) =~= hosts_spec(i18n@, *config, result_view(*hosts)));
            out
        },
        Ok(content) => {
            let marker = config.hosts.marker.as_str();
            let count = count_markers(content.as_str(), marker);
            if count > 2 {
                let mut d = decimal_chars(count as u64);
                extend_str(&mut d, " markers");
                let detail = from_chars(&d);
                push_diag(
                    &mut out,
                    diagnostic(
                        DiagnosticLevel::Warn,
                        i18n.t(Msg::DoctorHostsDuplicateTitle),
                        detail.as_str(),
                        Some(i18n.t(Msg::DoctorHostsDuplicateHint)),
                    ),
                );
            } else {
                push_diag(
                    &mut out,
                    diagnostic(
                        DiagnosticLevel::Success,
                        i18n.t(Msg::DoctorHostsConsistentTitle),
                        config.hosts.file.as_str(),
                        None,
                    ),
                );
            }
            let expected = match has_expected_block(
                content.as_str(),
                marker,
                config.domains.list.as_slice(),
                config.hosts.redirect_ips.as_slice(),
            ) {
                Ok(b) => b,
                Err(_) => false,
            };
            if is_blocked(content.as_str(), marker) && !expected {
                push_diag(
                    &mut out,
                    diagnostic(
                        DiagnosticLevel::Warn,
                        i18n.t(Msg::DoctorHostsMismatchTitle),
                        i18n.t(Msg::DoctorHostsMismatchDetail),
                        Some(i18n.t(Msg::DoctorHostsMismatchHint)),
                    ),
                );
            } else {
                push_diag(
                    &mut out,
                    diagnostic(
                        DiagnosticLevel::Success,
                        i18n.t(Msg::DoctorHostsSyncedTitle),
                        i18n.t(Msg::DoctorHostsSyncedDetail),
                        None,
                    ),
                );
            }
            assert(diag_views(out@) =~= hosts_spec(i18n@, *config, result_view(*hosts)));
            out
        },
    }
}

} // verus!

verus! {

/// What `format!("{:?}", s)` gives for a string slice (the text quoted, with
/// escapes).
pub uninterp spec fn debug_quoted(s: Seq<char>) -> Seq<char>;

/// `<str as Debug>::fmt` through `format!("{:?}", ..)`: the text between double
/// quotes with its special characters escaped. Its result is named `debug_quoted`;
/// nothing more is claimed of it.
#[verifier::external_body]
fn debug_str(s: &str) -> (r: String)
    ensures
        r@ == debug_quoted(s@),
{
    format!("{:?}", s)
}

/// `{:?}` of an `Option<String>`.
pub open spec fn debug_option(o: Option<Seq<char>>) -> Seq<char> {
    match o {
        Some(s) => "Some("@ + debug_quoted(s) + ")"@,
        None => "None"@,
    }
}

/// `{:?}` of a `Vec<String>`.
pub open spec fn debug_list(v: Seq<Seq<char>>) -> Seq<char> {
    "["@ + join(v.map_values(|s: Seq<char>| debug_quoted(s)), ", "@) + "]"@
}

fn debug_option_chars(o: &Option<String>) -> (r: Vec<char>)
    ensures
        r@ == debug_option(opt_view(*o)),
{
    match o {
        Some(s) => {
            let mut v = to_chars("Some(");
            let d = debug_str(s.as_str());
            extend_str(&mut v, d.as_str());
            extend_str(&mut v, ")");
            v
        },
        None => to_chars("None"),
    }
}

fn debug_list_chars(v: &Vec<String>) -> (r: Vec<char>)
    ensures
        r@ == debug_list(strs(v@)),
{
    let mut parts: Vec<Vec<char>> = Vec::new();
    let mut i: usize = 0;
    let ghost target = strs(v@).map_values(|s: Seq<char>| debug_quoted(s));
    while i < v.len()
        invariant
            i <= v.len(),
            target == strs(v@).map_values(|s: Seq<char>| debug_quoted(s)),
            views(parts@) == target.take(i as int),
        decreases v.len() - i,
    {
        let d = debug_str(v[i].as_str());
        push_line(&mut parts, to_chars(d.as_str()));
        assert(views(parts@) =~= target.take(i + 1));
        i = i + 1;
    }
    assert(target.take(v.len() as int) =~= target);
    let sep = to_chars(", ");
    let j = join_chars(&parts, &sep);
    let mut out = to_chars("[");
    extend(&mut out, &j);
    extend_str(&mut out, "]");
    out
}

/// What the doctor can read of the plist.
#[derive(Debug, Clone)]
pub enum PlistState {
    Missing,
    /// The text of the read error.
    Unreadable(String),
    /// The content, and whether its program (the first program argument) exists
    /// on disk; that flag only counts when there is a program argument.
    Read { content: String, binary_exists: bool },
}

/// The finding on the launchd plist.
pub open spec fn plist_spec(l: crate::i18n::Language, state: PlistState) -> DiagView {
    match state {
        PlistState::Missing => (
            DiagnosticLevel::Warn,
            text(l, Msg::DoctorPlistMissingTitle),
            PLIST_DEST@,
            Some(text(l, Msg::DoctorPlistMissingHint)),
        ),
        PlistState::Unreadable(e) => (DiagnosticLevel::Error, text(l, Msg::DoctorPlistUnreadableTitle), e@, None),
        PlistState::Read { content, binary_exists } => {
            let label = plist_value_spec(content@, "Label"@);
            let args = program_arguments_spec(content@);
            let run_ok = args.len() > 1 && args[1] == "run"@;
            if label != Some(LAUNCHD_LABEL@) || !run_ok {
                (
                    DiagnosticLevel::Warn,
                    text(l, Msg::DoctorPlistMismatchTitle),
                    "Label="@ + debug_option(label) + ", ProgramArguments="@ + debug_list(args),
                    Some(text(l, Msg::DoctorPlistMismatchHint)),
                )
            } else if args.len() > 0 && !binary_exists {
                (
                    DiagnosticLevel::Error,
                    text(l, Msg::DoctorPlistBinaryMissingTitle),
                    args[0],
                    Some(text(l, Msg::DoctorPlistBinaryMissingHint)),
                )
            } else {
                (
                    DiagnosticLevel::Success,
                    text(l, Msg::DoctorPlistValidTitle),
                    PLIST_DEST@ + " -> "@ + debug_list(args),
                    None,
                )
            }
        },
    }
}

fn str_eq(a: &str, b: &str) -> (r: bool)
    ensures
        r == (a@ == b@),
{
    let ac = to_chars(a);
    let bc = to_chars(b);
    chars_eq(&ac, &bc)
}

pub fn plist_diagnostic(state: &PlistState, i18n: I18n) -> (r: Diagnostic)
    ensures
        r@ == plist_spec(i18n@, *state),
{
    match state {
        PlistState::Missing => diagnostic(
            DiagnosticLevel::Warn,
            i18n.t(Msg::DoctorPlistMissingTitle),
            PLIST_DEST,
            Some(i18n.t(Msg::DoctorPlistMissingHint)),
        ),
        PlistState::Unreadable(e) => diagnostic(
            DiagnosticLevel::Error,
            i18n.t(Msg::DoctorPlistUnreadableTitle),
            e.as_str(),
            None,
        ),
        PlistState::Read { content, binary_exists } => {
            let label = plist_value(content.as_str(), "Label");
            let args = plist_program_arguments(content.as_str());
            let run_ok = args.len() > 1 && str_eq(args[1].as_str(), "run");
            let label_ok = match &label {
                Some(v) => str_eq(v.as_str(), LAUNCHD_LABEL),
                None => false,
            };
            proof {
                assert(opt_view(label) == plist_value_spec(content@, "Label"@));
                assert(label_ok == (plist_value_spec(content@, "Label"@) == Some(LAUNCHD_LABEL@)));
                assert(run_ok == (strs(args@).len() > 1 && strs(args@)[1] == "run"@));
            }
            if !label_ok || !run_ok {
                let mut d = to_chars("Label=");
                let lo = debug_option_chars(&label);
                extend(&mut d, &lo);
                extend_str(&mut d, ", ProgramArguments=");
                let la = debug_list_chars(&args);
                extend(&mut d, &la);
                let detail = from_chars(&d);
                return diagnostic(
                    DiagnosticLevel::Warn,
                    i18n.t(Msg::DoctorPlistMismatchTitle),
                    detail.as_str(),
                    Some(i18n.t(Msg::DoctorPlistMismatchHint)),
                );
            }
            if args.len() > 0 && !*binary_exists {
                return diagnostic(
                    DiagnosticLevel::Error,
                    i18n.t(Msg::DoctorPlistBinaryMissingTitle),
                    args[0].as_str(),
                    Some(i18n.t(Msg::DoctorPlistBinaryMissingHint)),
                );
            }
            let mut d = to_chars(PLIST_DEST);
            extend_str(&mut d, " -> ");
            let la = debug_list_chars(&args);
            extend(&mut d, &la);
            let detail = from_chars(&d);
            diagnostic(DiagnosticLevel::Success, i18n.t(Msg::DoctorPlistValidTitle), detail.as_str(), None)
        },
    }
}

/// The finding on the daemon's launchd service: loaded, with its program, pid and
/// last exit status when known; else not loaded, and whether it is disabled.
pub open spec fn launchd_runtime_spec(l: crate::i18n::Language, s: ServiceStatus) -> DiagView {
    if s.loaded {
        let d0 = LAUNCHD_LABEL@;
        let d1 = match opt_view(s.program) {
            Some(p) => d0 + " | "@ + p,
            None => d0,
        };
        let d2 = match opt_view(s.pid) {
            Some(p) => d1 + " | pid "@ + p,
            None => d1,
        };
        let d3 = match opt_view(s.last_exit_status) {
            Some(e) => d2 + " | last exit "@ + e,
            None => d2,
        };
        (DiagnosticLevel::Success, text(l, Msg::DoctorLaunchdLoadedTitle), d3, None)
    } else if s.disabled == Some(true) {
        (
            DiagnosticLevel::Warn,
            text(l, Msg::DoctorLaunchdNotLoadedTitle),
            text(l, Msg::DoctorLaunchdDisabledDetail),
            Some(text(l, Msg::DoctorLaunchdDisabledHint)),
        )
    } else {
        (
            DiagnosticLevel::Warn,
            text(l, Msg::DoctorLaunchdNotLoadedTitle),
            text(l, Msg::DoctorLaunchdNotLoadedDetail),
            Some(text(l, Msg::DoctorLaunchdNotLoadedHint)),
        )
    }
}

pub fn launchd_runtime_diagnostic(service: &ServiceStatus, i18n: I18n) -> (r: Diagnostic)
    ensures
        r@ == launchd_runtime_spec(i18n@, *service),
{
    if service.loaded {
        let mut d = to_chars(LAUNCHD_LABEL);
        match &service.program {
            Some(p) => {
                extend_str(&mut d, " | ");
                extend_str(&mut d, p.as_str());
            },
            None => {},
        }
        match &service.pid {
            Some(p) => {
                extend_str(&mut d, " | pid ");
                extend_str(&mut d, p.as_str());
            },
            None => {},
        }
        match &service.last_exit_status {
            Some(e) => {
                extend_str(&mut d, " | last exit ");
                extend_str(&mut d, e.as_str());
            },
            None => {},
        }
        let detail = from_chars(&d);
        return diagnostic(DiagnosticLevel::Success, i18n.t(Msg::DoctorLaunchdLoadedTitle), detail.as_str(), None);
    }
    if service.disabled == Some(true) {
        diagnostic(
            DiagnosticLevel::Warn,
            i18n.t(Msg::DoctorLaunchdNotLoadedTitle),
            i18n.t(Msg::DoctorLaunchdDisabledDetail),
            Some(i18n.t(Msg::DoctorLaunchdDisabledHint)),
        )
    } else {
        diagnostic(
            DiagnosticLevel::Warn,
            i18n.t(Msg::DoctorLaunchdNotLoadedTitle),
            i18n.t(Msg::DoctorLaunchdNotLoadedDetail),
            Some(i18n.t(Msg::DoctorLaunchdNotLoadedHint)),
        )
    }
}

/// A copy of a finding.
pub fn copy_diagnostic(d: &Diagnostic) -> (r: Diagnostic)
    ensures
        r@ == d@,
{
    Diagnostic {
        level: d.level,
        title: String::from_str(d.title.as_str()),
        detail: String::from_str(d.detail.as_str()),
        hint: match &d.hint {
            Some(h) => Some(String::from_str(h.as_str())),
            None => None,
        },
    }
}

/// What the doctor gathers from the system before judging it.
#[derive(Debug)]
pub struct DoctorFacts {
    pub config_source: ConfigSource,
    pub legacy_config_exists: bool,
    pub legacy_plist_exists: bool,
    /// The earlier installation's launchd service, or why querying it failed.
    pub legacy_service: Result<ServiceStatus, String>,
    pub plist: PlistState,
    /// The launchd service, or why querying it failed.
    pub service: Result<ServiceStatus, String>,
    /// The hosts file's content, or the text of the read error.
    pub hosts: Result<String, String>,
}

/// All findings, in order, for the two services as queried: configuration source,
/// leftovers of an earlier installation (if any), plist, launchd service, site list,
/// hosts file, DNS over HTTPS.
pub open spec fn findings_spec(
    l: crate::i18n::Language,
    c: Config,
    f: DoctorFacts,
    legacy: ServiceStatus,
    service: ServiceStatus,
) -> Seq<DiagView> {
    let head = seq![config_source_spec(l, f.config_source)];
    let with_legacy = match legacy_installation_spec(
        l,
        f.config_source,
        f.legacy_config_exists,
        f.legacy_plist_exists,
        (legacy.loaded, legacy.disabled),
    ) {
        Some(d) => head.push(d),
        None => head,
    };
    with_legacy + seq![plist_spec(l, f.plist), launchd_runtime_spec(l, service), site_list_spec(l, c.domains.list@.len())]
        + hosts_spec(l, c, result_view(f.hosts)) + seq![doh_spec(l)]
}

/// What the doctor answers: the error of the earlier installation's service query
/// when it failed, else that of the service query when it failed, else all findings.
pub open spec fn run_spec(l: crate::i18n::Language, c: Config, f: DoctorFacts) -> Result<Seq<DiagView>, Seq<char>> {
    match f.legacy_service {
        Err(e) => Err(e@),
        Ok(legacy) => match f.service {
            Err(e) => Err(e@),
            Ok(service) => Ok(findings_spec(l, c, f, legacy, service)),
        },
    }
}

/// The doctor's findings for `config` and what was gathered (see `run_spec`).
pub fn run(config: &Config, i18n: I18n, facts: &DoctorFacts) -> (r: Result<Vec<Diagnostic>, String>)
    ensures
        match (r, run_spec(i18n@, *config, *facts)) {
            (Ok(v), Ok(s)) => diag_views(v@) == s,
            (Err(e), Err(t)) => e@ == t,
            _ => false,
        },
{
    let legacy = match &facts.legacy_service {
        Err(e) => return Err(String::from_str(e.as_str())),
        Ok(s) => s,
    };
    let service = match &facts.service {
        Err(e) => return Err(String::from_str(e.as_str())),
        Ok(s) => s,
    };
    let mut out: Vec<Diagnostic> = Vec::new();
    push_diag(&mut out, config_source_diagnostic(facts.config_source, i18n));
    match legacy_installation_diagnostic(
        facts.config_source,
        facts.legacy_config_exists,
        facts.legacy_plist_exists,
        legacy,
        i18n,
    ) {
        Some(d) => push_diag(&mut out, d),
        None => {},
    }
    push_diag(&mut out, plist_diagnostic(&facts.plist, i18n));
    push_diag(&mut out, launchd_runtime_diagnostic(service, i18n));
    push_diag(&mut out, site_list_diagnostic(config, i18n));
    let hosts = hosts_diagnostics(config, &facts.hosts, i18n);
    let ghost before = diag_views(out@);
    let mut i: usize = 0;
    while i < hosts.len()
        invariant
            i <= hosts.len(),
            diag_views(out@) == before + diag_views(hosts@).take(i as int),
        decreases hosts.len() - i,
    {
        let h = copy_diagnostic(&hosts[i]);
        push_diag(&mut out, h);
        assert(diag_views(hosts@).take(i + 1) =~= diag_views(hosts@).take(i as int).push(hosts@[i as int]@));
        i = i + 1;
    }
    assert(diag_views(hosts@).take(hosts.len() as int) =~= diag_views(hosts@));
    push_diag(&mut out, doh_diagnostic(i18n));
    assert(diag_views(out@) =~= findings_spec(i18n@, *config, *facts, *legacy, *service));
    Ok(out)
}

} // verus!
