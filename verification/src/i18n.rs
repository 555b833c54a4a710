use vstd::prelude::*;
use crate::num::{decimal, decimal_chars, two_digits, two_digit_chars};
use crate::text::{ascii_lower_seq, extend, from_chars, is_ascii_text, lowercase, replace_all, replace_chars, to_chars, to_lowercase, trim, trim_chars};

verus! {

/// The languages of the interface.
#[derive(Debug, Clone, Copy, PartialEq, Eq, Structural)]
pub enum Language {
    Es,
    En,
}

impl Default for Language {
    fn default() -> (r: Self)
        ensures
            r == Language::Es,
    {
        Language::Es
    }
}

pub open spec fn language_code(l: Language) -> Seq<char> {
    match l {
        Language::Es => "es"@,
        Language::En => "en"@,
    }
}

pub open spec fn language_native_name(l: Language) -> Seq<char> {
    match l {
        Language::Es => "Español"@,
        Language::En => "English"@,
    }
}

/// The language a user names: the value is trimmed and lowercased, then Spanish is
/// `es`, `spa`, `spanish`, `espanol` or `español`, and English `en`, `eng` or `english`.
pub open spec fn parse_language(value: Seq<char>) -> Option<Language> {
    language_named(lowercase(trim(value)))
}

/// The language a trimmed, lowercased name stands for.
pub open spec fn language_named(n: Seq<char>) -> Option<Language> {
    if n == "es"@ || n == "spa"@ || n == "spanish"@ || n == "espanol"@ || n == "español"@ {
        Some(Language::Es)
    } else if n == "en"@ || n == "eng"@ || n == "english"@ {
        Some(Language::En)
    } else {
        None
    }
}

fn eq_str(a: &Vec<char>, b: &str) -> (r: bool)
    ensures
        r == (a@ == b@),
{
    let bc = to_chars(b);
    crate::text::chars_eq(a, &bc)
}

impl Language {
    pub fn code(self) -> (r: &'static str)
        ensures
            r@ == language_code(self),
    {
        match self {
            Language::Es => "es",
            Language::En => "en",
        }
    }

    pub fn native_name(self) -> (r: &'static str)
        ensures
            r@ == language_native_name(self),
    {
        match self {
            Language::Es => "Español",
            Language::En => "English",
        }
    }

    pub fn parse(value: &str) -> (r: Option<Self>)
        ensures
            r == parse_language(value@),
            is_ascii_text(trim(value@)) ==> r == language_named(ascii_lower_seq(trim(value@))),
    {
        let raw = to_chars(value);
        let trimmed = trim_chars(&raw);
        let trimmed_s = from_chars(&trimmed);
        let lowered = to_lowercase(trimmed_s.as_str());
        let n = to_chars(lowered.as_str());
        if eq_str(&n, "es") || eq_str(&n, "spa") || eq_str(&n, "spanish") || eq_str(&n, "espanol")
            || eq_str(&n, "español") {
            Some(Language::Es)
        } else if eq_str(&n, "en") || eq_str(&n, "eng") || eq_str(&n, "english") {
            Some(Language::En)
        } else {
            None
        }
    }
}

/// A language's code names that language: the code read back by `Language::parse`
/// (see its second clause: the code is ASCII) gives the language.
pub proof fn law_parse_reads_code(l: Language)
    ensures
        is_ascii_text(trim(language_code(l))),
        language_named(ascii_lower_seq(trim(language_code(l)))) == Some(l),
{
    reveal_strlit("es");
    reveal_strlit("en");
    reveal_strlit("spa");
    reveal_strlit("spanish");
    reveal_strlit("espanol");
    reveal_strlit("español");
    let c = language_code(l);
    assert(trim(c) =~= c) by {
        assert(crate::text::trim_start(c) == c);
        assert(crate::text::trim_end(c) == c);
    }
    assert(ascii_lower_seq(c) =~= c);
}

/// The messages of the interface.
#[derive(Debug, Clone, Copy, PartialEq, Eq, Structural)]
pub enum Msg {
    BlockedLabel,
    UnblockedLabel,
    ScheduleActiveLabel,
    ScheduleInactiveLabel,
    NextChangeLabel,
    RelativeTimeLabel,
    ConfiguredSitesLabel,
    StatusTitle,
    Subtitle,
    RequiresRoot,
    BlockedNow,
    UnblockedNow,
    UnblockCancelled,
    InstallStarted,
    InstallCompleted,
    UninstallStarted,
    UninstallCompleted,
    InstallNote,
    HomeTab,
    SitesTab,
    ScheduleTab,
    SettingsTab,
    DiagnosticsTab,
    WallTab,
    ExitTab,
    StreakTab,
    SiteRemoveCountdownTitle,
    SiteRemoveCountdownSubtitle,
    SiteRemoveReasonTitle,
    SiteRemoveFinalTitle,
    DoctorTitle,
    DiagnosticsRefresh,
    OkLabel,
    WarningLabel,
    ErrorLabel,
    HomeActions,
    HomeActionBlock,
    HomeActionUnblock,
    HomeActionRefresh,
    HomeActionExit,
    SiteEmpty,
    AddSitePrompt,
    SelectedLabel,
    SiteAddAction,
    SiteRemoveAction,
    SiteMoveSelection,
    ManageLabel,
    ScheduleControls,
    WeekendsLabel,
    WeekendsOn,
    WeekendsOff,
    StartLabel,
    EndLabel,
    ControlsLabel,
    LanguageLabel,
    LanguageChangeHint,
    ExitScreenTitle,
    ExitScreenBody,
    ExitScreenHint,
    HeaderNavHint,
    HeaderConfirmHint,
    HeaderQuitHint,
    TuiHint,
    WallTitle,
    WallEmpty,
    CountdownTitle,
    CountdownSubtitle,
    CountdownHint,
    ReasonPromptTitle,
    ReasonPromptHint,
    ReasonRequired,
    ReasonRequiredLabel,
    FinalCountdownTitle,
    FinalCountdownReasonLabel,
    BreathIn,
    BreathOut,
    InputLabel,
    WeekdayMon,
    WeekdayTue,
    WeekdayWed,
    WeekdayThu,
    WeekdayFri,
    WeekdaySat,
    WeekdaySun,
    LanguageUpdated,
    CurrentLanguage,
    SiteAdded,
    SiteRemoved,
    SiteAlreadyPresent,
    SiteNotFound,
    RemoveConfirmRequired,
    UnsupportedLanguage,
    ScheduleUpdated,
    ScheduleSummary,
    DoctorConfigActiveTitle,
    DoctorConfigLegacyTitle,
    DoctorConfigLegacyDetail,
    DoctorConfigLegacyHint,
    DoctorConfigEmbeddedTitle,
    DoctorConfigEmbeddedDetail,
    DoctorConfigEmbeddedHint,
    DoctorLegacyArtifactsTitle,
    DoctorLegacyArtifactsHint,
    DoctorPlistMissingTitle,
    DoctorPlistMissingHint,
    DoctorPlistUnreadableTitle,
    DoctorPlistMismatchTitle,
    DoctorPlistMismatchHint,
    DoctorPlistBinaryMissingTitle,
    DoctorPlistBinaryMissingHint,
    DoctorPlistValidTitle,
    DoctorLaunchdLoadedTitle,
    DoctorLaunchdDisabledDetail,
    DoctorLaunchdDisabledHint,
    DoctorLaunchdNotLoadedTitle,
    DoctorLaunchdNotLoadedDetail,
    DoctorLaunchdNotLoadedHint,
    DoctorSitesEmptyTitle,
    DoctorSitesEmptyDetail,
    DoctorSitesEmptyHint,
    DoctorSitesLoadedTitle,
    DoctorHostsUnreadableTitle,
    DoctorHostsUnreadableHint,
    DoctorHostsDuplicateTitle,
    DoctorHostsDuplicateHint,
    DoctorHostsConsistentTitle,
    DoctorHostsMismatchTitle,
    DoctorHostsMismatchDetail,
    DoctorHostsMismatchHint,
    DoctorHostsSyncedTitle,
    DoctorHostsSyncedDetail,
    DoctorDohTitle,
    DoctorDohDetail,
    DoctorDohHint,
    InstallSupportDirReady,
    InstallConfigPreserved,
    InstallConfigMigrated,
    InstallConfigCreated,
    InstallSyncBlocked,
    InstallSyncUnblocked,
    InstallSyncUpdated,
    InstallSyncAlreadyCorrect,
    InstallLaunchdUpdated,
    InstallBinaryCopied,
    InstallBinaryUsingExisting,
    InstallLegacyUnloaded,
    InstallLegacyPlistRemoved,
    InstallPidSuffix,
    InstallLaunchdVerified,
    UninstallHostsBlockRemoved,
    UninstallLaunchdRemoved,
    UninstallLaunchdUnloaded,
    UninstallBinaryRemoved,
    UninstallConfigPreserved,
}

/// The text of a message in a language. Templates hold `{0}`, `{1}`, ... where
/// arguments go.
pub open spec fn text(l: Language, key: Msg) -> Seq<char> {
    match key {
        Msg::BlockedLabel => match l {
            Language::Es => "Bloqueado"@,
            Language::En => "Blocked"@,
        },
        Msg::UnblockedLabel => match l {
            Language::Es => "Desbloqueado"@,
            Language::En => "Unblocked"@,
        },
        Msg::ScheduleActiveLabel => match l {
            Language::Es => "Horario de bloqueo activo"@,
            Language::En => "Blocking schedule active"@,
        },
        Msg::ScheduleInactiveLabel => match l {
            Language::Es => "Fuera del horario de bloqueo"@,
            Language::En => "Outside the blocking schedule"@,
        },
        Msg::NextChangeLabel => match l {
            Language::Es => "Próximo cambio"@,
            Language::En => "Next change"@,
        },
        Msg::RelativeTimeLabel => match l {
            Language::Es => "desde ahora"@,
            Language::En => "from now"@,
        },
        Msg::ConfiguredSitesLabel => match l {
            Language::Es => "Sitios configurados"@,
            Language::En => "Configured sites"@,
        },
        Msg::StatusTitle => match l {
            Language::Es => "Estado"@,
            Language::En => "Status"@,
        },
        Msg::Subtitle => match l {
            Language::Es => "Bloqueador de distracciones"@,
            Language::En => "Distraction blocker"@,
        },
        Msg::RequiresRoot => match l {
            Language::Es => "Este comando necesita permisos de administrador. Usa sudo."@,
            Language::En => "This command needs administrator privileges. Use sudo."@,
        },
        Msg::BlockedNow => match l {
            Language::Es => "Sitios bloqueados."@,
            Language::En => "Sites blocked."@,
        },
        Msg::UnblockedNow => match l {
            Language::Es => "Sitios desbloqueados."@,
            Language::En => "Sites unblocked."@,
        },
        Msg::UnblockCancelled => match l {
            Language::Es => "Desbloqueo cancelado."@,
            Language::En => "Unblock cancelled."@,
        },
        Msg::InstallStarted => match l {
            Language::Es => "Instalando PARAMO…"@,
            Language::En => "Installing PARAMO…"@,
        },
        Msg::InstallCompleted => match l {
            Language::Es => "Instalación completada."@,
            Language::En => "Installation completed."@,
        },
        Msg::UninstallStarted => match l {
            Language::Es => "Desinstalando PARAMO…"@,
            Language::En => "Uninstalling PARAMO…"@,
        },
        Msg::UninstallCompleted => match l {
            Language::Es => "Desinstalación completada."@,
            Language::En => "Uninstall completed."@,
        },
        Msg::InstallNote => match l {
            Language::Es => "Ejecuta sudo paramo install para aplicar el bloqueo por horario."@,
            Language::En => "Run sudo paramo install to apply the scheduled block."@,
        },
        Msg::HomeTab => match l {
            Language::Es => "Inicio"@,
            Language::En => "Home"@,
        },
        Msg::SitesTab => match l {
            Language::Es => "Sitios"@,
            Language::En => "Sites"@,
        },
        Msg::ScheduleTab => match l {
            Language::Es => "Horario"@,
            Language::En => "Schedule"@,
        },
        Msg::SettingsTab => match l {
            Language::Es => "Ajustes"@,
            Language::En => "Settings"@,
        },
        Msg::DiagnosticsTab => match l {
            Language::Es => "Diagnóstico"@,
            Language::En => "Diagnostics"@,
        },
        Msg::WallTab => match l {
            Language::Es => "Muro"@,
            Language::En => "Wall"@,
        },
        Msg::ExitTab => match l {
            Language::Es => "Salir"@,
            Language::En => "Exit"@,
        },
        Msg::StreakTab => match l {
            Language::Es => "Racha"@,
            Language::En => "Streak"@,
        },
        Msg::SiteRemoveCountdownTitle => match l {
            Language::Es => "Vas a dejar de bloquear {0}"@,
            Language::En => "You are about to stop blocking {0}"@,
        },
        Msg::SiteRemoveCountdownSubtitle => match l {
            Language::Es => "Espera. ¿De verdad lo necesitas?"@,
            Language::En => "Wait. Do you really need it?"@,
        },
        Msg::SiteRemoveReasonTitle => match l {
            Language::Es => "¿Por qué quieres dejar de bloquear {0}?"@,
            Language::En => "Why do you want to stop blocking {0}?"@,
        },
        Msg::SiteRemoveFinalTitle => match l {
            Language::Es => "Última cuenta atrás para {0}"@,
            Language::En => "Final countdown for {0}"@,
        },
        Msg::DoctorTitle => match l {
            Language::Es => "Diagnóstico de PARAMO"@,
            Language::En => "PARAMO diagnostics"@,
        },
        Msg::DiagnosticsRefresh => match l {
            Language::Es => "g: volver a diagnosticar"@,
            Language::En => "g: run diagnostics again"@,
        },
        Msg::OkLabel => match l {
            Language::Es => "OK"@,
            Language::En => "OK"@,
        },
        Msg::WarningLabel => match l {
            Language::Es => "AVISO"@,
            Language::En => "WARN"@,
        },
        Msg::ErrorLabel => match l {
            Language::Es => "ERROR"@,
            Language::En => "ERROR"@,
        },
        Msg::HomeActions => match l {
            Language::Es => "Acciones"@,
            Language::En => "Actions"@,
        },
        Msg::HomeActionBlock => match l {
            Language::Es => "b: bloquear ahora"@,
            Language::En => "b: block now"@,
        },
        Msg::HomeActionUnblock => match l {
            Language::Es => "u: desbloquear"@,
            Language::En => "u: unblock"@,
        },
        Msg::HomeActionRefresh => match l {
            Language::Es => "r: refrescar estado"@,
            Language::En => "r: refresh status"@,
        },
        Msg::HomeActionExit => match l {
            Language::Es => "q: salir"@,
            Language::En => "q: quit"@,
        },
        Msg::SiteEmpty => match l {
            Language::Es => "No hay sitios configurados."@,
            Language::En => "No sites configured."@,
        },
        Msg::AddSitePrompt => match l {
            Language::Es => "Sitio que quieres bloquear"@,
            Language::En => "Site you want to block"@,
        },
        Msg::SelectedLabel => match l {
            Language::Es => "Seleccionado"@,
            Language::En => "Selected"@,
        },
        Msg::SiteAddAction => match l {
            Language::Es => "a: añadir sitio"@,
            Language::En => "a: add site"@,
        },
        Msg::SiteRemoveAction => match l {
            Language::Es => "d: eliminar sitio"@,
            Language::En => "d: remove site"@,
        },
        Msg::SiteMoveSelection => match l {
            Language::Es => "↑/↓: mover selección"@,
            Language::En => "↑/↓: move selection"@,
        },
        Msg::ManageLabel => match l {
            Language::Es => "Gestionar"@,
            Language::En => "Manage"@,
        },
        Msg::ScheduleControls => match l {
            Language::Es => "↑/↓: elegir campo · ←/→: cambiar valor"@,
            Language::En => "↑/↓: choose field · ←/→: change value"@,
        },
        Msg::WeekendsLabel => match l {
            Language::Es => "Fines de semana"@,
            Language::En => "Weekends"@,
        },
        Msg::WeekendsOn => match l {
            Language::Es => "sí"@,
            Language::En => "on"@,
        },
        Msg::WeekendsOff => match l {
            Language::Es => "no"@,
            Language::En => "off"@,
        },
        Msg::StartLabel => match l {
            Language::Es => "Inicio"@,
            Language::En => "Start"@,
        },
        Msg::EndLabel => match l {
            Language::Es => "Fin"@,
            Language::En => "End"@,
        },
        Msg::ControlsLabel => match l {
            Language::Es => "Controles"@,
            Language::En => "Controls"@,
        },
        Msg::LanguageLabel => match l {
            Language::Es => "Idioma"@,
            Language::En => "Language"@,
        },
        Msg::LanguageChangeHint => match l {
            Language::Es => "←/→/Enter: cambiar idioma"@,
            Language::En => "←/→/Enter: change language"@,
        },
        Msg::ExitScreenTitle => match l {
            Language::Es => "¿Salir de PARAMO?"@,
            Language::En => "Leave PARAMO?"@,
        },
        Msg::ExitScreenBody => match l {
            Language::Es => "El bloqueo sigue activo aunque cierres esta ventana."@,
            Language::En => "The block stays active after you close this window."@,
        },
        Msg::ExitScreenHint => match l {
            Language::Es => "Enter o espacio para salir"@,
            Language::En => "Enter or space to quit"@,
        },
        Msg::HeaderNavHint => match l {
            Language::Es => "Tab/Shift+Tab: cambiar pestaña"@,
            Language::En => "Tab/Shift+Tab: switch tab"@,
        },
        Msg::HeaderConfirmHint => match l {
            Language::Es => "Enter: confirmar"@,
            Language::En => "Enter: confirm"@,
        },
        Msg::HeaderQuitHint => match l {
            Language::Es => "q: salir"@,
            Language::En => "q: quit"@,
        },
        Msg::TuiHint => match l {
            Language::Es => "Tab para navegar · q para salir"@,
            Language::En => "Tab to navigate · q to quit"@,
        },
        Msg::WallTitle => match l {
            Language::Es => "Muro de desbloqueos"@,
            Language::En => "Unblock wall"@,
        },
        Msg::WallEmpty => match l {
            Language::Es => "Todavía no hay desbloqueos registrados."@,
            Language::En => "No unblocks recorded yet."@,
        },
        Msg::CountdownTitle => match l {
            Language::Es => "Respira antes de desbloquear"@,
            Language::En => "Breathe before unblocking"@,
        },
        Msg::CountdownSubtitle => match l {
            Language::Es => "Espera a que termine la cuenta atrás"@,
            Language::En => "Wait for the countdown to finish"@,
        },
        Msg::CountdownHint => match l {
            Language::Es => "Esc para cancelar"@,
            Language::En => "Esc to cancel"@,
        },
        Msg::ReasonPromptTitle => match l {
            Language::Es => "¿Por qué quieres desbloquear?"@,
            Language::En => "Why do you want to unblock?"@,
        },
        Msg::ReasonPromptHint => match l {
            Language::Es => "Escribe el motivo y pulsa Enter"@,
            Language::En => "Type the reason and press Enter"@,
        },
        Msg::ReasonRequired => match l {
            Language::Es => "Tienes que escribir un motivo."@,
            Language::En => "You have to write a reason."@,
        },
        Msg::ReasonRequiredLabel => match l {
            Language::Es => "Motivo obligatorio"@,
            Language::En => "Reason required"@,
        },
        Msg::FinalCountdownTitle => match l {
            Language::Es => "Última cuenta atrás"@,
            Language::En => "Final countdown"@,
        },
        Msg::FinalCountdownReasonLabel => match l {
            Language::Es => "Motivo"@,
            Language::En => "Reason"@,
        },
        Msg::BreathIn => match l {
            Language::Es => "Inspira"@,
            Language::En => "Breathe in"@,
        },
        Msg::BreathOut => match l {
            Language::Es => "Espira"@,
            Language::En => "Breathe out"@,
        },
        Msg::InputLabel => match l {
            Language::Es => "Entrada"@,
            Language::En => "Input"@,
        },
        Msg::WeekdayMon => match l {
            Language::Es => "Lunes"@,
            Language::En => "Monday"@,
        },
        Msg::WeekdayTue => match l {
            Language::Es => "Martes"@,
            Language::En => "Tuesday"@,
        },
        Msg::WeekdayWed => match l {
            Language::Es => "Miércoles"@,
            Language::En => "Wednesday"@,
        },
        Msg::WeekdayThu => match l {
            Language::Es => "Jueves"@,
            Language::En => "Thursday"@,
        },
        Msg::WeekdayFri => match l {
            Language::Es => "Viernes"@,
            Language::En => "Friday"@,
        },
        Msg::WeekdaySat => match l {
            Language::Es => "Sábado"@,
            Language::En => "Saturday"@,
        },
        Msg::WeekdaySun => match l {
            Language::Es => "Domingo"@,
            Language::En => "Sunday"@,
        },
        Msg::LanguageUpdated => match l {
            Language::Es => "Idioma actualizado: {0}"@,
            Language::En => "Language updated: {0}"@,
        },
        Msg::CurrentLanguage => match l {
            Language::Es => "Idioma actual: {0} ({1})"@,
            Language::En => "Current language: {0} ({1})"@,
        },
        Msg::SiteAdded => match l {
            Language::Es => "Sitio añadido: {0}"@,
            Language::En => "Site added: {0}"@,
        },
        Msg::SiteRemoved => match l {
            Language::Es => "Sitio eliminado: {0}"@,
            Language::En => "Site removed: {0}"@,
        },
        Msg::SiteAlreadyPresent => match l {
            Language::Es => "El sitio ya está en la lista: {0}"@,
            Language::En => "The site is already in the list: {0}"@,
        },
        Msg::SiteNotFound => match l {
            Language::Es => "El sitio no está en la lista: {0}"@,
            Language::En => "The site is not in the list: {0}"@,
        },
        Msg::RemoveConfirmRequired => match l {
            Language::Es => "Para eliminar {0} repite el comando con --confirmar"@,
            Language::En => "To remove {0}, run the command again with --confirmar"@,
        },
        Msg::UnsupportedLanguage => match l {
            Language::Es => "Idioma no soportado: {0}. Usa es o en."@,
            Language::En => "Unsupported language: {0}. Use es or en."@,
        },
        Msg::ScheduleUpdated => match l {
            Language::Es => "Horario actualizado: {0}:00 - {1}:00 · fines de semana: {2}"@,
            Language::En => "Schedule updated: {0}:00 - {1}:00 · weekends: {2}"@,
        },
        Msg::ScheduleSummary => match l {
            Language::Es => "Horario: {0}:00 - {1}:00 · fines de semana: {2}"@,
            Language::En => "Schedule: {0}:00 - {1}:00 · weekends: {2}"@,
        },
        Msg::DoctorConfigActiveTitle => match l {
            Language::Es => "Configuración activa"@,
            Language::En => "Active configuration"@,
        },
        Msg::DoctorConfigLegacyTitle => match l {
            Language::Es => "Configuración antigua en uso"@,
            Language::En => "Legacy configuration in use"@,
        },
        Msg::DoctorConfigLegacyDetail => match l {
            Language::Es => "Se está leyendo la configuración de una instalación anterior."@,
            Language::En => "The configuration of a previous installation is being read."@,
        },
        Msg::DoctorConfigLegacyHint => match l {
            Language::Es => "Ejecuta sudo paramo install para migrarla."@,
            Language::En => "Run sudo paramo install to migrate it."@,
        },
        Msg::DoctorConfigEmbeddedTitle => match l {
            Language::Es => "Configuración por defecto"@,
            Language::En => "Default configuration"@,
        },
        Msg::DoctorConfigEmbeddedDetail => match l {
            Language::Es => "No hay configuración de sistema; se usa la plantilla incluida."@,
            Language::En => "There is no system configuration; the built-in template is used."@,
        },
        Msg::DoctorConfigEmbeddedHint => match l {
            Language::Es => "Ejecuta sudo paramo install para crearla."@,
            Language::En => "Run sudo paramo install to create it."@,
        },
        Msg::DoctorLegacyArtifactsTitle => match l {
            Language::Es => "Restos de una instalación anterior"@,
            Language::En => "Leftovers of a previous installation"@,
        },
        Msg::DoctorLegacyArtifactsHint => match l {
            Language::Es => "Ejecuta sudo paramo install para limpiarlos."@,
            Language::En => "Run sudo paramo install to clean them up."@,
        },
        Msg::DoctorPlistMissingTitle => match l {
            Language::Es => "Falta el plist de launchd"@,
            Language::En => "The launchd plist is missing"@,
        },
        Msg::DoctorPlistMissingHint => match l {
            Language::Es => "Ejecuta sudo paramo install."@,
            Language::En => "Run sudo paramo install."@,
        },
        Msg::DoctorPlistUnreadableTitle => match l {
            Language::Es => "No se puede leer el plist de launchd"@,
            Language::En => "The launchd plist cannot be read"@,
        },
        Msg::DoctorPlistMismatchTitle => match l {
            Language::Es => "El plist de launchd no es el esperado"@,
            Language::En => "The launchd plist is not the expected one"@,
        },
        Msg::DoctorPlistMismatchHint => match l {
            Language::Es => "Ejecuta sudo paramo install para regenerarlo."@,
            Language::En => "Run sudo paramo install to regenerate it."@,
        },
        Msg::DoctorPlistBinaryMissingTitle => match l {
            Language::Es => "El binario del plist no existe"@,
            Language::En => "The plist binary does not exist"@,
        },
        Msg::DoctorPlistBinaryMissingHint => match l {
            Language::Es => "Reinstala con sudo paramo install."@,
            Language::En => "Reinstall with sudo paramo install."@,
        },
        Msg::DoctorPlistValidTitle => match l {
            Language::Es => "Plist de launchd correcto"@,
            Language::En => "launchd plist is valid"@,
        },
        Msg::DoctorLaunchdLoadedTitle => match l {
            Language::Es => "Servicio launchd cargado"@,
            Language::En => "launchd service loaded"@,
        },
        Msg::DoctorLaunchdDisabledDetail => match l {
            Language::Es => "El servicio está deshabilitado en launchd."@,
            Language::En => "The service is disabled in launchd."@,
        },
        Msg::DoctorLaunchdDisabledHint => match l {
            Language::Es => "Ejecuta sudo launchctl enable system/com.paramo.blocker y reinstala."@,
            Language::En => "Run sudo launchctl enable system/com.paramo.blocker and reinstall."@,
        },
        Msg::DoctorLaunchdNotLoadedTitle => match l {
            Language::Es => "Servicio launchd no cargado"@,
            Language::En => "launchd service not loaded"@,
        },
        Msg::DoctorLaunchdNotLoadedDetail => match l {
            Language::Es => "launchd no tiene cargado el servicio de PARAMO."@,
            Language::En => "launchd has not loaded the PARAMO service."@,
        },
        Msg::DoctorLaunchdNotLoadedHint => match l {
            Language::Es => "Ejecuta sudo paramo install."@,
            Language::En => "Run sudo paramo install."@,
        },
        Msg::DoctorSitesEmptyTitle => match l {
            Language::Es => "Lista de sitios vacía"@,
            Language::En => "Empty site list"@,
        },
        Msg::DoctorSitesEmptyDetail => match l {
            Language::Es => "No hay ningún sitio que bloquear."@,
            Language::En => "There is no site to block."@,
        },
        Msg::DoctorSitesEmptyHint => match l {
            Language::Es => "Añade uno con paramo site add <sitio>."@,
            Language::En => "Add one with paramo site add <site>."@,
        },
        Msg::DoctorSitesLoadedTitle => match l {
            Language::Es => "Lista de sitios cargada"@,
            Language::En => "Site list loaded"@,
        },
        Msg::DoctorHostsUnreadableTitle => match l {
            Language::Es => "No se puede leer el archivo hosts"@,
            Language::En => "The hosts file cannot be read"@,
        },
        Msg::DoctorHostsUnreadableHint => match l {
            Language::Es => "Comprueba los permisos del archivo hosts."@,
            Language::En => "Check the permissions of the hosts file."@,
        },
        Msg::DoctorHostsDuplicateTitle => match l {
            Language::Es => "Secciones duplicadas en hosts"@,
            Language::En => "Duplicate sections in hosts"@,
        },
        Msg::DoctorHostsDuplicateHint => match l {
            Language::Es => "Ejecuta paramo unblock y paramo block para rehacer la sección."@,
            Language::En => "Run paramo unblock and paramo block to rebuild the section."@,
        },
        Msg::DoctorHostsConsistentTitle => match l {
            Language::Es => "Archivo hosts coherente"@,
            Language::En => "hosts file consistent"@,
        },
        Msg::DoctorHostsMismatchTitle => match l {
            Language::Es => "La sección de hosts no coincide con la lista"@,
            Language::En => "The hosts section does not match the list"@,
        },
        Msg::DoctorHostsMismatchDetail => match l {
            Language::Es => "La sección gestionada no refleja los sitios configurados."@,
            Language::En => "The managed section does not reflect the configured sites."@,
        },
        Msg::DoctorHostsMismatchHint => match l {
            Language::Es => "Ejecuta paramo block para sincronizarla."@,
            Language::En => "Run paramo block to sync it."@,
        },
        Msg::DoctorHostsSyncedTitle => match l {
            Language::Es => "Sección de hosts sincronizada"@,
            Language::En => "hosts section in sync"@,
        },
        Msg::DoctorHostsSyncedDetail => match l {
            Language::Es => "La sección gestionada coincide con la configuración."@,
            Language::En => "The managed section matches the configuration."@,
        },
        Msg::DoctorDohTitle => match l {
            Language::Es => "DNS sobre HTTPS"@,
            Language::En => "DNS over HTTPS"@,
        },
        Msg::DoctorDohDetail => match l {
            Language::Es => "Algunos navegadores ignoran /etc/hosts si usan DNS sobre HTTPS."@,
            Language::En => "Some browsers ignore /etc/hosts when they use DNS over HTTPS."@,
        },
        Msg::DoctorDohHint => match l {
            Language::Es => "Desactiva DNS sobre HTTPS en tu navegador."@,
            Language::En => "Turn off DNS over HTTPS in your browser."@,
        },
        Msg::InstallSupportDirReady => match l {
            Language::Es => "Directorio de soporte listo: {0}"@,
            Language::En => "Support directory ready: {0}"@,
        },
        Msg::InstallConfigPreserved => match l {
            Language::Es => "Configuración conservada en {0}"@,
            Language::En => "Configuration kept at {0}"@,
        },
        Msg::InstallConfigMigrated => match l {
            Language::Es => "Configuración migrada de {0} a {1}"@,
            Language::En => "Configuration migrated from {0} to {1}"@,
        },
        Msg::InstallConfigCreated => match l {
            Language::Es => "Configuración creada en {0}"@,
            Language::En => "Configuration created at {0}"@,
        },
        Msg::InstallSyncBlocked => match l {
            Language::Es => "Bloqueo aplicado en hosts."@,
            Language::En => "Block applied to hosts."@,
        },
        Msg::InstallSyncUnblocked => match l {
            Language::Es => "Bloqueo retirado de hosts."@,
            Language::En => "Block removed from hosts."@,
        },
        Msg::InstallSyncUpdated => match l {
            Language::Es => "Sección de hosts actualizada."@,
            Language::En => "hosts section updated."@,
        },
        Msg::InstallSyncAlreadyCorrect => match l {
            Language::Es => "El archivo hosts ya estaba al día."@,
            Language::En => "The hosts file was already up to date."@,
        },
        Msg::InstallLaunchdUpdated => match l {
            Language::Es => "Plist de launchd escrito en {0}"@,
            Language::En => "launchd plist written to {0}"@,
        },
        Msg::InstallBinaryCopied => match l {
            Language::Es => "Binario copiado a {0}"@,
            Language::En => "Binary copied to {0}"@,
        },
        Msg::InstallBinaryUsingExisting => match l {
            Language::Es => "Usando el binario existente en {0}"@,
            Language::En => "Using the existing binary at {0}"@,
        },
        Msg::InstallLegacyUnloaded => match l {
            Language::Es => "Servicio antiguo descargado de launchd."@,
            Language::En => "Legacy service unloaded from launchd."@,
        },
        Msg::InstallLegacyPlistRemoved => match l {
            Language::Es => "Plist antiguo eliminado: {0}"@,
            Language::En => "Legacy plist removed: {0}"@,
        },
        Msg::InstallPidSuffix => match l {
            Language::Es => " (pid {0})"@,
            Language::En => " (pid {0})"@,
        },
        Msg::InstallLaunchdVerified => match l {
            Language::Es => "Servicio {0} cargado{1}"@,
            Language::En => "Service {0} loaded{1}"@,
        },
        Msg::UninstallHostsBlockRemoved => match l {
            Language::Es => "Sección de hosts eliminada."@,
            Language::En => "hosts section removed."@,
        },
        Msg::UninstallLaunchdRemoved => match l {
            Language::Es => "Plist de launchd eliminado."@,
            Language::En => "launchd plist removed."@,
        },
        Msg::UninstallLaunchdUnloaded => match l {
            Language::Es => "Servicio descargado de launchd."@,
            Language::En => "Service unloaded from launchd."@,
        },
        Msg::UninstallBinaryRemoved => match l {
            Language::Es => "Binario eliminado: {0}"@,
            Language::En => "Binary removed: {0}"@,
        },
        Msg::UninstallConfigPreserved => match l {
            Language::Es => "La configuración se conserva en /etc/paramo."@,
            Language::En => "The configuration is kept in /etc/paramo."@,
        },
    }
}

/// The placeholder for the argument at `i`: `{i}`.
pub open spec fn placeholder(i: nat) -> Seq<char> {
    seq!['{'] + decimal(i) + seq!['}']
}

/// A template with its placeholders replaced in turn: first every `{0}` by the first
/// argument, then every `{1}` (also one that an earlier argument brought) by the
/// second, and so on.
pub open spec fn fill(template: Seq<char>, args: Seq<Seq<char>>) -> Seq<char>
    decreases args.len(),
{
    if args.len() == 0 {
        template
    } else {
        replace_all(fill(template, args.drop_last()), placeholder((args.len() - 1) as nat), args.last())
    }
}

/// The views of a slice of string slices.
pub open spec fn arg_views(args: Seq<&str>) -> Seq<Seq<char>> {
    args.map_values(|a: &str| a@)
}

/// `"on"`/`"off"` text for the weekends setting.
pub open spec fn weekends_text(l: Language, weekends: bool) -> Seq<char> {
    if weekends {
        text(l, Msg::WeekendsOn)
    } else {
        text(l, Msg::WeekendsOff)
    }
}

/// The text of one message in one language.
pub fn message(l: Language, key: Msg) -> (r: &'static str)
    ensures
        r@ == text(l, key),
{
    match key {
        Msg::BlockedLabel => match l {
            Language::Es => "Bloqueado",
            Language::En => "Blocked",
        },
        Msg::UnblockedLabel => match l {
            Language::Es => "Desbloqueado",
            Language::En => "Unblocked",
        },
        Msg::ScheduleActiveLabel => match l {
            Language::Es => "Horario de bloqueo activo",
            Language::En => "Blocking schedule active",
        },
        Msg::ScheduleInactiveLabel => match l {
            Language::Es => "Fuera del horario de bloqueo",
            Language::En => "Outside the blocking schedule",
        },
        Msg::NextChangeLabel => match l {
            Language::Es => "Próximo cambio",
            Language::En => "Next change",
        },
        Msg::RelativeTimeLabel => match l {
            Language::Es => "desde ahora",
            Language::En => "from now",
        },
        Msg::ConfiguredSitesLabel => match l {
            Language::Es => "Sitios configurados",
            Language::En => "Configured sites",
        },
        Msg::StatusTitle => match l {
            Language::Es => "Estado",
            Language::En => "Status",
        },
        Msg::Subtitle => match l {
            Language::Es => "Bloqueador de distracciones",
            Language::En => "Distraction blocker",
        },
        Msg::RequiresRoot => match l {
            Language::Es => "Este comando necesita permisos de administrador. Usa sudo.",
            Language::En => "This command needs administrator privileges. Use sudo.",
        },
        Msg::BlockedNow => match l {
            Language::Es => "Sitios bloqueados.",
            Language::En => "Sites blocked.",
        },
        Msg::UnblockedNow => match l {
            Language::Es => "Sitios desbloqueados.",
            Language::En => "Sites unblocked.",
        },
        Msg::UnblockCancelled => match l {
            Language::Es => "Desbloqueo cancelado.",
            Language::En => "Unblock cancelled.",
        },
        Msg::InstallStarted => match l {
            Language::Es => "Instalando PARAMO…",
            Language::En => "Installing PARAMO…",
        },
        Msg::InstallCompleted => match l {
            Language::Es => "Instalación completada.",
            Language::En => "Installation completed.",
        },
        Msg::UninstallStarted => match l {
            Language::Es => "Desinstalando PARAMO…",
            Language::En => "Uninstalling PARAMO…",
        },
        Msg::UninstallCompleted => match l {
            Language::Es => "Desinstalación completada.",
            Language::En => "Uninstall completed.",
        },
        Msg::InstallNote => match l {
            Language::Es => "Ejecuta sudo paramo install para aplicar el bloqueo por horario.",
            Language::En => "Run sudo paramo install to apply the scheduled block.",
        },
        Msg::HomeTab => match l {
            Language::Es => "Inicio",
            Language::En => "Home",
        },
        Msg::SitesTab => match l {
            Language::Es => "Sitios",
            Language::En => "Sites",
        },
        Msg::ScheduleTab => match l {
            Language::Es => "Horario",
            Language::En => "Schedule",
        },
        Msg::SettingsTab => match l {
            Language::Es => "Ajustes",
            Language::En => "Settings",
        },
        Msg::DiagnosticsTab => match l {
            Language::Es => "Diagnóstico",
            Language::En => "Diagnostics",
        },
        Msg::WallTab => match l {
            Language::Es => "Muro",
            Language::En => "Wall",
        },
        Msg::ExitTab => match l {
            Language::Es => "Salir",
            Language::En => "Exit",
        },
        Msg::StreakTab => match l {
            Language::Es => "Racha",
            Language::En => "Streak",
        },
        Msg::SiteRemoveCountdownTitle => match l {
            Language::Es => "Vas a dejar de bloquear {0}",
            Language::En => "You are about to stop blocking {0}",
        },
        Msg::SiteRemoveCountdownSubtitle => match l {
            Language::Es => "Espera. ¿De verdad lo necesitas?",
            Language::En => "Wait. Do you really need it?",
        },
        Msg::SiteRemoveReasonTitle => match l {
            Language::Es => "¿Por qué quieres dejar de bloquear {0}?",
            Language::En => "Why do you want to stop blocking {0}?",
        },
        Msg::SiteRemoveFinalTitle => match l {
            Language::Es => "Última cuenta atrás para {0}",
            Language::En => "Final countdown for {0}",
        },
        Msg::DoctorTitle => match l {
            Language::Es => "Diagnóstico de PARAMO",
            Language::En => "PARAMO diagnostics",
        },
        Msg::DiagnosticsRefresh => match l {
            Language::Es => "g: volver a diagnosticar",
            Language::En => "g: run diagnostics again",
        },
        Msg::OkLabel => match l {
            Language::Es => "OK",
            Language::En => "OK",
        },
        Msg::WarningLabel => match l {
            Language::Es => "AVISO",
            Language::En => "WARN",
        },
        Msg::ErrorLabel => match l {
            Language::Es => "ERROR",
            Language::En => "ERROR",
        },
        Msg::HomeActions => match l {
            Language::Es => "Acciones",
            Language::En => "Actions",
        },
        Msg::HomeActionBlock => match l {
            Language::Es => "b: bloquear ahora",
            Language::En => "b: block now",
        },
        Msg::HomeActionUnblock => match l {
            Language::Es => "u: desbloquear",
            Language::En => "u: unblock",
        },
        Msg::HomeActionRefresh => match l {
            Language::Es => "r: refrescar estado",
            Language::En => "r: refresh status",
        },
        Msg::HomeActionExit => match l {
            Language::Es => "q: salir",
            Language::En => "q: quit",
        },
        Msg::SiteEmpty => match l {
            Language::Es => "No hay sitios configurados.",
            Language::En => "No sites configured.",
        },
        Msg::AddSitePrompt => match l {
            Language::Es => "Sitio que quieres bloquear",
            Language::En => "Site you want to block",
        },
        Msg::SelectedLabel => match l {
            Language::Es => "Seleccionado",
            Language::En => "Selected",
        },
        Msg::SiteAddAction => match l {
            Language::Es => "a: añadir sitio",
            Language::En => "a: add site",
        },
        Msg::SiteRemoveAction => match l {
            Language::Es => "d: eliminar sitio",
            Language::En => "d: remove site",
        },
        Msg::SiteMoveSelection => match l {
            Language::Es => "↑/↓: mover selección",
            Language::En => "↑/↓: move selection",
        },
        Msg::ManageLabel => match l {
            Language::Es => "Gestionar",
            Language::En => "Manage",
        },
        Msg::ScheduleControls => match l {
            Language::Es => "↑/↓: elegir campo · ←/→: cambiar valor",
            Language::En => "↑/↓: choose field · ←/→: change value",
        },
        Msg::WeekendsLabel => match l {
            Language::Es => "Fines de semana",
            Language::En => "Weekends",
        },
        Msg::WeekendsOn => match l {
            Language::Es => "sí",
            Language::En => "on",
        },
        Msg::WeekendsOff => match l {
            Language::Es => "no",
            Language::En => "off",
        },
        Msg::StartLabel => match l {
            Language::Es => "Inicio",
            Language::En => "Start",
        },
        Msg::EndLabel => match l {
            Language::Es => "Fin",
            Language::En => "End",
        },
        Msg::ControlsLabel => match l {
            Language::Es => "Controles",
            Language::En => "Controls",
        },
        Msg::LanguageLabel => match l {
            Language::Es => "Idioma",
            Language::En => "Language",
        },
        Msg::LanguageChangeHint => match l {
            Language::Es => "←/→/Enter: cambiar idioma",
            Language::En => "←/→/Enter: change language",
        },
        Msg::ExitScreenTitle => match l {
            Language::Es => "¿Salir de PARAMO?",
            Language::En => "Leave PARAMO?",
        },
        Msg::ExitScreenBody => match l {
            Language::Es => "El bloqueo sigue activo aunque cierres esta ventana.",
            Language::En => "The block stays active after you close this window.",
        },
        Msg::ExitScreenHint => match l {
            Language::Es => "Enter o espacio para salir",
            Language::En => "Enter or space to quit",
        },
        Msg::HeaderNavHint => match l {
            Language::Es => "Tab/Shift+Tab: cambiar pestaña",
            Language::En => "Tab/Shift+Tab: switch tab",
        },
        Msg::HeaderConfirmHint => match l {
            Language::Es => "Enter: confirmar",
            Language::En => "Enter: confirm",
        },
        Msg::HeaderQuitHint => match l {
            Language::Es => "q: salir",
            Language::En => "q: quit",
        },
        Msg::TuiHint => match l {
            Language::Es => "Tab para navegar · q para salir",
            Language::En => "Tab to navigate · q to quit",
        },
        Msg::WallTitle => match l {
            Language::Es => "Muro de desbloqueos",
            Language::En => "Unblock wall",
        },
        Msg::WallEmpty => match l {
            Language::Es => "Todavía no hay desbloqueos registrados.",
            Language::En => "No unblocks recorded yet.",
        },
        Msg::CountdownTitle => match l {
            Language::Es => "Respira antes de desbloquear",
            Language::En => "Breathe before unblocking",
        },
        Msg::CountdownSubtitle => match l {
            Language::Es => "Espera a que termine la cuenta atrás",
            Language::En => "Wait for the countdown to finish",
        },
        Msg::CountdownHint => match l {
            Language::Es => "Esc para cancelar",
            Language::En => "Esc to cancel",
        },
        Msg::ReasonPromptTitle => match l {
            Language::Es => "¿Por qué quieres desbloquear?",
            Language::En => "Why do you want to unblock?",
        },
        Msg::ReasonPromptHint => match l {
            Language::Es => "Escribe el motivo y pulsa Enter",
            Language::En => "Type the reason and press Enter",
        },
        Msg::ReasonRequired => match l {
            Language::Es => "Tienes que escribir un motivo.",
            Language::En => "You have to write a reason.",
        },
        Msg::ReasonRequiredLabel => match l {
            Language::Es => "Motivo obligatorio",
            Language::En => "Reason required",
        },
        Msg::FinalCountdownTitle => match l {
            Language::Es => "Última cuenta atrás",
            Language::En => "Final countdown",
        },
        Msg::FinalCountdownReasonLabel => match l {
            Language::Es => "Motivo",
            Language::En => "Reason",
        },
        Msg::BreathIn => match l {
            Language::Es => "Inspira",
            Language::En => "Breathe in",
        },
        Msg::BreathOut => match l {
            Language::Es => "Espira",
            Language::En => "Breathe out",
        },
        Msg::InputLabel => match l {
            Language::Es => "Entrada",
            Language::En => "Input",
        },
        Msg::WeekdayMon => match l {
            Language::Es => "Lunes",
            Language::En => "Monday",
        },
        Msg::WeekdayTue => match l {
            Language::Es => "Martes",
            Language::En => "Tuesday",
        },
        Msg::WeekdayWed => match l {
            Language::Es => "Miércoles",
            Language::En => "Wednesday",
        },
        Msg::WeekdayThu => match l {
            Language::Es => "Jueves",
            Language::En => "Thursday",
        },
        Msg::WeekdayFri => match l {
            Language::Es => "Viernes",
            Language::En => "Friday",
        },
        Msg::WeekdaySat => match l {
            Language::Es => "Sábado",
            Language::En => "Saturday",
        },
        Msg::WeekdaySun => match l {
            Language::Es => "Domingo",
            Language::En => "Sunday",
        },
        Msg::LanguageUpdated => match l {
            Language::Es => "Idioma actualizado: {0}",
            Language::En => "Language updated: {0}",
        },
        Msg::CurrentLanguage => match l {
            Language::Es => "Idioma actual: {0} ({1})",
            Language::En => "Current language: {0} ({1})",
        },
        Msg::SiteAdded => match l {
            Language::Es => "Sitio añadido: {0}",
            Language::En => "Site added: {0}",
        },
        Msg::SiteRemoved => match l {
            Language::Es => "Sitio eliminado: {0}",
            Language::En => "Site removed: {0}",
        },
        Msg::SiteAlreadyPresent => match l {
            Language::Es => "El sitio ya está en la lista: {0}",
            Language::En => "The site is already in the list: {0}",
        },
        Msg::SiteNotFound => match l {
            Language::Es => "El sitio no está en la lista: {0}",
            Language::En => "The site is not in the list: {0}",
        },
        Msg::RemoveConfirmRequired => match l {
            Language::Es => "Para eliminar {0} repite el comando con --confirmar",
            Language::En => "To remove {0}, run the command again with --confirmar",
        },
        Msg::UnsupportedLanguage => match l {
            Language::Es => "Idioma no soportado: {0}. Usa es o en.",
            Language::En => "Unsupported language: {0}. Use es or en.",
        },
        Msg::ScheduleUpdated => match l {
            Language::Es => "Horario actualizado: {0}:00 - {1}:00 · fines de semana: {2}",
            Language::En => "Schedule updated: {0}:00 - {1}:00 · weekends: {2}",
        },
        Msg::ScheduleSummary => match l {
            Language::Es => "Horario: {0}:00 - {1}:00 · fines de semana: {2}",
            Language::En => "Schedule: {0}:00 - {1}:00 · weekends: {2}",
        },
        Msg::DoctorConfigActiveTitle => match l {
            Language::Es => "Configuración activa",
            Language::En => "Active configuration",
        },
        Msg::DoctorConfigLegacyTitle => match l {
            Language::Es => "Configuración antigua en uso",
            Language::En => "Legacy configuration in use",
        },
        Msg::DoctorConfigLegacyDetail => match l {
            Language::Es => "Se está leyendo la configuración de una instalación anterior.",
            Language::En => "The configuration of a previous installation is being read.",
        },
        Msg::DoctorConfigLegacyHint => match l {
            Language::Es => "Ejecuta sudo paramo install para migrarla.",
            Language::En => "Run sudo paramo install to migrate it.",
        },
        Msg::DoctorConfigEmbeddedTitle => match l {
            Language::Es => "Configuración por defecto",
            Language::En => "Default configuration",
        },
        Msg::DoctorConfigEmbeddedDetail => match l {
            Language::Es => "No hay configuración de sistema; se usa la plantilla incluida.",
            Language::En => "There is no system configuration; the built-in template is used.",
        },
        Msg::DoctorConfigEmbeddedHint => match l {
            Language::Es => "Ejecuta sudo paramo install para crearla.",
            Language::En => "Run sudo paramo install to create it.",
        },
        Msg::DoctorLegacyArtifactsTitle => match l {
            Language::Es => "Restos de una instalación anterior",
            Language::En => "Leftovers of a previous installation",
        },
        Msg::DoctorLegacyArtifactsHint => match l {
            Language::Es => "Ejecuta sudo paramo install para limpiarlos.",
            Language::En => "Run sudo paramo install to clean them up.",
        },
        Msg::DoctorPlistMissingTitle => match l {
            Language::Es => "Falta el plist de launchd",
            Language::En => "The launchd plist is missing",
        },
        Msg::DoctorPlistMissingHint => match l {
            Language::Es => "Ejecuta sudo paramo install.",
            Language::En => "Run sudo paramo install.",
        },
        Msg::DoctorPlistUnreadableTitle => match l {
            Language::Es => "No se puede leer el plist de launchd",
            Language::En => "The launchd plist cannot be read",
        },
        Msg::DoctorPlistMismatchTitle => match l {
            Language::Es => "El plist de launchd no es el esperado",
            Language::En => "The launchd plist is not the expected one",
        },
        Msg::DoctorPlistMismatchHint => match l {
            Language::Es => "Ejecuta sudo paramo install para regenerarlo.",
            Language::En => "Run sudo paramo install to regenerate it.",
        },
        Msg::DoctorPlistBinaryMissingTitle => match l {
            Language::Es => "El binario del plist no existe",
            Language::En => "The plist binary does not exist",
        },
        Msg::DoctorPlistBinaryMissingHint => match l {
            Language::Es => "Reinstala con sudo paramo install.",
            Language::En => "Reinstall with sudo paramo install.",
        },
        Msg::DoctorPlistValidTitle => match l {
            Language::Es => "Plist de launchd correcto",
            Language::En => "launchd plist is valid",
        },
        Msg::DoctorLaunchdLoadedTitle => match l {
            Language::Es => "Servicio launchd cargado",
            Language::En => "launchd service loaded",
        },
        Msg::DoctorLaunchdDisabledDetail => match l {
            Language::Es => "El servicio está deshabilitado en launchd.",
            Language::En => "The service is disabled in launchd.",
        },
        Msg::DoctorLaunchdDisabledHint => match l {
            Language::Es => "Ejecuta sudo launchctl enable system/com.paramo.blocker y reinstala.",
            Language::En => "Run sudo launchctl enable system/com.paramo.blocker and reinstall.",
        },
        Msg::DoctorLaunchdNotLoadedTitle => match l {
            Language::Es => "Servicio launchd no cargado",
            Language::En => "launchd service not loaded",
        },
        Msg::DoctorLaunchdNotLoadedDetail => match l {
            Language::Es => "launchd no tiene cargado el servicio de PARAMO.",
            Language::En => "launchd has not loaded the PARAMO service.",
        },
        Msg::DoctorLaunchdNotLoadedHint => match l {
            Language::Es => "Ejecuta sudo paramo install.",
            Language::En => "Run sudo paramo install.",
        },
        Msg::DoctorSitesEmptyTitle => match l {
            Language::Es => "Lista de sitios vacía",
            Language::En => "Empty site list",
        },
        Msg::DoctorSitesEmptyDetail => match l {
            Language::Es => "No hay ningún sitio que bloquear.",
            Language::En => "There is no site to block.",
        },
        Msg::DoctorSitesEmptyHint => match l {
            Language::Es => "Añade uno con paramo site add <sitio>.",
            Language::En => "Add one with paramo site add <site>.",
        },
        Msg::DoctorSitesLoadedTitle => match l {
            Language::Es => "Lista de sitios cargada",
            Language::En => "Site list loaded",
        },
        Msg::DoctorHostsUnreadableTitle => match l {
            Language::Es => "No se puede leer el archivo hosts",
            Language::En => "The hosts file cannot be read",
        },
        Msg::DoctorHostsUnreadableHint => match l {
            Language::Es => "Comprueba los permisos del archivo hosts.",
            Language::En => "Check the permissions of the hosts file.",
        },
        Msg::DoctorHostsDuplicateTitle => match l {
            Language::Es => "Secciones duplicadas en hosts",
            Language::En => "Duplicate sections in hosts",
        },
        Msg::DoctorHostsDuplicateHint => match l {
            Language::Es => "Ejecuta paramo unblock y paramo block para rehacer la sección.",
            Language::En => "Run paramo unblock and paramo block to rebuild the section.",
        },
        Msg::DoctorHostsConsistentTitle => match l {
            Language::Es => "Archivo hosts coherente",
            Language::En => "hosts file consistent",
        },
        Msg::DoctorHostsMismatchTitle => match l {
            Language::Es => "La sección de hosts no coincide con la lista",
            Language::En => "The hosts section does not match the list",
        },
        Msg::DoctorHostsMismatchDetail => match l {
            Language::Es => "La sección gestionada no refleja los sitios configurados.",
            Language::En => "The managed section does not reflect the configured sites.",
        },
        Msg::DoctorHostsMismatchHint => match l {
            Language::Es => "Ejecuta paramo block para sincronizarla.",
            Language::En => "Run paramo block to sync it.",
        },
        Msg::DoctorHostsSyncedTitle => match l {
            Language::Es => "Sección de hosts sincronizada",
            Language::En => "hosts section in sync",
        },
        Msg::DoctorHostsSyncedDetail => match l {
            Language::Es => "La sección gestionada coincide con la configuración.",
            Language::En => "The managed section matches the configuration.",
        },
        Msg::DoctorDohTitle => match l {
            Language::Es => "DNS sobre HTTPS",
            Language::En => "DNS over HTTPS",
        },
        Msg::DoctorDohDetail => match l {
            Language::Es => "Algunos navegadores ignoran /etc/hosts si usan DNS sobre HTTPS.",
            Language::En => "Some browsers ignore /etc/hosts when they use DNS over HTTPS.",
        },
        Msg::DoctorDohHint => match l {
            Language::Es => "Desactiva DNS sobre HTTPS en tu navegador.",
            Language::En => "Turn off DNS over HTTPS in your browser.",
        },
        Msg::InstallSupportDirReady => match l {
            Language::Es => "Directorio de soporte listo: {0}",
            Language::En => "Support directory ready: {0}",
        },
        Msg::InstallConfigPreserved => match l {
            Language::Es => "Configuración conservada en {0}",
            Language::En => "Configuration kept at {0}",
        },
        Msg::InstallConfigMigrated => match l {
            Language::Es => "Configuración migrada de {0} a {1}",
            Language::En => "Configuration migrated from {0} to {1}",
        },
        Msg::InstallConfigCreated => match l {
            Language::Es => "Configuración creada en {0}",
            Language::En => "Configuration created at {0}",
        },
        Msg::InstallSyncBlocked => match l {
            Language::Es => "Bloqueo aplicado en hosts.",
            Language::En => "Block applied to hosts.",
        },
        Msg::InstallSyncUnblocked => match l {
            Language::Es => "Bloqueo retirado de hosts.",
            Language::En => "Block removed from hosts.",
        },
        Msg::InstallSyncUpdated => match l {
            Language::Es => "Sección de hosts actualizada.",
            Language::En => "hosts section updated.",
        },
        Msg::InstallSyncAlreadyCorrect => match l {
            Language::Es => "El archivo hosts ya estaba al día.",
            Language::En => "The hosts file was already up to date.",
        },
        Msg::InstallLaunchdUpdated => match l {
            Language::Es => "Plist de launchd escrito en {0}",
            Language::En => "launchd plist written to {0}",
        },
        Msg::InstallBinaryCopied => match l {
            Language::Es => "Binario copiado a {0}",
            Language::En => "Binary copied to {0}",
        },
        Msg::InstallBinaryUsingExisting => match l {
            Language::Es => "Usando el binario existente en {0}",
            Language::En => "Using the existing binary at {0}",
        },
        Msg::InstallLegacyUnloaded => match l {
            Language::Es => "Servicio antiguo descargado de launchd.",
            Language::En => "Legacy service unloaded from launchd.",
        },
        Msg::InstallLegacyPlistRemoved => match l {
            Language::Es => "Plist antiguo eliminado: {0}",
            Language::En => "Legacy plist removed: {0}",
        },
        Msg::InstallPidSuffix => match l {
            Language::Es => " (pid {0})",
            Language::En => " (pid {0})",
        },
        Msg::InstallLaunchdVerified => match l {
            Language::Es => "Servicio {0} cargado{1}",
            Language::En => "Service {0} loaded{1}",
        },
        Msg::UninstallHostsBlockRemoved => match l {
            Language::Es => "Sección de hosts eliminada.",
            Language::En => "hosts section removed.",
        },
        Msg::UninstallLaunchdRemoved => match l {
            Language::Es => "Plist de launchd eliminado.",
            Language::En => "launchd plist removed.",
        },
        Msg::UninstallLaunchdUnloaded => match l {
            Language::Es => "Servicio descargado de launchd.",
            Language::En => "Service unloaded from launchd.",
        },
        Msg::UninstallBinaryRemoved => match l {
            Language::Es => "Binario eliminado: {0}",
            Language::En => "Binary removed: {0}",
        },
        Msg::UninstallConfigPreserved => match l {
            Language::Es => "La configuración se conserva en /etc/paramo.",
            Language::En => "The configuration is kept in /etc/paramo.",
        },
    }
}

/// The messages of the interface in one language.
#[derive(Debug, Clone, Copy)]
pub struct I18n {
    language: Language,
}

impl View for I18n {
    type V = Language;

    closed spec fn view(&self) -> Language {
        self.language
    }
}

impl I18n {
    pub fn new(language: Language) -> (r: Self)
        ensures
            r@ == language,
    {
        I18n { language }
    }

    pub fn language(self) -> (r: Language)
        ensures
            r == self@,
    {
        self.language
    }

    /// The text of `key` in this language.
    pub fn t(self, key: Msg) -> (r: &'static str)
        ensures
            r@ == text(self@, key),
    {
        message(self.language, key)
    }

    /// The template of `key` with `args` put in its placeholders (see `fill`).
    pub fn format(self, key: Msg, args: &[&str]) -> (r: String)
        ensures
            r@ == fill(text(self@, key), arg_views(args@)),
    {
        let mut result = to_chars(self.t(key));
        let mut i: usize = 0;
        proof {
            assert(arg_views(args@).take(0) =~= Seq::<Seq<char>>::empty());
        }
        while i < args.len()
            invariant
                i <= args.len(),
                result@ == fill(text(self@, key), arg_views(args@).take(i as int)),
            decreases args.len() - i,
        {
            let mut ph: Vec<char> = Vec::new();
            ph.push('{');
            let digits = decimal_chars(i as u64);
            extend(&mut ph, &digits);
            ph.push('}');
            let a = to_chars(args[i]);
            proof {
                assert(ph@ =~= placeholder(i as nat));
                let t = arg_views(args@).take(i + 1);
                assert(t.drop_last() =~= arg_views(args@).take(i as int));
                assert(t.last() == args@[i as int]@);
            }
            result = replace_chars(&result, &ph, &a);
            i = i + 1;
        }
        proof {
            assert(arg_views(args@).take(args.len() as int) =~= arg_views(args@));
        }
        from_chars(&result)
    }

    pub fn blocked_label(self) -> (r: &'static str)
        ensures
            r@ == text(self@, Msg::BlockedLabel),
    {
        self.t(Msg::BlockedLabel)
    }

    pub fn unblocked_label(self) -> (r: &'static str)
        ensures
            r@ == text(self@, Msg::UnblockedLabel),
    {
        self.t(Msg::UnblockedLabel)
    }

    pub fn schedule_active_label(self) -> (r: &'static str)
        ensures
            r@ == text(self@, Msg::ScheduleActiveLabel),
    {
        self.t(Msg::ScheduleActiveLabel)
    }

    pub fn schedule_inactive_label(self) -> (r: &'static str)
        ensures
            r@ == text(self@, Msg::ScheduleInactiveLabel),
    {
        self.t(Msg::ScheduleInactiveLabel)
    }

    pub fn next_change_label(self) -> (r: &'static str)
        ensures
            r@ == text(self@, Msg::NextChangeLabel),
    {
        self.t(Msg::NextChangeLabel)
    }

    pub fn relative_time_label(self) -> (r: &'static str)
        ensures
            r@ == text(self@, Msg::RelativeTimeLabel),
    {
        self.t(Msg::RelativeTimeLabel)
    }

    pub fn configured_sites_label(self) -> (r: &'static str)
        ensures
            r@ == text(self@, Msg::ConfiguredSitesLabel),
    {
        self.t(Msg::ConfiguredSitesLabel)
    }

    pub fn status_title(self) -> (r: &'static str)
        ensures
            r@ == text(self@, Msg::StatusTitle),
    {
        self.t(Msg::StatusTitle)
    }

    pub fn subtitle(self) -> (r: &'static str)
        ensures
            r@ == text(self@, Msg::Subtitle),
    {
        self.t(Msg::Subtitle)
    }

    pub fn requires_root(self) -> (r: &'static str)
        ensures
            r@ == text(self@, Msg::RequiresRoot),
    {
        self.t(Msg::RequiresRoot)
    }

    pub fn blocked_now(self) -> (r: &'static str)
        ensures
            r@ == text(self@, Msg::BlockedNow),
    {
        self.t(Msg::BlockedNow)
    }

    pub fn unblocked_now(self) -> (r: &'static str)
        ensures
            r@ == text(self@, Msg::UnblockedNow),
    {
        self.t(Msg::UnblockedNow)
    }

    pub fn unblock_cancelled(self) -> (r: &'static str)
        ensures
            r@ == text(self@, Msg::UnblockCancelled),
    {
        self.t(Msg::UnblockCancelled)
    }

    pub fn install_started(self) -> (r: &'static str)
        ensures
            r@ == text(self@, Msg::InstallStarted),
    {
        self.t(Msg::InstallStarted)
    }

    pub fn install_completed(self) -> (r: &'static str)
        ensures
            r@ == text(self@, Msg::InstallCompleted),
    {
        self.t(Msg::InstallCompleted)
    }

    pub fn uninstall_started(self) -> (r: &'static str)
        ensures
            r@ == text(self@, Msg::UninstallStarted),
    {
        self.t(Msg::UninstallStarted)
    }

    pub fn uninstall_completed(self) -> (r: &'static str)
        ensures
            r@ == text(self@, Msg::UninstallCompleted),
    {
        self.t(Msg::UninstallCompleted)
    }

    pub fn install_note(self) -> (r: &'static str)
        ensures
            r@ == text(self@, Msg::InstallNote),
    {
        self.t(Msg::InstallNote)
    }

    pub fn home_tab(self) -> (r: &'static str)
        ensures
            r@ == text(self@, Msg::HomeTab),
    {
        self.t(Msg::HomeTab)
    }

    pub fn sites_tab(self) -> (r: &'static str)
        ensures
            r@ == text(self@, Msg::SitesTab),
    {
        self.t(Msg::SitesTab)
    }

    pub fn schedule_tab(self) -> (r: &'static str)
        ensures
            r@ == text(self@, Msg::ScheduleTab),
    {
        self.t(Msg::ScheduleTab)
    }

    pub fn settings_tab(self) -> (r: &'static str)
        ensures
            r@ == text(self@, Msg::SettingsTab),
    {
        self.t(Msg::SettingsTab)
    }

    pub fn diagnostics_tab(self) -> (r: &'static str)
        ensures
            r@ == text(self@, Msg::DiagnosticsTab),
    {
        self.t(Msg::DiagnosticsTab)
    }

    pub fn wall_tab(self) -> (r: &'static str)
        ensures
            r@ == text(self@, Msg::WallTab),
    {
        self.t(Msg::WallTab)
    }

    pub fn exit_tab(self) -> (r: &'static str)
        ensures
            r@ == text(self@, Msg::ExitTab),
    {
        self.t(Msg::ExitTab)
    }

    pub fn doctor_title(self) -> (r: &'static str)
        ensures
            r@ == text(self@, Msg::DoctorTitle),
    {
        self.t(Msg::DoctorTitle)
    }

    pub fn diagnostics_refresh(self) -> (r: &'static str)
        ensures
            r@ == text(self@, Msg::DiagnosticsRefresh),
    {
        self.t(Msg::DiagnosticsRefresh)
    }

    pub fn ok(self) -> (r: &'static str)
        ensures
            r@ == text(self@, Msg::OkLabel),
    {
        self.t(Msg::OkLabel)
    }

    pub fn warning(self) -> (r: &'static str)
        ensures
            r@ == text(self@, Msg::WarningLabel),
    {
        self.t(Msg::WarningLabel)
    }

    pub fn error(self) -> (r: &'static str)
        ensures
            r@ == text(self@, Msg::ErrorLabel),
    {
        self.t(Msg::ErrorLabel)
    }

    pub fn home_actions(self) -> (r: &'static str)
        ensures
            r@ == text(self@, Msg::HomeActions),
    {
        self.t(Msg::HomeActions)
    }

    pub fn home_action_block(self) -> (r: &'static str)
        ensures
            r@ == text(self@, Msg::HomeActionBlock),
    {
        self.t(Msg::HomeActionBlock)
    }

    pub fn home_action_unblock(self) -> (r: &'static str)
        ensures
            r@ == text(self@, Msg::HomeActionUnblock),
    {
        self.t(Msg::HomeActionUnblock)
    }

    pub fn home_action_refresh(self) -> (r: &'static str)
        ensures
            r@ == text(self@, Msg::HomeActionRefresh),
    {
        self.t(Msg::HomeActionRefresh)
    }

    pub fn home_action_exit(self) -> (r: &'static str)
        ensures
            r@ == text(self@, Msg::HomeActionExit),
    {
        self.t(Msg::HomeActionExit)
    }

    pub fn site_empty(self) -> (r: &'static str)
        ensures
            r@ == text(self@, Msg::SiteEmpty),
    {
        self.t(Msg::SiteEmpty)
    }

    pub fn add_site_prompt(self) -> (r: &'static str)
        ensures
            r@ == text(self@, Msg::AddSitePrompt),
    {
        self.t(Msg::AddSitePrompt)
    }

    pub fn selected_label(self) -> (r: &'static str)
        ensures
            r@ == text(self@, Msg::SelectedLabel),
    {
        self.t(Msg::SelectedLabel)
    }

    pub fn site_add_action(self) -> (r: &'static str)
        ensures
            r@ == text(self@, Msg::SiteAddAction),
    {
        self.t(Msg::SiteAddAction)
    }

    pub fn site_remove_action(self) -> (r: &'static str)
        ensures
            r@ == text(self@, Msg::SiteRemoveAction),
    {
        self.t(Msg::SiteRemoveAction)
    }

    pub fn site_move_selection(self) -> (r: &'static str)
        ensures
            r@ == text(self@, Msg::SiteMoveSelection),
    {
        self.t(Msg::SiteMoveSelection)
    }

    pub fn manage_label(self) -> (r: &'static str)
        ensures
            r@ == text(self@, Msg::ManageLabel),
    {
        self.t(Msg::ManageLabel)
    }

    pub fn schedule_controls(self) -> (r: &'static str)
        ensures
            r@ == text(self@, Msg::ScheduleControls),
    {
        self.t(Msg::ScheduleControls)
    }

    pub fn weekends_label(self) -> (r: &'static str)
        ensures
            r@ == text(self@, Msg::WeekendsLabel),
    {
        self.t(Msg::WeekendsLabel)
    }

    pub fn weekends_on(self) -> (r: &'static str)
        ensures
            r@ == text(self@, Msg::WeekendsOn),
    {
        self.t(Msg::WeekendsOn)
    }

    pub fn weekends_off(self) -> (r: &'static str)
        ensures
            r@ == text(self@, Msg::WeekendsOff),
    {
        self.t(Msg::WeekendsOff)
    }

    pub fn start_label(self) -> (r: &'static str)
        ensures
            r@ == text(self@, Msg::StartLabel),
    {
        self.t(Msg::StartLabel)
    }

    pub fn end_label(self) -> (r: &'static str)
        ensures
            r@ == text(self@, Msg::EndLabel),
    {
        self.t(Msg::EndLabel)
    }

    pub fn controls_label(self) -> (r: &'static str)
        ensures
            r@ == text(self@, Msg::ControlsLabel),
    {
        self.t(Msg::ControlsLabel)
    }

    pub fn language_label(self) -> (r: &'static str)
        ensures
            r@ == text(self@, Msg::LanguageLabel),
    {
        self.t(Msg::LanguageLabel)
    }

    pub fn language_change_hint(self) -> (r: &'static str)
        ensures
            r@ == text(self@, Msg::LanguageChangeHint),
    {
        self.t(Msg::LanguageChangeHint)
    }

    pub fn exit_screen_title(self) -> (r: &'static str)
        ensures
            r@ == text(self@, Msg::ExitScreenTitle),
    {
        self.t(Msg::ExitScreenTitle)
    }

    pub fn exit_screen_body(self) -> (r: &'static str)
        ensures
            r@ == text(self@, Msg::ExitScreenBody),
    {
        self.t(Msg::ExitScreenBody)
    }

    pub fn exit_screen_hint(self) -> (r: &'static str)
        ensures
            r@ == text(self@, Msg::ExitScreenHint),
    {
        self.t(Msg::ExitScreenHint)
    }

    pub fn header_nav_hint(self) -> (r: &'static str)
        ensures
            r@ == text(self@, Msg::HeaderNavHint),
    {
        self.t(Msg::HeaderNavHint)
    }

    pub fn header_confirm_hint(self) -> (r: &'static str)
        ensures
            r@ == text(self@, Msg::HeaderConfirmHint),
    {
        self.t(Msg::HeaderConfirmHint)
    }

    pub fn header_quit_hint(self) -> (r: &'static str)
        ensures
            r@ == text(self@, Msg::HeaderQuitHint),
    {
        self.t(Msg::HeaderQuitHint)
    }

    pub fn tui_hint(self) -> (r: &'static str)
        ensures
            r@ == text(self@, Msg::TuiHint),
    {
        self.t(Msg::TuiHint)
    }

    pub fn wall_title(self) -> (r: &'static str)
        ensures
            r@ == text(self@, Msg::WallTitle),
    {
        self.t(Msg::WallTitle)
    }

    pub fn wall_empty(self) -> (r: &'static str)
        ensures
            r@ == text(self@, Msg::WallEmpty),
    {
        self.t(Msg::WallEmpty)
    }

    pub fn countdown_title(self) -> (r: &'static str)
        ensures
            r@ == text(self@, Msg::CountdownTitle),
    {
        self.t(Msg::CountdownTitle)
    }

    pub fn countdown_subtitle(self) -> (r: &'static str)
        ensures
            r@ == text(self@, Msg::CountdownSubtitle),
    {
        self.t(Msg::CountdownSubtitle)
    }

    pub fn countdown_hint(self) -> (r: &'static str)
        ensures
            r@ == text(self@, Msg::CountdownHint),
    {
        self.t(Msg::CountdownHint)
    }

    pub fn reason_prompt_title(self) -> (r: &'static str)
        ensures
            r@ == text(self@, Msg::ReasonPromptTitle),
    {
        self.t(Msg::ReasonPromptTitle)
    }

    pub fn reason_prompt_hint(self) -> (r: &'static str)
        ensures
            r@ == text(self@, Msg::ReasonPromptHint),
    {
        self.t(Msg::ReasonPromptHint)
    }

    pub fn reason_required(self) -> (r: &'static str)
        ensures
            r@ == text(self@, Msg::ReasonRequired),
    {
        self.t(Msg::ReasonRequired)
    }

    pub fn reason_required_label(self) -> (r: &'static str)
        ensures
            r@ == text(self@, Msg::ReasonRequiredLabel),
    {
        self.t(Msg::ReasonRequiredLabel)
    }

    pub fn final_countdown_title(self) -> (r: &'static str)
        ensures
            r@ == text(self@, Msg::FinalCountdownTitle),
    {
        self.t(Msg::FinalCountdownTitle)
    }

    pub fn final_countdown_reason_label(self) -> (r: &'static str)
        ensures
            r@ == text(self@, Msg::FinalCountdownReasonLabel),
    {
        self.t(Msg::FinalCountdownReasonLabel)
    }

    pub fn breath_in(self) -> (r: &'static str)
        ensures
            r@ == text(self@, Msg::BreathIn),
    {
        self.t(Msg::BreathIn)
    }

    pub fn breath_out(self) -> (r: &'static str)
        ensures
            r@ == text(self@, Msg::BreathOut),
    {
        self.t(Msg::BreathOut)
    }

    pub fn input_label(self) -> (r: &'static str)
        ensures
            r@ == text(self@, Msg::InputLabel),
    {
        self.t(Msg::InputLabel)
    }

    /// The name of a day of the week.
    pub fn weekday(self, weekday: crate::calendar::Weekday) -> (r: &'static str)
        ensures
            r@ == text(self@, weekday_msg(weekday)),
    {
        let key = match weekday {
            crate::calendar::Weekday::Mon => Msg::WeekdayMon,
            crate::calendar::Weekday::Tue => Msg::WeekdayTue,
            crate::calendar::Weekday::Wed => Msg::WeekdayWed,
            crate::calendar::Weekday::Thu => Msg::WeekdayThu,
            crate::calendar::Weekday::Fri => Msg::WeekdayFri,
            crate::calendar::Weekday::Sat => Msg::WeekdaySat,
            crate::calendar::Weekday::Sun => Msg::WeekdaySun,
        };
        self.t(key)
    }

    pub fn language_updated(self, language: Language) -> (r: String)
        ensures
            r@ == fill(text(self@, Msg::LanguageUpdated), seq![language_native_name(language)]),
    {
        let args = [language.native_name()];
        let r = self.format(Msg::LanguageUpdated, &args);
        assert(arg_views(args@) =~= seq![language_native_name(language)]);
        r
    }

    pub fn current_language(self, language: Language) -> (r: String)
        ensures
            r@ == fill(
                text(self@, Msg::CurrentLanguage),
                seq![language_native_name(language), language_code(language)],
            ),
    {
        let args = [language.native_name(), language.code()];
        let r = self.format(Msg::CurrentLanguage, &args);
        assert(arg_views(args@) =~= seq![language_native_name(language), language_code(language)]);
        r
    }

    pub fn site_added(self, site: &str) -> (r: String)
        ensures
            r@ == fill(text(self@, Msg::SiteAdded), seq![site@]),
    {
        let args = [site];
        let r = self.format(Msg::SiteAdded, &args);
        assert(arg_views(args@) =~= seq![site@]);
        r
    }

    pub fn site_removed(self, site: &str) -> (r: String)
        ensures
            r@ == fill(text(self@, Msg::SiteRemoved), seq![site@]),
    {
        let args = [site];
        let r = self.format(Msg::SiteRemoved, &args);
        assert(arg_views(args@) =~= seq![site@]);
        r
    }

    pub fn site_already_present(self, site: &str) -> (r: String)
        ensures
            r@ == fill(text(self@, Msg::SiteAlreadyPresent), seq![site@]),
    {
        let args = [site];
        let r = self.format(Msg::SiteAlreadyPresent, &args);
        assert(arg_views(args@) =~= seq![site@]);
        r
    }

    pub fn site_not_found(self, site: &str) -> (r: String)
        ensures
            r@ == fill(text(self@, Msg::SiteNotFound), seq![site@]),
    {
        let args = [site];
        let r = self.format(Msg::SiteNotFound, &args);
        assert(arg_views(args@) =~= seq![site@]);
        r
    }

    pub fn remove_confirm_required(self, site: &str) -> (r: String)
        ensures
            r@ == fill(text(self@, Msg::RemoveConfirmRequired), seq![site@]),
    {
        let args = [site];
        let r = self.format(Msg::RemoveConfirmRequired, &args);
        assert(arg_views(args@) =~= seq![site@]);
        r
    }

    pub fn unsupported_language(self, value: &str) -> (r: String)
        ensures
            r@ == fill(text(self@, Msg::UnsupportedLanguage), seq![value@]),
    {
        let args = [value];
        let r = self.format(Msg::UnsupportedLanguage, &args);
        assert(arg_views(args@) =~= seq![value@]);
        r
    }

    pub fn schedule_updated(self, start: u8, end: u8, weekends: bool) -> (r: String)
        ensures
            r@ == fill(
                text(self@, Msg::ScheduleUpdated),
                seq![two_digits(start as nat), two_digits(end as nat), weekends_text(self@, weekends)],
            ),
    {
        let weekends_str = if weekends {
            self.weekends_on()
        } else {
            self.weekends_off()
        };
        let s = from_chars(&two_digit_chars(start as u64));
        let e = from_chars(&two_digit_chars(end as u64));
        let args = [s.as_str(), e.as_str(), weekends_str];
        let r = self.format(Msg::ScheduleUpdated, &args);
        assert(arg_views(args@) =~= seq![two_digits(start as nat), two_digits(end as nat), weekends_text(self@, weekends)]);
        r
    }

    pub fn schedule_summary(self, start: u8, end: u8, weekends: bool) -> (r: String)
        ensures
            r@ == fill(
                text(self@, Msg::ScheduleSummary),
                seq![two_digits(start as nat), two_digits(end as nat), weekends_text(self@, weekends)],
            ),
    {
        let weekends_str = if weekends {
            self.weekends_on()
        } else {
            self.weekends_off()
        };
        let s = from_chars(&two_digit_chars(start as u64));
        let e = from_chars(&two_digit_chars(end as u64));
        let args = [s.as_str(), e.as_str(), weekends_str];
        let r = self.format(Msg::ScheduleSummary, &args);
        assert(arg_views(args@) =~= seq![two_digits(start as nat), two_digits(end as nat), weekends_text(self@, weekends)]);
        r
    }

}

/// The message that names a day of the week.
pub open spec fn weekday_msg(w: crate::calendar::Weekday) -> Msg {
    match w {
        crate::calendar::Weekday::Mon => Msg::WeekdayMon,
        crate::calendar::Weekday::Tue => Msg::WeekdayTue,
        crate::calendar::Weekday::Wed => Msg::WeekdayWed,
        crate::calendar::Weekday::Thu => Msg::WeekdayThu,
        crate::calendar::Weekday::Fri => Msg::WeekdayFri,
        crate::calendar::Weekday::Sat => Msg::WeekdaySat,
        crate::calendar::Weekday::Sun => Msg::WeekdaySun,
    }
}

} // verus!
