//! Persisted engine settings: the data model and the decisions made when
//! loading them.
//!
//! Reading and writing the settings file, and parsing its text, belong to
//! the application shell around this library. What is verified here is the
//! shape of the settings and the load-time decision: which parse outcome
//! wins, when a legacy file is migrated, and when defaults take over.

use vstd::prelude::*;

verus! {

/// How the renderer issues its draw calls.
#[derive(Clone, Copy, PartialEq, Eq, Structural, Debug)]
pub enum RenderMode {
    Direct,
    Indirect,
    MultiIndirect,
}

/// Renderer configuration.
#[derive(Clone, Copy, PartialEq, Eq, Structural, Debug)]
pub struct RenderSettings {
    pub render_mode: RenderMode,
    pub software_culling: bool,
}

impl Default for RenderSettings {
    /// Direct rendering without software culling.
    fn default() -> (d: RenderSettings)
        ensures
            d.render_mode == RenderMode::Direct,
            !d.software_culling,
    {
        RenderSettings { render_mode: RenderMode::Direct, software_culling: false }
    }
}

/// Settings that are not tied to one subsystem.
#[derive(Clone, PartialEq, Eq, Debug)]
pub struct GeneralSettings {
    /// Credential for the content API, if the user signed in.
    pub api_token: Option<String>,
}

impl Default for GeneralSettings {
    /// No token.
    fn default() -> (d: GeneralSettings)
        ensures
            d.api_token is None,
    {
        GeneralSettings { api_token: None }
    }
}

/// The persisted settings: general and renderer sections.
#[derive(Clone, PartialEq, Eq, Debug)]
pub struct Settings {
    pub general: GeneralSettings,
    pub render: RenderSettings,
}

/// Whether a settings value is the default one.
pub open spec fn is_default_settings(s: Settings) -> bool {
    &&& s.general.api_token is None
    &&& s.render.render_mode == RenderMode::Direct
    &&& !s.render.software_culling
}

impl Default for Settings {
    /// Both sections at their defaults.
    fn default() -> (d: Settings)
        ensures
            is_default_settings(d),
    {
        Settings { general: GeneralSettings::default(), render: RenderSettings::default() }
    }
}

/// What the shell found when it read the settings file, before any
/// decision is taken.
pub enum SettingsLoad {
    /// The file was read; these are the parse outcomes: the current
    /// format, and the legacy render-only format.
    Content { parsed: Option<Settings>, legacy_render: Option<RenderSettings> },
    /// No settings file exists yet.
    Missing,
    /// The file exists but could not be read.
    Unreadable,
}

/// The load-time decision, with what the shell must do next.
#[derive(PartialEq, Eq, Debug)]
pub enum LoadOutcome {
    /// The file parsed in the current format; use it as is.
    Loaded(Settings),
    /// Only the legacy render-only format parsed: migrated settings that
    /// must be written back to the file.
    Migrated(Settings),
    /// No file yet: defaults that must be written back to the file.
    Fresh(Settings),
    /// The file could not be read or parsed in any known format.
    Failed,
}

impl Settings {
    /// Migrates a legacy render-only settings file: the renderer section
    /// is kept, everything else starts at its default.
    pub fn migrate(render: RenderSettings) -> (s: Settings)
        ensures
            s.render == render,
            s.general.api_token is None,
    {
        Settings { general: GeneralSettings::default(), render }
    }

    /// The whole load-time decision: a file in the current format wins; a
    /// legacy render-only file is migrated and written back; a missing
    /// file becomes defaults written back; anything else fails.
    pub fn reconcile(load: SettingsLoad) -> (r: LoadOutcome)
        ensures
            (load matches SettingsLoad::Content { parsed: Some(s), .. } ==> r
                == LoadOutcome::Loaded(s)),
            (load matches SettingsLoad::Content { parsed: None, legacy_render: Some(render) }
                ==> (r matches LoadOutcome::Migrated(s) && s.render == render
                && s.general.api_token is None)),
            (load matches SettingsLoad::Content { parsed: None, legacy_render: None } ==> r
                == LoadOutcome::Failed),
            (load is Missing ==> (r matches LoadOutcome::Fresh(s) && is_default_settings(s))),
            (load is Unreadable ==> r == LoadOutcome::Failed),
    {
        match load {
            SettingsLoad::Content { parsed: Some(s), .. } => LoadOutcome::Loaded(s),
            SettingsLoad::Content { parsed: None, legacy_render: Some(render) } => {
                LoadOutcome::Migrated(Settings::migrate(render))
            },
            SettingsLoad::Content { parsed: None, legacy_render: None } => LoadOutcome::Failed,
            SettingsLoad::Missing => LoadOutcome::Fresh(Settings::default()),
            SettingsLoad::Unreadable => LoadOutcome::Failed,
        }
    }
}

/// Cache key under which the settings are looked up once per process.
#[derive(Clone, Debug)]
pub struct SettingsKey;

impl SettingsKey {
    /// What the cache stores: the loaded settings, or the defaults when
    /// the load failed for any reason.
    pub fn load(&self, loaded: Option<Settings>) -> (s: Settings)
        ensures
            (loaded matches Some(l) ==> s == l),
            (loaded is None ==> is_default_settings(s)),
    {
        match loaded {
            Some(l) => l,
            None => Settings::default(),
        }
    }
}

} // verus!
