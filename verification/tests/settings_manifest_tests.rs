use host_bridge::manifest::{Build, BuildRust, Project, Version};
use host_bridge::settings::{
    GeneralSettings, LoadOutcome, RenderMode, RenderSettings, Settings, SettingsKey, SettingsLoad,
};

#[test]
fn default_build_targets_client_and_server() {
    let b = BuildRust::default();
    assert_eq!(b.feature_multibuild, vec!["client".to_string(), "server".to_string()]);
    let build = Build::default();
    assert_eq!(build.rust.feature_multibuild, vec!["client".to_string(), "server".to_string()]);
}

#[test]
fn default_project_is_empty() {
    let p = Project::default();
    assert_eq!(p.id, String::new());
    assert_eq!(p.name, None);
    assert_eq!(p.version, None);
    assert_eq!(p.description, None);
    assert!(p.authors.is_empty());
    assert_eq!(p.organization, None);
    assert!(p.includes.is_empty());
}

#[test]
fn version_parts_are_kept() {
    let v = Version::new(0, 0, 1);
    assert_eq!(v.major, 0);
    assert_eq!(v.minor, 0);
    assert_eq!(v.patch, 1);
}

#[test]
fn parsed_settings_win_over_everything() {
    let s = Settings {
        general: GeneralSettings { api_token: Some("example-token".to_string()) },
        render: RenderSettings { render_mode: RenderMode::Indirect, software_culling: true },
    };
    let outcome = Settings::reconcile(SettingsLoad::Content {
        parsed: Some(s.clone()),
        legacy_render: Some(RenderSettings::default()),
    });
    assert_eq!(outcome, LoadOutcome::Loaded(s));
}

#[test]
fn legacy_render_file_is_migrated() {
    let render = RenderSettings { render_mode: RenderMode::MultiIndirect, software_culling: true };
    let outcome = Settings::reconcile(SettingsLoad::Content {
        parsed: None,
        legacy_render: Some(render),
    });
    match outcome {
        LoadOutcome::Migrated(s) => {
            assert_eq!(s.render, render);
            assert_eq!(s.general.api_token, None);
        }
        other => panic!("expected migration, got {:?}", other),
    }
}

#[test]
fn missing_file_becomes_fresh_defaults() {
    let outcome = Settings::reconcile(SettingsLoad::Missing);
    match outcome {
        LoadOutcome::Fresh(s) => {
            assert_eq!(s.general.api_token, None);
            assert_eq!(s.render.render_mode, RenderMode::Direct);
            assert!(!s.render.software_culling);
        }
        other => panic!("expected fresh defaults, got {:?}", other),
    }
}

#[test]
fn unreadable_or_unparsable_files_fail() {
    assert_eq!(Settings::reconcile(SettingsLoad::Unreadable), LoadOutcome::Failed);
    assert_eq!(
        Settings::reconcile(SettingsLoad::Content { parsed: None, legacy_render: None }),
        LoadOutcome::Failed
    );
}

#[test]
fn settings_key_falls_back_to_defaults() {
    let key = SettingsKey;
    let loaded = Settings {
        general: GeneralSettings { api_token: None },
        render: RenderSettings { render_mode: RenderMode::Indirect, software_culling: false },
    };
    assert_eq!(key.load(Some(loaded.clone())), loaded);
    let fallback = key.load(None);
    assert_eq!(fallback.render.render_mode, RenderMode::Direct);
    assert_eq!(fallback.general.api_token, None);
}
