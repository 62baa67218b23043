use gitflux::{
    render_pending, rgba_to_minifb_pixels, window_needs_reopen, ConfigFileSnapshot, ConfigFileWatcher, Mainline,
    PlanningPreviewWindowAdapter, PreviewConfigurationSource, PreviewError, PreviewKeys,
    PreviewPlayback, PreviewReloadPolicy, PreviewReloadWatch, PreviewSessionPlan,
    PreviewWindowStatus, RenderConfiguration, RenderPlan, RepositoryReplay,
};

#[test]
fn preview_plan_uses_render_plan_frame_size() {
    let render_plan = RenderPlan::new(
        RepositoryReplay::new(Mainline::new("main")),
        RenderConfiguration::default(),
    );
    let plan = PreviewSessionPlan::new(
        render_plan,
        PreviewConfigurationSource::Defaults,
        PreviewReloadPolicy::ConfigFileMetadata,
    );

    assert_eq!(plan.window().title(), "Gitflux Preview - main");
    assert_eq!(plan.window().width(), 1920);
    assert_eq!(plan.window().height(), 1080);
}

#[test]
fn planning_adapter_reports_window_plan_without_rendering() {
    let render_plan = RenderPlan::new(
        RepositoryReplay::new(Mainline::new("main")),
        RenderConfiguration::default(),
    );
    let plan = PreviewSessionPlan::new(
        render_plan,
        PreviewConfigurationSource::Defaults,
        PreviewReloadPolicy::ConfigFileMetadata,
    );
    let mut adapter = PlanningPreviewWindowAdapter;
    let summary = adapter.run(&plan).expect("preview should plan");

    assert_eq!(
        summary.window_status(),
        &PreviewWindowStatus::Planned(plan.window().clone())
    );
    assert!(!summary.rendered_initial_frame());
    assert_eq!(summary.reload_watch(), PreviewReloadWatch::NoConfigFile);
}

#[test]
fn preview_buffer_converts_rgba_pixels_to_window_pixels() {
    let pixels = rgba_to_minifb_pixels(&[0x12, 0x34, 0x56, 0xff, 0xaa, 0xbb, 0xcc, 0x80]);

    assert_eq!(pixels, [0x123456, 0xaabbcc]);
}

#[test]
fn trailing_bytes_that_make_no_pixel_are_ignored() {
    assert_eq!(rgba_to_minifb_pixels(&[1, 2, 3, 4, 5, 6]), [0x010203]);
    assert!(rgba_to_minifb_pixels(&[]).is_empty());
}

#[test]
fn config_watcher_only_follows_files_when_reload_is_on() {
    let file_plan = |policy| {
        PreviewSessionPlan::new(
            RenderPlan::new(
                RepositoryReplay::new(Mainline::new("main")),
                RenderConfiguration::default(),
            ),
            PreviewConfigurationSource::File("render.toml".to_owned()),
            policy,
        )
    };
    let watching = file_plan(PreviewReloadPolicy::ConfigFileMetadata);
    assert_eq!(watching.config_watcher_path(), Some("render.toml"));
    assert_eq!(
        gitflux::reload_watch_for_plan(&watching),
        PreviewReloadWatch::WatchingConfigFile
    );
    let disabled = file_plan(PreviewReloadPolicy::Disabled);
    assert_eq!(disabled.config_watcher_path(), None);
    assert_eq!(
        gitflux::reload_watch_for_plan(&disabled),
        PreviewReloadWatch::Disabled
    );
    assert_eq!(
        PreviewConfigurationSource::File("render.toml".to_owned()).label(),
        "render.toml"
    );
    assert_eq!(PreviewConfigurationSource::Defaults.label(), "defaults");
}

#[test]
fn accepted_reload_is_not_reported_again() {
    let first = ConfigFileSnapshot::new(Some((10, 5)), 100);
    let second = ConfigFileSnapshot::new(Some((11, 0)), 100);
    let mut watcher = ConfigFileWatcher::new("render.toml", first);

    assert!(!watcher.is_changed(&first));
    assert!(watcher.is_changed(&second));
    let reload = watcher.accept_reload(second, RenderConfiguration::default());
    assert_eq!(reload.path(), "render.toml");
    assert!(!watcher.is_changed(&second));
    assert!(watcher.is_changed(&ConfigFileSnapshot::new(None, 100)));
}

#[test]
fn playback_keys_move_within_frame_range() {
    let mut playback = PreviewPlayback::new(2);
    let none = PreviewKeys {
        toggle_play: false,
        step_forward: false,
        step_back: false,
    };
    let right = PreviewKeys {
        step_forward: true,
        ..none
    };
    let left = PreviewKeys {
        step_back: true,
        ..none
    };
    let space = PreviewKeys {
        toggle_play: true,
        ..none
    };

    assert!(!playback.advance(none));
    assert!(playback.advance(left));
    assert_eq!(playback.frame_index(), 0);
    assert!(playback.advance(right));
    assert!(playback.advance(right));
    assert!(playback.advance(right));
    assert_eq!(playback.frame_index(), 2);
    assert!(playback.advance(space));
    assert!(playback.playing());
    assert!(playback.advance(left));
    assert_eq!(playback.frame_index(), 1);
}

#[test]
fn preview_errors_name_their_cause() {
    let error = PreviewError::LoadConfiguration {
        path: "render.toml".to_owned(),
        source: "bad".to_owned(),
    };
    assert_eq!(
        error.message(),
        "failed to reload Preview Render Configuration render.toml:\nbad"
    );
    assert_eq!(
        PreviewError::WindowOpen("no display".to_owned()).message(),
        "failed to open Preview window: no display"
    );
}

fn valid_config(theme: &str, width: u32) -> String {
    format!(
        r##"
frame_width = {width}
frame_height = 720
frames_per_second = 30

[theme]
name = "{theme}"
background_color = "#101010"
entity_color = "#32d583"
contributor_color = "#fdb022"

[layout]
kind = "repository_graph"
entity_spacing = 140
settle_iterations = 80
"##
    )
}

#[test]
fn config_watcher_reloads_when_metadata_changes() {
    let path = "gitflux-preview-config.toml";
    let written = ConfigFileSnapshot::new(Some((1_700_000_000, 1)), valid_config("first", 1280).len() as u64);
    let plan = PreviewSessionPlan::new(
        RenderPlan::new(RepositoryReplay::new(Mainline::new("main")), RenderConfiguration::default()),
        PreviewConfigurationSource::File(path.to_owned()),
        PreviewReloadPolicy::ConfigFileMetadata,
    );
    let mut watcher = plan
        .config_watcher(Some(Ok(written)))
        .expect("watcher should initialize")
        .expect("a config file is watched");

    assert!(watcher
        .reload_if_changed(Ok(written), None)
        .expect("unchanged config should not fail")
        .is_none());

    let updated = ConfigFileSnapshot::new(Some((1_700_000_000, 5_000_001)), valid_config("second", 640).len() as u64);
    let reload = watcher
        .reload_if_changed(Ok(updated), Some(Ok(valid_config("second", 640))))
        .expect("changed config should reload")
        .expect("changed config should be reported");

    assert_eq!(reload.path(), path);
    assert_eq!(reload.configuration().theme().name(), "second");
    assert_eq!(reload.configuration().frame_size().width(), 640);
    assert!(watcher
        .reload_if_changed(Ok(updated), None)
        .expect("reloaded config is current")
        .is_none());
}

#[test]
fn config_reload_failures_keep_the_last_loaded_metadata() {
    let first = ConfigFileSnapshot::new(Some((10, 0)), 100);
    let second = ConfigFileSnapshot::new(Some((11, 0)), 90);
    let mut watcher = ConfigFileWatcher::new("render.toml", first);

    let missing = watcher
        .reload_if_changed(Err("No such file".to_owned()), None)
        .expect_err("missing metadata fails");
    assert_eq!(
        missing.message(),
        "failed to read Preview Render Configuration render.toml: No such file"
    );

    let refused = watcher
        .reload_if_changed(Ok(second), Some(Ok("frame_width = 0".to_owned())))
        .expect_err("invalid config fails");
    let message = refused.message();
    assert!(message.starts_with("failed to reload Preview Render Configuration render.toml:\n"));
    assert!(message.contains("frame_width"));
    assert!(watcher.is_changed(&second));
    assert!(!watcher.is_changed(&first));

    let disabled = PreviewSessionPlan::new(
        RenderPlan::new(RepositoryReplay::new(Mainline::new("main")), RenderConfiguration::default()),
        PreviewConfigurationSource::File("render.toml".to_owned()),
        PreviewReloadPolicy::Disabled,
    );
    assert_eq!(disabled.config_watcher_path(), None);
    assert!(disabled.config_watcher(None).expect("no watcher").is_none());
    let file_plan = PreviewSessionPlan::new(
        RenderPlan::new(RepositoryReplay::new(Mainline::new("main")), RenderConfiguration::default()),
        PreviewConfigurationSource::File("render.toml".to_owned()),
        PreviewReloadPolicy::ConfigFileMetadata,
    );
    let error = file_plan
        .config_watcher(Some(Err("denied".to_owned())))
        .expect_err("unreadable metadata fails");
    assert_eq!(
        error,
        PreviewError::ReadConfiguration {
            path: "render.toml".to_owned(),
            source: "denied".to_owned()
        }
    );
}

#[test]
fn a_reload_renders_instead_of_the_keys_and_resized_frames_reopen_the_window() {
    assert!(render_pending(true, false));
    assert!(!render_pending(true, true));
    assert!(!render_pending(false, false));
    assert!(!render_pending(false, true));
    assert!(!window_needs_reopen((1920, 1080), 1920, 1080));
    assert!(window_needs_reopen((1920, 1080), 1280, 1080));
    assert!(window_needs_reopen((1920, 1080), 1920, 720));
}
