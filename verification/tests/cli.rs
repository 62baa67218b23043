use gitflux::{
    check_repository_path, config_hash, load_render_configuration, parse_preview_args,
    parse_render_args, preview_human_summary, render_configuration_label, run, CliRequest,
    ConfigFileSnapshot, Mainline, PlanningPreviewWindowAdapter, PreviewConfigurationSource,
    PreviewReloadPolicy, PreviewSessionPlan, RenderConfiguration, RenderPlan, RepositoryReplay,
};
use std::path::Path;

fn args(words: &[&str]) -> Vec<String> {
    words.iter().map(|word| (*word).to_owned()).collect()
}

#[test]
fn prints_help_by_default() {
    let request = run(&Vec::new()).expect("help should render");
    let CliRequest::Print(output) = request else {
        panic!("help should print");
    };

    assert!(output.contains("Usage:"));
    assert!(output.contains("--version"));
}

#[test]
fn prints_version() {
    let request = run(&args(&["--version"])).expect("version should render");
    let CliRequest::Print(output) = request else {
        panic!("version should print");
    };

    assert!(output.starts_with("gitflux "));
}

#[test]
fn rejects_unknown_options() {
    let error = run(&args(&["--missing"])).expect_err("unknown flags should fail");

    assert!(error.contains("unrecognized option: --missing"));
}

#[test]
fn render_rejects_missing_ffmpeg_path_value() {
    let error = run(&args(&[
        "render",
        ".",
        "--output",
        "out.mp4",
        "--ffmpeg-path",
    ]))
    .expect_err("missing FFmpeg path should fail");

    assert!(error.contains("missing FFmpeg path after --ffmpeg-path"));
}

#[test]
fn render_rejects_missing_repository_path() {
    let request = run(&args(&["render", "does-not-exist", "--output", "out.mp4"]))
        .expect("arguments should parse");
    let CliRequest::Render(render) = request else {
        panic!("render should be requested");
    };
    let path = Path::new(render.repository_path());
    let error = check_repository_path(render.repository_path(), path.exists(), path.is_dir())
        .expect_err("missing repository path should fail");

    assert!(error.contains("repository path does not exist"));
    assert!(error.contains("does-not-exist"));
}

#[test]
fn render_requires_output_path() {
    let error = run(&args(&["render", "."])).expect_err("missing output target should fail");

    assert!(error.contains("missing required --output <output-path>"));
}

#[test]
fn later_options_override_earlier_ones() {
    let request = run(&args(&[
        "render",
        "repo",
        "-o",
        "a.mp4",
        "--output",
        "b.webm",
        "--mainline",
        "trunk",
        "--json",
    ]))
    .expect("arguments should parse");
    let CliRequest::Render(render) = request else {
        panic!("render should be requested");
    };

    assert_eq!(render.repository_path(), "repo");
    assert_eq!(render.output_path(), "b.webm");
    assert_eq!(render.mainline().as_label(), "trunk");
    assert_eq!(render.ffmpeg_binary().path(), "ffmpeg");
    assert!(render.json());
    assert_eq!(render.config_path(), None);
}

#[test]
fn subcommands_accept_only_their_own_options() {
    let error = run(&args(&["preview", "repo", "--json"])).expect_err("preview has no --json");
    assert_eq!(error, "unrecognized preview option: --json");
    let error = run(&args(&["doctor", "repo", "--config", "x"])).expect_err("no --config");
    assert_eq!(error, "unrecognized diagnostics option: --config");
    let request = run(&args(&["preview", "repo", "--no-config-reload"])).expect("preview");
    let CliRequest::Preview(preview) = request else {
        panic!("preview should be requested");
    };
    assert_eq!(preview.reload_policy(), PreviewReloadPolicy::Disabled);
    assert_eq!(preview.mainline().selection_mode(), "detected");
    let error = run(&args(&["diagnostics"])).expect_err("repository path is required");
    assert!(error.starts_with("missing repository path\n\n"));
    assert!(error.contains("Usage:"));
}

#[test]
fn repository_path_must_be_a_directory() {
    assert_eq!(check_repository_path("repo", true, true), Ok(()));
    assert_eq!(
        check_repository_path("file.txt", true, false),
        Err("repository path is not a directory: file.txt".to_owned())
    );
}

#[test]
fn render_rejects_missing_configuration_file() {
    let request = run(&args(&[
        "render",
        ".",
        "--output",
        "out.mp4",
        "--config",
        "render.toml",
    ]))
    .expect("arguments should parse");
    let CliRequest::Render(render) = request else {
        panic!("render should be requested");
    };
    let path = Path::new(render.repository_path());
    check_repository_path(render.repository_path(), path.exists(), path.is_dir())
        .expect("the current directory is a repository path");
    let error = gitflux::load_render_configuration(
        render.config_path(),
        "Render Configuration",
        Some(Err("No such file or directory (os error 2)".to_owned())),
    )
    .expect_err("missing Render Configuration file should fail");

    assert!(error.contains("failed to read Render Configuration render.toml"));
}

#[test]
fn configuration_files_are_loaded_and_refused_with_their_path() {
    let loaded = gitflux::load_render_configuration(None, "Render Configuration", None)
        .expect("defaults");
    assert_eq!(loaded.theme().name(), "gitflux-dark");
    let error = gitflux::load_render_configuration(
        Some("bad.toml"),
        "Preview Render Configuration",
        Some(Ok("frame_width =".to_owned())),
    )
    .expect_err("malformed");
    assert!(error.starts_with("failed to load Preview Render Configuration bad.toml:\n"));
    assert!(error.contains("valid TOML Render Configuration"));
}

#[test]
fn configuration_labels_name_source_theme_size_rate_and_layout() {
    let configuration = gitflux::RenderConfiguration::default();
    assert_eq!(
        gitflux::render_configuration_label(&configuration, None),
        "defaults (theme: gitflux-dark, 1920x1080, 60 FPS, layout: Repository Graph)"
    );
    assert_eq!(
        gitflux::render_configuration_label(&configuration, Some("r.toml")),
        "r.toml (theme: gitflux-dark, 1920x1080, 60 FPS, layout: Repository Graph)"
    );
}

const TERMINAL_CONFIG: &str = r##"
frame_width = 1280
frame_height = 720
frames_per_second = 30

[theme]
name = "terminal"
background_color = "#101010"
entity_color = "#32d583"
contributor_color = "#fdb022"

[layout]
kind = "repository_graph"
entity_spacing = 140
settle_iterations = 80
"##;

#[test]
fn identical_config_contents_have_stable_hash_across_paths() {
    let first_command = parse_render_args(
        &args(&[
            "fixture",
            "--output",
            "fixture/first.mp4",
            "--config",
            "configs/same-config-a.toml",
        ]),
        0,
    )
    .expect("first config should parse");
    let second_command = parse_render_args(
        &args(&[
            "fixture",
            "--output",
            "fixture/second.mp4",
            "--config",
            "configs/same-config-b.toml",
        ]),
        0,
    )
    .expect("second config should parse");
    let load = |path: Option<&str>| {
        load_render_configuration(path, "Render Configuration", Some(Ok(TERMINAL_CONFIG.to_owned())))
            .expect("config should load")
    };
    let first_configuration = load(first_command.config_path());
    let second_configuration = load(second_command.config_path());

    let first_hash = config_hash(
        &first_configuration,
        Some(Ok(TERMINAL_CONFIG.as_bytes().to_vec())),
    );
    let second_hash = config_hash(
        &second_configuration,
        Some(Ok(TERMINAL_CONFIG.as_bytes().to_vec())),
    );

    assert_eq!(first_hash, second_hash);
    assert!(first_hash.starts_with("sha256:"));
    assert_eq!(first_hash.len(), "sha256:".len() + 64);
}

#[test]
fn config_hash_of_defaults_covers_the_default_label() {
    let configuration = RenderConfiguration::default();
    let label = render_configuration_label(&configuration, None);
    let defaults = config_hash(&configuration, None);
    let same_bytes = config_hash(
        &configuration,
        Some(Ok(format!("default:{label}").into_bytes())),
    );
    let unreadable = config_hash(&configuration, Some(Err("missing".to_owned())));
    let empty = config_hash(&configuration, Some(Ok(Vec::new())));

    assert_eq!(defaults, same_bytes);
    assert_eq!(unreadable, empty);
    assert_eq!(
        empty,
        "sha256:e3b0c44298fc1c149afbf4c8996fb92427ae41e4649b934ca495991b7852b855"
    );
    assert_ne!(defaults, empty);
}

#[test]
fn preview_plan_reports_shared_replay_and_render_configuration() {
    let command = parse_preview_args(
        &args(&[
            "fixture",
            "--config",
            "configs/preview-valid.toml",
            "--mainline",
            "main",
        ]),
        0,
    )
    .expect("preview should build a session plan");
    let configuration = load_render_configuration(
        command.config_path(),
        "Preview Render Configuration",
        Some(Ok(TERMINAL_CONFIG.to_owned())),
    )
    .expect("preview config should load");
    let plan = PreviewSessionPlan::new(
        RenderPlan::new(RepositoryReplay::new(Mainline::new("main")), configuration.clone()),
        PreviewConfigurationSource::File("configs/preview-valid.toml".to_owned()),
        command.reload_policy(),
    );
    let watcher = plan
        .config_watcher(Some(Ok(ConfigFileSnapshot::new(Some((1, 0)), 10))))
        .expect("config watcher should initialize");
    let mut adapter = PlanningPreviewWindowAdapter;
    let summary = adapter.run(&plan).expect("injected preview adapter should execute");
    let label = render_configuration_label(&configuration, command.config_path());
    let output = preview_human_summary(&command, &label, &summary, watcher.is_some());

    assert!(output.contains("Gitflux Preview complete"));
    assert!(output.contains("Mainline: main"));
    assert!(output.contains("terminal"));
    assert!(output.contains("1280x720"));
    assert!(output.contains("Window: planned by minimal adapter (1280x720)"));
    assert!(output.contains("Shared renderer frame: not rendered"));
    assert!(output.contains("Config hot reload: watching config file metadata"));
}

#[test]
fn preview_default_command_can_use_injected_test_adapter() {
    let command = parse_preview_args(&args(&["fixture"]), 0)
        .expect("default preview command should parse");
    let configuration = load_render_configuration(command.config_path(), "Preview Render Configuration", None)
        .expect("defaults should load");
    let plan = PreviewSessionPlan::new(
        RenderPlan::new(RepositoryReplay::new(Mainline::new("main")), configuration.clone()),
        PreviewConfigurationSource::Defaults,
        command.reload_policy(),
    );
    let watcher = plan.config_watcher(None).expect("no watcher is needed");
    let mut adapter = PlanningPreviewWindowAdapter;
    let summary = adapter.run(&plan).expect("injected preview adapter should execute");
    let label = render_configuration_label(&configuration, command.config_path());
    let output = preview_human_summary(&command, &label, &summary, watcher.is_some());

    assert!(output.contains("Gitflux Preview complete"));
    assert!(output.contains("Window: planned by minimal adapter (1920x1080)"));
}
