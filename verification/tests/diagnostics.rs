use gitflux::{
    cache_diagnostic, cache_location, diagnostic_inputs_key, diagnostics_human_summary,
    ffmpeg_diagnostic, gpu_diagnostic, ref_diagnostic, FfmpegBinary, FfmpegProbe, Mainline,
    MainlineSelection, RefFacts, DIAGNOSTICS_SCHEMA_VERSION,
};
use gitflux::DiagnosticsReport;

fn exited(success: bool, code: Option<i32>, stdout: &str, stderr: &str) -> FfmpegProbe {
    FfmpegProbe::Exited {
        success,
        exit_code: code,
        stdout: stdout.to_owned(),
        stderr: stderr.to_owned(),
    }
}

#[test]
fn ffmpeg_probe_recognizes_version_output() {
    let binary = FfmpegBinary::from_path("ffmpeg");
    let ok = ffmpeg_diagnostic(
        &binary,
        exited(true, Some(0), "\n  ffmpeg version 6.1 Copyright\nmore", ""),
    );
    assert!(ok.available);
    assert_eq!(ok.version.as_deref(), Some("ffmpeg version 6.1 Copyright"));
    assert_eq!(ok.error, None);
    let from_stderr = ffmpeg_diagnostic(&binary, exited(true, Some(0), " \r\n", "ffmpeg version 7\n"));
    assert_eq!(from_stderr.version.as_deref(), Some("ffmpeg version 7"));
}

#[test]
fn diagnostics_rejects_successful_non_ffmpeg_version_probe() {
    let binary = FfmpegBinary::from_path("/usr/bin/true");
    let report = ffmpeg_diagnostic(&binary, exited(true, Some(0), "not ffmpeg\n", ""));
    assert!(!report.available);
    assert_eq!(
        report.error.as_deref(),
        Some("version probe did not produce recognizable FFmpeg output: not ffmpeg")
    );
    assert_eq!(report.path, "/usr/bin/true");
}

#[test]
fn diagnostics_rejects_empty_successful_ffmpeg_probe() {
    let binary = FfmpegBinary::from_path("ffmpeg");
    let report = ffmpeg_diagnostic(&binary, exited(true, Some(0), "", "  \n\t\n"));
    assert!(!report.available);
    assert_eq!(
        report.error.as_deref(),
        Some("version probe did not produce recognizable FFmpeg output")
    );
}

#[test]
fn failed_ffmpeg_probe_reports_exit_and_first_error_line() {
    let binary = FfmpegBinary::from_path("ffmpeg");
    let failed = ffmpeg_diagnostic(&binary, exited(false, Some(42), "", "\nbroken ffmpeg\nmore\n"));
    assert_eq!(
        failed.error.as_deref(),
        Some("version probe exited with 42: broken ffmpeg")
    );
    let killed = ffmpeg_diagnostic(&binary, exited(false, None, "", ""));
    assert_eq!(killed.error.as_deref(), Some("version probe exited with signal"));
    let missing = ffmpeg_diagnostic(
        &binary,
        FfmpegProbe::NotStarted {
            error: "No such file".to_owned(),
        },
    );
    assert_eq!(missing.error.as_deref(), Some("No such file"));
}

#[test]
fn diagnostics_reports_human_readable_readiness() {
    let refs = ref_diagnostic(
        &MainlineSelection::Explicit(Mainline::new("main")),
        Ok(RefFacts {
            head: Some("main".to_owned()),
            local_branches: vec!["topic".to_owned(), "main".to_owned()],
            ingestion: Ok(("main".to_owned(), Some("abc123".to_owned()))),
        }),
    );
    assert_eq!(refs.local_branches, ["main", "topic"]);
    let key = diagnostic_inputs_key("repo", &refs);
    assert!(key.starts_with("sha256:"));
    assert_eq!(key.len(), "sha256:".len() + 64);
    let report = DiagnosticsReport {
        schema_version: DIAGNOSTICS_SCHEMA_VERSION,
        repository_path: "repo".to_owned(),
        gpu: gpu_diagnostic(Err("no adapter".to_owned())),
        ffmpeg: ffmpeg_diagnostic(
            &FfmpegBinary::from_path("ffmpeg"),
            exited(true, Some(0), "ffmpeg version 6", ""),
        ),
        refs,
        cache: cache_diagnostic(cache_location("repo", Some("repo/.git/")), false, key),
    };
    let text = diagnostics_human_summary(&report);

    assert!(text.starts_with("Gitflux Diagnostics\nRepository path: repo\n"));
    assert!(text.contains("GPU/backend: unavailable (no adapter)\n"));
    assert!(text.contains("FFmpeg: ready at ffmpeg (ffmpeg version 6)\n"));
    assert!(text.contains("Ref selection: explicit\nMainline: main\nMainline tip: abc123\nHEAD: main\n"));
    assert!(text.contains("Local branches: main, topic\n"));
    assert!(text.contains("Cache location: repo/.git/gitflux/cache\n"));
    assert!(text.contains("Cache status: not_present\n"));
    assert!(text.contains("Cache matches current inputs: no\n"));
    assert!(!text.contains("Ref diagnostics:"));
}

#[test]
fn identical_inputs_have_the_same_key() {
    let refs = |tip: Option<&str>| {
        ref_diagnostic(
            &MainlineSelection::Detect,
            Ok(RefFacts {
                head: None,
                local_branches: Vec::new(),
                ingestion: Ok(("main".to_owned(), tip.map(str::to_owned))),
            }),
        )
    };
    assert_eq!(
        diagnostic_inputs_key("repo", &refs(Some("abc"))),
        diagnostic_inputs_key("repo", &refs(Some("abc")))
    );
    assert_ne!(
        diagnostic_inputs_key("repo", &refs(Some("abc"))),
        diagnostic_inputs_key("repo", &refs(None))
    );
    assert_eq!(
        diagnostic_inputs_key("", &refs(None)),
        "sha256:e9c812b21683bbd067f08f6f41ad1dc8fcf578180e30c2a3f13097e6bc381437"
    );
}

#[test]
fn unopenable_repository_reports_only_the_failure() {
    let refs = ref_diagnostic(&MainlineSelection::Detect, Err("not a repo".to_owned()));
    assert_eq!(refs.selection_mode, "detected");
    assert_eq!(refs.mainline, "auto");
    assert_eq!(refs.error.as_deref(), Some("failed to open Git repository: not a repo"));
    assert_eq!(cache_location("repo", None), "repo/.git/gitflux/cache");
}
