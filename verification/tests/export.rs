use gitflux::{
    export_command_plan, export_frame_output, ffmpeg_input_pattern, output_file_outcome,
    scaffold_export_manifest, ExportError, FfmpegBinary, FfmpegCommandPlan, FfmpegLaunch,
    FrameCount, Layout, Mainline, OutputPreset, RenderConfiguration, RenderPlan,
    RepositoryReplay, Theme, VideoEncoder, VideoExportOptions, VideoExportRequest,
    VisualMetaphor,
};

fn render_plan() -> RenderPlan {
    let replay = RepositoryReplay::new(Mainline::new("main"));
    let configuration = RenderConfiguration::new(
        VisualMetaphor::new("flow"),
        Theme::new("default"),
        Layout::RepositoryGraph,
    );

    RenderPlan::new(replay, configuration)
}

#[test]
fn scaffold_manifest_records_ffmpeg_encoder() {
    let replay = RepositoryReplay::new(Mainline::new("main"));
    let configuration = RenderConfiguration::new(
        VisualMetaphor::new("flow"),
        Theme::new("default"),
        Layout::RepositoryGraph,
    );
    let request =
        VideoExportRequest::try_new(RenderPlan::new(replay, configuration), "out/gitflux.mp4")
            .expect("supported Video Export request");

    let manifest = scaffold_export_manifest(&request);

    assert_eq!(manifest.output_path(), "out/gitflux.mp4");
    assert_eq!(manifest.encoder(), VideoEncoder::Ffmpeg);
}

#[test]
fn mp4_command_plan_uses_image_sequence_input() {
    let request = VideoExportRequest::try_new(render_plan(), "out/gitflux.mp4")
        .expect("supported Video Export request");

    let plan = FfmpegCommandPlan::for_png_sequence(
        FfmpegBinary::from_path("/opt/homebrew/bin/ffmpeg"),
        &request,
        "frames/frame_%06d.png",
        30,
        0,
    );

    assert_eq!(request.output_preset(), OutputPreset::Mp4);
    assert_eq!(plan.program(), "/opt/homebrew/bin/ffmpeg");
    assert_eq!(
        plan.arguments(),
        [
            "-y",
            "-framerate",
            "30",
            "-start_number",
            "0",
            "-i",
            "frames/frame_%06d.png",
            "-c:v",
            "libx264",
            "-pix_fmt",
            "yuv420p",
            "-movflags",
            "+faststart",
            "out/gitflux.mp4"
        ]
    );
}

#[test]
fn webm_command_plan_uses_vp9_preset() {
    let request = VideoExportRequest::try_new(render_plan(), "out/gitflux.webm")
        .expect("supported Video Export request");

    let plan = FfmpegCommandPlan::for_png_sequence(
        FfmpegBinary::default(),
        &request,
        "frames/frame_%06d.png",
        24,
        1,
    );

    assert_eq!(request.output_preset(), OutputPreset::WebM);
    assert!(plan.arguments().contains(&"-c:v".to_owned()));
    assert!(plan.arguments().contains(&"libvpx-vp9".to_owned()));
    assert!(plan.arguments().contains(&"out/gitflux.webm".to_owned()));
}

#[test]
fn unsupported_output_extension_is_rejected() {
    let request = VideoExportRequest::try_new(render_plan(), "out/gitflux.mov");

    assert!(request
        .expect_err("unsupported extension should fail")
        .message()
        .contains("supported presets: .mp4, .webm"));
}

#[test]
fn missing_ffmpeg_binary_reports_remediation() {
    let request = VideoExportRequest::try_new(render_plan(), "out/gitflux.webm")
        .expect("supported Video Export request");
    let plan = FfmpegCommandPlan::for_png_sequence(
        FfmpegBinary::from_path("definitely-not-gitflux-ffmpeg"),
        &request,
        "frames/frame_%06d.png",
        24,
        0,
    );

    let error = plan
        .launch_outcome(FfmpegLaunch::NotStarted {
            error: "No such file or directory (os error 2)".to_owned(),
        })
        .expect_err("missing ffmpeg should fail early");
    let message = error.message();

    assert!(message.contains("FFmpeg was not found"));
    assert!(message.contains("Install FFmpeg"));
    assert!(message.contains("--ffmpeg-path"));
}

#[test]
fn output_presets_follow_the_extension_in_any_case() {
    for (path, preset) in [
        ("a/b.MP4", OutputPreset::Mp4),
        ("clip.WebM", OutputPreset::WebM),
        ("dir/x.y.mp4", OutputPreset::Mp4),
        ("out/video.webm/", OutputPreset::WebM),
    ] {
        let request = VideoExportRequest::try_new(render_plan(), path).expect("supported");
        assert_eq!(request.output_preset(), preset);
    }
    for path in ["mp4", ".mp4", "out/", "video.mp4.mov", "video.", ""] {
        let error = VideoExportRequest::try_new(render_plan(), path).expect_err("unsupported");
        assert_eq!(
            error,
            ExportError::UnsupportedOutputPreset {
                output_path: path.to_owned()
            }
        );
    }
}

#[test]
fn failed_encoder_reports_exit_code_and_stderr() {
    let request = VideoExportRequest::try_new(render_plan(), "out/gitflux.mp4").expect("mp4");
    let plan = FfmpegCommandPlan::for_png_sequence(
        FfmpegBinary::from_path("ffmpeg"),
        &request,
        "in_%06d.png",
        30,
        0,
    );

    assert_eq!(
        plan.launch_outcome(FfmpegLaunch::Exited {
            success: true,
            exit_code: Some(0),
            stderr: String::new()
        }),
        Ok(())
    );
    let failed = plan
        .launch_outcome(FfmpegLaunch::Exited {
            success: false,
            exit_code: Some(-42),
            stderr: "broken ffmpeg".to_owned(),
        })
        .expect_err("failure");
    assert_eq!(
        failed.message(),
        "FFmpeg failed while encoding with 'ffmpeg' (exit code: -42): broken ffmpeg"
    );
    let silent = plan
        .launch_outcome(FfmpegLaunch::Exited {
            success: false,
            exit_code: None,
            stderr: String::new(),
        })
        .expect_err("failure");
    assert_eq!(
        silent.message(),
        "FFmpeg failed while encoding with 'ffmpeg' (exit code: unknown): no stderr output"
    );
    let padded = plan
        .launch_outcome(FfmpegLaunch::Exited {
            success: false,
            exit_code: Some(1),
            stderr: "\n  Unknown encoder 'libx264'\n\n".to_owned(),
        })
        .expect_err("failure");
    assert_eq!(
        padded,
        ExportError::FfmpegFailed {
            binary: "ffmpeg".to_owned(),
            exit_code: Some(1),
            stderr: "Unknown encoder 'libx264'".to_owned(),
        }
    );
    let blank = plan
        .launch_outcome(FfmpegLaunch::Exited {
            success: false,
            exit_code: Some(1),
            stderr: " \n\t".to_owned(),
        })
        .expect_err("failure");
    assert!(blank.message().ends_with("(exit code: 1): no stderr output"));
}

#[test]
fn encoded_output_must_exist_and_not_be_empty() {
    let missing = output_file_outcome("out/missing.mp4", Err("not found".to_owned()))
        .expect_err("missing output");
    assert!(missing.message().contains("did not create output file"));
    assert!(missing.message().contains("missing.mp4"));
    let empty = output_file_outcome("out/empty.mp4", Ok(0)).expect_err("empty output");
    assert!(empty.message().contains("is empty"));
    assert_eq!(output_file_outcome("out/ok.mp4", Ok(12)), Ok(()));
}

#[test]
fn export_frames_go_to_the_work_directory() {
    let request = VideoExportRequest::try_new(render_plan(), "out/gitflux.webm").expect("webm");
    let options = VideoExportOptions::new(FfmpegBinary::from_path("ff"), FrameCount::new(4))
        .with_work_directory("/tmp/work");
    let frames = export_frame_output(options.work_directory().expect("chosen"));

    assert_eq!(frames.directory(), "/tmp/work/frames");
    assert_eq!(ffmpeg_input_pattern(&frames), "/tmp/work/frames/frame_%06d.png");
    let plan = export_command_plan(&request, &options, &frames);
    assert_eq!(plan.program(), "ff");
    assert_eq!(
        plan.arguments(),
        [
            "-y",
            "-framerate",
            "60",
            "-start_number",
            "0",
            "-i",
            "/tmp/work/frames/frame_%06d.png",
            "-c:v",
            "libvpx-vp9",
            "-pix_fmt",
            "yuva420p",
            "out/gitflux.webm"
        ]
    );
    assert_eq!(VideoExportOptions::default().frame_count().get(), 1);
    assert_eq!(VideoExportOptions::default().work_directory(), None);
}

#[test]
fn output_presets_read_the_last_path_component_as_std_path_does() {
    assert_eq!(OutputPreset::from_output_path("x.mp4/."), Ok(OutputPreset::Mp4));
    assert_eq!(OutputPreset::from_output_path("out/video.WEBM/./"), Ok(OutputPreset::WebM));
    assert_eq!(OutputPreset::from_output_path("out//clip.mp4//"), Ok(OutputPreset::Mp4));
    for path in [".", "./", "/.", "out/..", "out/.mp4", "out/."] {
        assert_eq!(
            OutputPreset::from_output_path(path),
            Err(ExportError::UnsupportedOutputPreset {
                output_path: path.to_owned()
            }),
            "{path}"
        );
    }
}
