use gitflux::{
    frame_sequence_indices, planned_capabilities, FrameCount, FrameFileStem, FrameIndex,
    FrameSequenceManifest, FrameSequenceOutput, GpuPowerPreference, Layout, Mainline,
    RenderConfiguration, RenderFrameSize, RenderPlan, RendererCapability, RendererSettings,
    RepositoryReplay, Theme, VisualMetaphor,
};
use gitflux::{
    padded_bytes_per_row, render_frame_count, unpadded_rows, CommitEvent, CommitId, Contributor, ExplicitPathFilter, FileChange,
    FileChangeKind, FramesPerSecond, RepositoryEntity, RepositoryGraphScene,
};
use std::path::PathBuf;

#[test]
fn render_plan_preserves_inputs() {
    let replay = RepositoryReplay::new(Mainline::new("main"));
    let configuration = RenderConfiguration::new(
        VisualMetaphor::new("flow"),
        Theme::new("default"),
        Layout::RepositoryGraph,
    );

    let plan = RenderPlan::new(replay, configuration);

    assert_eq!(plan.replay().mainline().as_str(), "main");
    assert_eq!(plan.configuration().theme().as_str(), "default");
}

#[test]
fn planned_capabilities_include_offscreen_rendering() {
    assert!(planned_capabilities().contains(&RendererCapability::OffscreenFrameProduction));
    assert!(planned_capabilities().contains(&RendererCapability::PngFrameSequenceOutput));
}

#[test]
fn frame_sequence_output_paths_are_deterministic() {
    let output = FrameSequenceOutput::new("frames", FrameFileStem::new("gitflux"))
        .with_first_frame_index(FrameIndex::new(7));

    assert_eq!(output.first_frame_index(), FrameIndex::new(7));
    assert_eq!(
        PathBuf::from(output.frame_path(FrameIndex::new(42))),
        PathBuf::from("frames/gitflux_000042.png")
    );
}

#[test]
fn frame_sequence_output_index_is_independent_from_playback_index() {
    let output = FrameSequenceOutput::new("frames", FrameFileStem::new("gitflux"))
        .with_first_frame_index(FrameIndex::new(100));
    let pairs = frame_sequence_indices(&output, FrameCount::new(3));

    assert_eq!(
        pairs
            .iter()
            .map(|pair| pair.playback_frame_index())
            .collect::<Vec<_>>(),
        vec![FrameIndex::new(0), FrameIndex::new(1), FrameIndex::new(2)]
    );
    assert_eq!(
        pairs
            .iter()
            .map(|pair| pair.output_frame_index())
            .collect::<Vec<_>>(),
        vec![
            FrameIndex::new(100),
            FrameIndex::new(101),
            FrameIndex::new(102)
        ]
    );
}

#[test]
fn renderer_settings_preserve_power_preference() {
    let settings = RendererSettings::new(GpuPowerPreference::HighPerformance);

    assert_eq!(
        settings.power_preference(),
        GpuPowerPreference::HighPerformance
    );
}

#[test]
fn render_frame_size_preserves_dimensions() {
    let size = RenderFrameSize::new(320, 180);

    assert_eq!(size.width(), 320);
    assert_eq!(size.height(), 180);
}

#[test]
fn renderer_settings_default_to_low_power() {
    assert_eq!(
        RendererSettings::default().power_preference(),
        GpuPowerPreference::LowPower
    );
}

#[test]
fn frame_paths_pad_indices_to_six_digits_and_keep_longer_ones() {
    let output = FrameSequenceOutput::new("out/", FrameFileStem::new("frame"));

    assert_eq!(output.frame_path(FrameIndex::new(0)), "out/frame_000000.png");
    assert_eq!(
        output.frame_path(FrameIndex::new(1234567)),
        "out/frame_1234567.png"
    );
    let bare = FrameSequenceOutput::new("", FrameFileStem::new("f"));
    assert_eq!(bare.frame_path(FrameIndex::new(5)), "f_000005.png");
}

#[test]
fn frame_sequence_manifest_lists_frames_in_render_order() {
    let plan = RenderPlan::new(
        RepositoryReplay::new(Mainline::new("main")),
        RenderConfiguration::default(),
    );
    let output = FrameSequenceOutput::new("frames", FrameFileStem::new("frame"))
        .with_first_frame_index(FrameIndex::new(9));

    let manifest = FrameSequenceManifest::for_sequence(&plan, &output, FrameCount::new(2));

    assert_eq!(manifest.frames_per_second(), 60);
    assert_eq!(manifest.frame_size(), RenderFrameSize::new(1920, 1080));
    assert_eq!(
        manifest.frame_paths(),
        ["frames/frame_000009.png", "frames/frame_000010.png"]
    );
}

#[test]
fn frame_count_is_never_zero() {
    assert_eq!(FrameCount::new(1).get(), 1);
    assert_eq!(FrameCount::new(u64::MAX).get(), u64::MAX);
}

#[test]
fn distinct_frame_indices_get_distinct_paths() {
    let output = FrameSequenceOutput::new("frames", FrameFileStem::new("frame"));
    let indices = [0u64, 1, 9, 10, 99, 999_999, 1_000_000, 10_000_000];
    let paths: Vec<String> = indices
        .iter()
        .map(|index| output.frame_path(FrameIndex::new(*index)))
        .collect();
    for (a, path_a) in paths.iter().enumerate() {
        for (b, path_b) in paths.iter().enumerate() {
            assert_eq!(path_a == path_b, a == b);
        }
    }
    assert_eq!(paths[6], "frames/frame_1000000.png");
}

#[test]
fn export_frame_count_covers_the_last_activity_start() {
    let empty = RenderPlan::new(
        RepositoryReplay::new(Mainline::new("main")),
        RenderConfiguration::default(),
    );
    assert_eq!(render_frame_count(&empty).map(FrameCount::get), Some(1));

    let mut replay = RepositoryReplay::new(Mainline::new("main"));
    for (id, path) in [("c1", "src/a.rs"), ("c2", "docs/b.md"), ("c3", "src/c.rs")] {
        replay.push_commit_event(CommitEvent::new(
            CommitId::new(id),
            Contributor::human("Ada"),
            vec![FileChange::new(RepositoryEntity::new(path), FileChangeKind::Added)],
        ));
    }
    let thirty = RenderPlan::new(
        replay.clone(),
        RenderConfiguration::default().with_frames_per_second(FramesPerSecond::new(30)),
    );
    assert_eq!(render_frame_count(&thirty).map(FrameCount::get), Some(61));

    let only_src = RenderPlan::new(
        replay,
        RenderConfiguration::default()
            .with_frames_per_second(FramesPerSecond::new(30))
            .with_explicit_path_filter(ExplicitPathFilter::new(vec!["src".to_owned()])),
    );
    assert_eq!(render_frame_count(&only_src).map(FrameCount::get), Some(31));
}

#[test]
fn activity_batches_respect_file_change_frame_offsets() {
    let mut replay = RepositoryReplay::new(Mainline::new("main"));
    let file_changes = (0..6)
        .map(|index| {
            FileChange::new(
                RepositoryEntity::new(&format!("src/generated/file_{index}.rs")),
                FileChangeKind::Modified,
            )
        })
        .collect();
    replay.push_commit_event(CommitEvent::new(
        CommitId::new("large"),
        Contributor::automation("Generator"),
        file_changes,
    ));
    let configuration = RenderConfiguration::from_toml_str(
        r##"
frame_width = 96
frame_height = 64
frames_per_second = 60

[theme]
name = "smoke"
background_color = "#05070b"
entity_color = "#7dd3fc"
contributor_color = "#facc15"

[layout]
kind = "repository_graph"
entity_spacing = 24
settle_iterations = 10
"##,
    )
    .expect("large commit render configuration should parse");
    let scene = RepositoryGraphScene::from_replay(&replay, &configuration);

    assert!(!scene
        .active_file_ids(FrameIndex::new(0).get())
        .contains(&"src/generated/file_5.rs".to_owned()));
    assert!(scene
        .active_file_ids(FrameIndex::new(120).get())
        .contains(&"src/generated/file_5.rs".to_owned()));
}

#[test]
fn file_changes_of_a_commit_light_a_third_of_a_second_apart() {
    let mut replay = RepositoryReplay::new(Mainline::new("main"));
    replay.push_commit_event(CommitEvent::new(
        CommitId::new("first"),
        Contributor::human("Ada"),
        vec![
            FileChange::new(RepositoryEntity::new("a.rs"), FileChangeKind::Added),
            FileChange::new(RepositoryEntity::new("b.rs"), FileChangeKind::Added),
            FileChange::new(RepositoryEntity::new("c.rs"), FileChangeKind::Added),
        ],
    ));
    replay.push_commit_event(CommitEvent::new(
        CommitId::new("second"),
        Contributor::human("Ada"),
        vec![FileChange::new(RepositoryEntity::new("d.rs"), FileChangeKind::Added)],
    ));
    let configuration =
        RenderConfiguration::default().with_frames_per_second(FramesPerSecond::new(30));
    let scene = RepositoryGraphScene::from_replay(&replay, &configuration);

    // 30 fps: each File Change starts 10 frames after the one before it and
    // stays lit for 15 frames; the second commit starts at frame 30.
    assert_eq!(scene.active_file_ids(0), vec!["a.rs".to_owned()]);
    assert_eq!(scene.active_file_ids(10), vec!["a.rs".to_owned(), "b.rs".to_owned()]);
    assert_eq!(scene.active_file_ids(16), vec!["b.rs".to_owned()]);
    assert_eq!(scene.active_file_ids(20), vec!["b.rs".to_owned(), "c.rs".to_owned()]);
    assert_eq!(scene.active_file_ids(30), vec!["c.rs".to_owned(), "d.rs".to_owned()]);
    assert_eq!(scene.active_file_ids(36), vec!["d.rs".to_owned()]);
    assert!(scene.active_file_ids(46).is_empty());

    let plan = RenderPlan::new(replay, configuration);
    assert_eq!(render_frame_count(&plan).map(FrameCount::get), Some(31));
}

#[test]
fn readback_rows_are_padded_to_the_copy_alignment_and_unpadded_again() {
    assert_eq!(padded_bytes_per_row(96 * 4, 256), 512);
    assert_eq!(padded_bytes_per_row(256, 256), 256);
    assert_eq!(padded_bytes_per_row(0, 256), 0);
    assert_eq!(padded_bytes_per_row(u32::MAX, 256), 4_294_967_296);

    let mapped: Vec<u8> = (0u8..12).collect();
    assert_eq!(unpadded_rows(&mapped, 4, 3, 3), vec![0, 1, 2, 4, 5, 6, 8, 9, 10]);
    assert_eq!(unpadded_rows(&mapped, 6, 2, 2), vec![0, 1, 6, 7]);
    assert!(unpadded_rows(&mapped, 4, 3, 0).is_empty());
}
