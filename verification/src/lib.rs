//! Deterministic replay, scene, render and export planning for Gitflux.

mod cli;
mod config;
mod config_text;
mod diagnostics;
mod digest;
mod domain;
mod export;
mod graph;
mod ingestion;
mod paths;
mod preview;
mod render;
mod scene;
mod text;

pub use cli::{
    check_repository_path, config_hash, help_text, load_render_configuration, parse_diagnostics_args, parse_preview_args, parse_render_args,
    preview_human_summary, preview_reload_label, preview_window_status_label, render_configuration_label,
    render_human_summary, render_phase_label, run, version_text, RenderPhase,
    CliRequest, CommandKind, DiagnosticsArgs, MainlineSelection, PreviewArgs, RenderArgs,
};
pub use config::{
    EntityCountThreshold, EntitySpacing, ExplicitPathFilter, FrameSize, FramesPerSecond, HexColor,
    Layout, LevelOfDetailPolicy, RenderConfiguration, RepositoryGraphLayout, SettleIterations,
    Theme, VisualMetaphor,
};
pub use config_text::RenderConfigurationError;
pub use diagnostics::{
    cache_diagnostic, cache_location, diagnostic_inputs_key, diagnostics_human_summary,
    ffmpeg_diagnostic, gpu_diagnostic, readiness_label, ref_diagnostic, CacheDiagnostic,
    DiagnosticsReport, FfmpegDiagnostic, FfmpegProbe, GpuDiagnostic, RefDiagnostic, RefFacts,
    DIAGNOSTICS_SCHEMA_VERSION,
};
pub use domain::{
    BranchFlow, CommitEvent, CommitEvidence, CommitId, CommitSubject, CompetingChange,
    CompetingChangeConfidence, CompetingChangeEvidence, CompetingChangeSource, Contributor,
    ContributorEvidence, ContributorKind, FileChange, FileChangeKind, GitTimestamp, Mainline,
    MergeSettlement, RepositoryEntity, RepositoryReplay,
};
pub use export::{
    export_command_plan, export_frame_output, ffmpeg_input_pattern, output_file_outcome,
    scaffold_export_manifest, ExportError, ExportManifest, FfmpegBinary, FfmpegCommandPlan,
    FfmpegLaunch, OutputPreset, VideoEncoder, VideoExportOptions, VideoExportRequest,
};
pub use graph::{
    render_frame_count, RepositoryGraphScene, SceneContributor, SceneDirectory, SceneExplicitPathFilter, SceneFile,
};
pub use ingestion::{
    commit_event_from_record, file_change_from_delta, ingest_repository, missing_mainline_error,
    scaffold_repository_replay, CommitRecord, DeltaRecord, DeltaStatus, RepositoryIngestionError,
    RepositoryIngestionRequest, RepositoryIngestionSummary, SignatureRecord,
};
pub use paths::{join, parent_directory_path};
pub use preview::{
    reload_watch_for_plan, render_pending, rgba_to_minifb_pixels, window_needs_reopen, ConfigFileSnapshot, ConfigFileWatcher,
    NativePreviewWindowAdapter, PlanningPreviewWindowAdapter, PreviewConfigurationReload,
    PreviewConfigurationSource, PreviewError, PreviewKeys, PreviewPlayback, PreviewReloadPolicy,
    PreviewReloadWatch, PreviewRunSummary, PreviewSessionPlan, PreviewWindowPlan,
    PreviewWindowStatus, SharedRendererPreviewAdapter, NATIVE_PREVIEW_MAX_FRAME_INDEX,
};
pub use render::{
    frame_sequence_indices, padded_bytes_per_row, planned_capabilities, unpadded_rows, FrameCount, FrameFileStem, FrameIndex,
    FrameSequenceIndexPair, FrameSequenceManifest, FrameSequenceOutput, GpuPowerPreference,
    RenderFrameSize, RenderPlan, RenderedFrame, RendererCapability, RendererSettings,
};
pub use scene::{
    CommitSceneId, ContributorSceneId, DirectorySceneId, FileSceneId, MotionState, SceneActivity,
    SceneBranchActivity, SceneCompetingChange, SceneCompetingChangeEvidence, SceneEmphasis,
    SceneFileChange, SceneFrameSize, SceneMergeSettlement, ScenePosition, VisualSummary,
    VisualSummarySceneId, VisualSummaryWeight,
};
pub use text::{
    chars_of, decimal_text, signed_decimal_text, string_from_chars, zero_padded_text,
};
