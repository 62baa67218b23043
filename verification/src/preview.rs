//! Interactive Preview planning: the window a preview asks for, how it
//! watches its Render Configuration, how keys move playback, and how
//! rendered pixels reach the window.

use vstd::prelude::*;

use crate::config::RenderConfiguration;
use crate::render::{RenderPlan, RendererSettings};
use crate::text::{concat, owned, push_text};

verus! {

/// User-visible source for a Preview Render Configuration.
#[derive(Debug, Clone, PartialEq, Eq)]
pub enum PreviewConfigurationSource {
    /// Preview uses the default Render Configuration.
    Defaults,
    /// Preview was initialized from a Render Configuration file.
    File(String),
}

/// The status label of a configuration source.
pub open spec fn source_label(source: PreviewConfigurationSource) -> Seq<char> {
    match source {
        PreviewConfigurationSource::Defaults => "defaults"@,
        PreviewConfigurationSource::File(path) => path@,
    }
}

impl PreviewConfigurationSource {
    /// Returns the source label used in status output: `defaults`, or the
    /// file's path.
    pub fn label(&self) -> (r: String)
        ensures
            r@ == source_label(*self),
    {
        match self {
            PreviewConfigurationSource::Defaults => owned("defaults"),
            PreviewConfigurationSource::File(path) => path.clone(),
        }
    }

    /// Returns the config file path when hot reload can observe one.
    pub fn file_path(&self) -> (r: Option<&str>)
        ensures
            r is Some == self is File,
            r matches Some(p) ==> p@ == self->File_0@,
    {
        match self {
            PreviewConfigurationSource::Defaults => None,
            PreviewConfigurationSource::File(path) => Some(path.as_str()),
        }
    }
}

/// Explicit preview reload policy.
#[derive(Debug, Clone, Copy, PartialEq, Eq)]
pub enum PreviewReloadPolicy {
    /// Check config file metadata and reload changed files during preview.
    ConfigFileMetadata,
    /// Do not reload configuration during preview.
    Disabled,
}

impl PreviewReloadPolicy {
    /// Returns true when preview should watch a config file.
    pub fn watches_config_file(self) -> (r: bool)
        ensures
            r == (self is ConfigFileMetadata),
    {
        match self {
            PreviewReloadPolicy::ConfigFileMetadata => true,
            PreviewReloadPolicy::Disabled => false,
        }
    }
}

/// Minimal window request derived from the shared Render Configuration.
#[derive(Debug, Clone, PartialEq, Eq)]
pub struct PreviewWindowPlan {
    title: String,
    width: u32,
    height: u32,
}

impl View for PreviewWindowPlan {
    type V = (Seq<char>, u32, u32);

    closed spec fn view(&self) -> (Seq<char>, u32, u32) {
        (self.title@, self.width, self.height)
    }
}

impl PreviewWindowPlan {
    /// Creates a preview window plan.
    pub fn new(title: &str, width: u32, height: u32) -> (r: Self)
        ensures
            r@ == (title@, width, height),
    {
        PreviewWindowPlan { title: owned(title), width, height }
    }

    /// Returns the window title.
    pub fn title(&self) -> (r: &str)
        ensures
            r@ == self@.0,
    {
        self.title.as_str()
    }

    /// Returns the requested window width.
    pub fn width(&self) -> (r: u32)
        ensures
            r == self@.1,
    {
        self.width
    }

    /// Returns the requested window height.
    pub fn height(&self) -> (r: u32)
        ensures
            r == self@.2,
    {
        self.height
    }

    /// A copy of this plan.
    pub fn duplicate(&self) -> (r: Self)
        ensures
            r@ == self@,
    {
        PreviewWindowPlan { title: self.title.clone(), width: self.width, height: self.height }
    }
}

/// Complete immutable plan for one preview session.
#[derive(Debug, Clone, PartialEq, Eq)]
pub struct PreviewSessionPlan {
    render_plan: RenderPlan,
    configuration_source: PreviewConfigurationSource,
    reload_policy: PreviewReloadPolicy,
    window: PreviewWindowPlan,
}

/// What a preview session plan says.
pub struct PreviewSessionPlanView {
    pub render_plan: (crate::domain::RepositoryReplayView, crate::config::RenderConfigurationView),
    pub configuration_source: PreviewConfigurationSource,
    pub reload_policy: PreviewReloadPolicy,
    pub window: (Seq<char>, u32, u32),
}

impl View for PreviewSessionPlan {
    type V = PreviewSessionPlanView;

    closed spec fn view(&self) -> PreviewSessionPlanView {
        PreviewSessionPlanView {
            render_plan: self.render_plan@,
            configuration_source: self.configuration_source,
            reload_policy: self.reload_policy,
            window: self.window@,
        }
    }
}

impl PreviewSessionPlan {
    /// Creates a Preview Session Plan from the shared renderer input: the
    /// window is titled after the Mainline and sized like the frames.
    pub fn new(
        render_plan: RenderPlan,
        configuration_source: PreviewConfigurationSource,
        reload_policy: PreviewReloadPolicy,
    ) -> (r: Self)
        ensures
            r@ == (PreviewSessionPlanView {
                render_plan: render_plan@,
                configuration_source,
                reload_policy,
                window: (
                    "Gitflux Preview - "@ + render_plan@.0.mainline,
                    render_plan@.1.frame_size.0,
                    render_plan@.1.frame_size.1,
                ),
            }),
    {
        let frame_size = render_plan.configuration().frame_size();
        let title = concat("Gitflux Preview - ", render_plan.replay().mainline().as_str());
        let window = PreviewWindowPlan::new(title.as_str(), frame_size.width(), frame_size.height());
        PreviewSessionPlan { render_plan, configuration_source, reload_policy, window }
    }

    /// Returns the shared renderer plan.
    pub fn render_plan(&self) -> (r: &RenderPlan)
        ensures
            r@ == self@.render_plan,
    {
        &self.render_plan
    }

    /// Returns the Render Configuration source.
    pub fn configuration_source(&self) -> (r: &PreviewConfigurationSource)
        ensures
            *r == self@.configuration_source,
    {
        &self.configuration_source
    }

    /// Returns the preview reload policy.
    pub fn reload_policy(&self) -> (r: PreviewReloadPolicy)
        ensures
            r == self@.reload_policy,
    {
        self.reload_policy
    }

    /// Returns the window plan.
    pub fn window(&self) -> (r: &PreviewWindowPlan)
        ensures
            r@ == self@.window,
    {
        &self.window
    }

    /// The config file a watcher should observe: the source file, when the
    /// policy watches one and the source is a file.
    pub fn config_watcher_path(&self) -> (r: Option<&str>)
        ensures
            r is Some == (self@.reload_policy is ConfigFileMetadata && self@.configuration_source is File),
            r matches Some(p) ==> p@ == self@.configuration_source->File_0@,
    {
        if !self.reload_policy.watches_config_file() {
            return None;
        }
        self.configuration_source.file_path()
    }

    /// The plan's config watcher: none when the plan watches no file;
    /// otherwise a watcher of its file from the file's metadata as read
    /// (`metadata`), or the failure to read it.
    pub fn config_watcher(&self, metadata: Option<Result<ConfigFileSnapshot, String>>) -> (r: Result<
        Option<ConfigFileWatcher>,
        PreviewError,
    >)
        requires
            metadata is Some == (self@.reload_policy is ConfigFileMetadata && self@.configuration_source is File),
        ensures
            match metadata {
                None => r matches Ok(None),
                Some(Err(e)) => r matches Err(PreviewError::ReadConfiguration { path, source }) && path@
                    == self@.configuration_source->File_0@ && source@ == e@,
                Some(Ok(s)) => r matches Ok(Some(w)) && w@ == (self@.configuration_source->File_0@, s@),
            },
    {
        match self.config_watcher_path() {
            None => Ok(None),
            Some(path) => match metadata {
                Some(Ok(s)) => Ok(Some(ConfigFileWatcher::new(path, s))),
                Some(Err(e)) => Err(PreviewError::ReadConfiguration { path: owned(path), source: e }),
                None => Ok(None),
            },
        }
    }
}

/// The metadata of a config file that a watcher compares: its modification
/// time, when the platform reports one, and its length.
#[derive(Debug, Clone, Copy, PartialEq, Eq)]
pub struct ConfigFileSnapshot {
    modified: Option<(u64, u32)>,
    len: u64,
}

impl View for ConfigFileSnapshot {
    type V = (Option<(u64, u32)>, u64);

    closed spec fn view(&self) -> (Option<(u64, u32)>, u64) {
        (self.modified, self.len)
    }
}

impl ConfigFileSnapshot {
    /// Records a file's modification time (seconds and nanoseconds since
    /// the epoch) and length.
    pub fn new(modified: Option<(u64, u32)>, len: u64) -> (r: Self)
        ensures
            r@ == (modified, len),
    {
        ConfigFileSnapshot { modified, len }
    }

    /// Whether two snapshots record the same metadata.
    pub fn same_as(&self, other: &ConfigFileSnapshot) -> (r: bool)
        ensures
            r == (self@ == other@),
    {
        let same_time = match (self.modified, other.modified) {
            (None, None) => true,
            (Some(a), Some(b)) => a.0 == b.0 && a.1 == b.1,
            _ => false,
        };
        same_time && self.len == other.len
    }
}

/// A changed Render Configuration loaded during preview.
#[derive(Debug, Clone, PartialEq, Eq)]
pub struct PreviewConfigurationReload {
    path: String,
    configuration: RenderConfiguration,
}

impl View for PreviewConfigurationReload {
    type V = (Seq<char>, crate::config::RenderConfigurationView);

    closed spec fn view(&self) -> (Seq<char>, crate::config::RenderConfigurationView) {
        (self.path@, self.configuration@)
    }
}

impl PreviewConfigurationReload {
    /// Returns the reloaded path.
    pub fn path(&self) -> (r: &str)
        ensures
            r@ == self@.0,
    {
        self.path.as_str()
    }

    /// Returns the reloaded Render Configuration.
    pub fn configuration(&self) -> (r: &RenderConfiguration)
        ensures
            r@ == self@.1,
    {
        &self.configuration
    }
}

/// Metadata-based watcher for preview config hot reload: it remembers the
/// metadata of the configuration it last loaded.
#[derive(Debug, Clone, PartialEq, Eq)]
pub struct ConfigFileWatcher {
    path: String,
    observed: ConfigFileSnapshot,
}

impl View for ConfigFileWatcher {
    type V = (Seq<char>, (Option<(u64, u32)>, u64));

    closed spec fn view(&self) -> (Seq<char>, (Option<(u64, u32)>, u64)) {
        (self.path@, self.observed@)
    }
}

impl ConfigFileWatcher {
    /// Creates a watcher of `path` from its current metadata.
    pub fn new(path: &str, observed: ConfigFileSnapshot) -> (r: Self)
        ensures
            r@ == (path@, observed@),
    {
        ConfigFileWatcher { path: owned(path), observed }
    }

    /// Returns the watched path.
    pub fn path(&self) -> (r: &str)
        ensures
            r@ == self@.0,
    {
        self.path.as_str()
    }

    /// Whether the file's current metadata differs from what was loaded.
    pub fn is_changed(&self, current: &ConfigFileSnapshot) -> (r: bool)
        ensures
            r == (current@ != self@.1),
    {
        !self.observed.same_as(current)
    }

    /// Reloads the watched configuration when the file's metadata has
    /// changed: `current` is the metadata as read, and `contents` the file's
    /// text as read, which is only consulted when the metadata changed. A
    /// read failure or a refused text leaves the watcher as it was.
    pub fn reload_if_changed(
        &mut self,
        current: Result<ConfigFileSnapshot, String>,
        contents: Option<Result<String, String>>,
    ) -> (r: Result<Option<PreviewConfigurationReload>, PreviewError>)
        requires
            current matches Ok(s) && s@ != old(self)@.1 ==> contents is Some,
            contents matches Some(Ok(t)) ==> t@.len() < usize::MAX,
        ensures
            match current {
                Err(e) => r matches Err(PreviewError::ReadConfiguration { path, source }) && path@ == old(self)@.0
                    && source@ == e@ && final(self)@ == old(self)@,
                Ok(s) => if s@ == old(self)@.1 {
                    r matches Ok(None) && final(self)@ == old(self)@
                } else {
                    match contents {
                        Some(Err(e)) => r matches Err(PreviewError::ReadConfiguration { path, source }) && path@
                            == old(self)@.0 && source@ == e@ && final(self)@ == old(self)@,
                        Some(Ok(t)) => match crate::config_text::read_configuration(t@) {
                            crate::config_text::ReadOutcome::Parsed(items) => {
                                &&& r matches Ok(Some(reload))
                                &&& reload@.0 == old(self)@.0
                                &&& crate::config_text::configuration_of(items, reload@.1)
                                &&& final(self)@ == (old(self)@.0, s@)
                            },
                            _ => {
                                &&& r matches Err(PreviewError::LoadConfiguration { path, source })
                                &&& path@ == old(self)@.0
                                &&& source@ == crate::config_text::refusal_message(t@)
                                &&& final(self)@ == old(self)@
                            },
                        },
                        None => false,
                    }
                },
            },
    {
        let snapshot = match current {
            Err(e) => {
                return Err(PreviewError::ReadConfiguration { path: self.path.clone(), source: e });
            },
            Ok(s) => s,
        };
        if !self.is_changed(&snapshot) {
            return Ok(None);
        }
        let text = match contents {
            Some(Ok(t)) => t,
            Some(Err(e)) => {
                return Err(PreviewError::ReadConfiguration { path: self.path.clone(), source: e });
            },
            None => {
                return Ok(None);
            },
        };
        match RenderConfiguration::from_toml_str(text.as_str()) {
            Ok(configuration) => Ok(Some(self.accept_reload(snapshot, configuration))),
            Err(error) => {
                let source = error.message();
                Err(PreviewError::LoadConfiguration { path: self.path.clone(), source })
            },
        }
    }

    /// Records a successful reload: the watcher now remembers `current`, and
    /// the reload carries the watched path and the new configuration.
    pub fn accept_reload(&mut self, current: ConfigFileSnapshot, configuration: RenderConfiguration) -> (r: PreviewConfigurationReload)
        ensures
            final(self)@ == (old(self)@.0, current@),
            r@ == (old(self)@.0, configuration@),
    {
        self.observed = current;
        PreviewConfigurationReload { path: self.path.clone(), configuration }
    }
}

/// Typed preview window status.
#[derive(Debug, Clone, PartialEq, Eq)]
pub enum PreviewWindowStatus {
    /// A native preview adapter opened a window.
    Opened,
    /// A headless-friendly adapter produced the exact window plan.
    Planned(PreviewWindowPlan),
}

/// Typed hot reload watch status.
#[derive(Debug, Clone, Copy, PartialEq, Eq)]
pub enum PreviewReloadWatch {
    /// Preview is watching the Render Configuration file.
    WatchingConfigFile,
    /// Preview has no config file to watch.
    NoConfigFile,
    /// Preview reload was disabled.
    Disabled,
}

/// The reload watch status of a plan.
pub open spec fn reload_watch_of(plan: PreviewSessionPlanView) -> PreviewReloadWatch {
    match plan.reload_policy {
        PreviewReloadPolicy::Disabled => PreviewReloadWatch::Disabled,
        PreviewReloadPolicy::ConfigFileMetadata => if plan.configuration_source is File {
            PreviewReloadWatch::WatchingConfigFile
        } else {
            PreviewReloadWatch::NoConfigFile
        },
    }
}

/// The reload watch status of a plan: disabled by policy, or watching its
/// config file when it has one.
pub fn reload_watch_for_plan(plan: &PreviewSessionPlan) -> (r: PreviewReloadWatch)
    ensures
        r == reload_watch_of(plan@),
{
    match plan.reload_policy() {
        PreviewReloadPolicy::Disabled => PreviewReloadWatch::Disabled,
        PreviewReloadPolicy::ConfigFileMetadata => {
            if plan.configuration_source().file_path().is_some() {
                PreviewReloadWatch::WatchingConfigFile
            } else {
                PreviewReloadWatch::NoConfigFile
            }
        },
    }
}

/// Result of asking the preview adapter to open/render.
#[derive(Debug, Clone, PartialEq, Eq)]
pub struct PreviewRunSummary {
    window_status: PreviewWindowStatus,
    window: PreviewWindowPlan,
    rendered_initial_frame: bool,
    reload_watch: PreviewReloadWatch,
}

impl View for PreviewRunSummary {
    type V = (PreviewWindowStatus, (Seq<char>, u32, u32), bool, PreviewReloadWatch);

    closed spec fn view(&self) -> (PreviewWindowStatus, (Seq<char>, u32, u32), bool, PreviewReloadWatch) {
        (self.window_status, self.window@, self.rendered_initial_frame, self.reload_watch)
    }
}

impl PreviewRunSummary {
    /// Creates a preview run summary.
    pub fn new(
        window_status: PreviewWindowStatus,
        window: PreviewWindowPlan,
        rendered_initial_frame: bool,
        reload_watch: PreviewReloadWatch,
    ) -> (r: Self)
        ensures
            r@ == (window_status, window@, rendered_initial_frame, reload_watch),
    {
        PreviewRunSummary { window_status, window, rendered_initial_frame, reload_watch }
    }

    /// Returns the window status.
    pub fn window_status(&self) -> (r: &PreviewWindowStatus)
        ensures
            *r == self@.0,
    {
        &self.window_status
    }

    /// Returns the window dimensions represented by this run summary.
    pub fn window(&self) -> (r: &PreviewWindowPlan)
        ensures
            r@ == self@.1,
    {
        &self.window
    }

    /// Returns true when preview exercised the shared renderer path.
    pub fn rendered_initial_frame(&self) -> (r: bool)
        ensures
            r == self@.2,
    {
        self.rendered_initial_frame
    }

    /// Returns the reload watch status.
    pub fn reload_watch(&self) -> (r: PreviewReloadWatch)
        ensures
            r == self@.3,
    {
        self.reload_watch
    }
}

/// Preview orchestration failure modes.
#[derive(Debug, Clone, PartialEq, Eq)]
pub enum PreviewError {
    /// Config metadata or contents could not be read.
    ReadConfiguration {
        /// Configuration path.
        path: String,
        /// Why it could not be read.
        source: String,
    },
    /// Config contents failed Render Configuration validation.
    LoadConfiguration {
        /// Configuration path.
        path: String,
        /// Validation diagnostics.
        source: String,
    },
    /// Shared renderer failed during preview.
    Render(String),
    /// Native preview window could not be opened.
    WindowOpen(String),
    /// Native preview window could not be updated.
    WindowUpdate(String),
}

/// The message of a preview failure.
pub open spec fn preview_error_message(e: PreviewError) -> Seq<char> {
    match e {
        PreviewError::ReadConfiguration { path, source } => "failed to read Preview Render Configuration "@
            + path@ + ": "@ + source@,
        PreviewError::LoadConfiguration { path, source } => "failed to reload Preview Render Configuration "@
            + path@ + ":\n"@ + source@,
        PreviewError::Render(source) => "failed to render Preview frame: "@ + source@,
        PreviewError::WindowOpen(source) => "failed to open Preview window: "@ + source@,
        PreviewError::WindowUpdate(source) => "failed to update Preview window: "@ + source@,
    }
}

impl PreviewError {
    /// Describes the failure for the user.
    pub fn message(&self) -> (r: String)
        ensures
            r@ == preview_error_message(*self),
    {
        match self {
            PreviewError::ReadConfiguration { path, source } => {
                let mut s = owned("failed to read Preview Render Configuration ");
                push_text(&mut s, path.as_str());
                push_text(&mut s, ": ");
                push_text(&mut s, source.as_str());
                s
            },
            PreviewError::LoadConfiguration { path, source } => {
                let mut s = owned("failed to reload Preview Render Configuration ");
                push_text(&mut s, path.as_str());
                push_text(&mut s, ":\n");
                push_text(&mut s, source.as_str());
                s
            },
            PreviewError::Render(source) => concat("failed to render Preview frame: ", source.as_str()),
            PreviewError::WindowOpen(source) => concat("failed to open Preview window: ", source.as_str()),
            PreviewError::WindowUpdate(source) => concat("failed to update Preview window: ", source.as_str()),
        }
    }
}

/// Headless-friendly adapter that validates the session plan only.
#[derive(Debug, Default)]
pub struct PlanningPreviewWindowAdapter;

impl PlanningPreviewWindowAdapter {
    /// Reports the plan's window without rendering anything.
    pub fn run(&mut self, plan: &PreviewSessionPlan) -> (r: Result<PreviewRunSummary, PreviewError>)
        ensures
            r matches Ok(s) && s@.0 == PreviewWindowStatus::Planned(s@.0->Planned_0) && s@.0->Planned_0@
                == plan@.window && s@.1 == plan@.window && !s@.2 && s@.3 == reload_watch_of(plan@),
    {
        Ok(
            PreviewRunSummary::new(
                PreviewWindowStatus::Planned(plan.window().duplicate()),
                plan.window().duplicate(),
                false,
                reload_watch_for_plan(plan),
            ),
        )
    }
}

/// Minimal renderer-backed adapter: renders the first frame through the
/// shared renderer and reports the planned window.
#[derive(Debug, Default)]
pub struct SharedRendererPreviewAdapter {
    settings: RendererSettings,
}

impl View for SharedRendererPreviewAdapter {
    type V = crate::render::GpuPowerPreference;

    closed spec fn view(&self) -> crate::render::GpuPowerPreference {
        self.settings@
    }
}

impl SharedRendererPreviewAdapter {
    /// Creates an adapter with renderer settings.
    pub fn new(settings: RendererSettings) -> (r: Self)
        ensures
            r@ == settings@,
    {
        SharedRendererPreviewAdapter { settings }
    }

    /// Returns the renderer settings.
    pub fn settings(&self) -> (r: RendererSettings)
        ensures
            r@ == self@,
    {
        self.settings
    }
}

/// The last frame a native preview plays to.
pub const NATIVE_PREVIEW_MAX_FRAME_INDEX: u64 = 600;

/// Native window adapter backed by the shared offscreen renderer.
#[derive(Debug)]
pub struct NativePreviewWindowAdapter {
    settings: RendererSettings,
    max_frame_index: u64,
}

impl View for NativePreviewWindowAdapter {
    type V = (crate::render::GpuPowerPreference, u64);

    closed spec fn view(&self) -> (crate::render::GpuPowerPreference, u64) {
        (self.settings@, self.max_frame_index)
    }
}

impl NativePreviewWindowAdapter {
    /// Creates a native preview adapter that plays up to frame 600.
    pub fn new(settings: RendererSettings) -> (r: Self)
        ensures
            r@ == (settings@, NATIVE_PREVIEW_MAX_FRAME_INDEX),
    {
        NativePreviewWindowAdapter { settings, max_frame_index: NATIVE_PREVIEW_MAX_FRAME_INDEX }
    }

    /// Returns the renderer settings.
    pub fn settings(&self) -> (r: RendererSettings)
        ensures
            r@ == self@.0,
    {
        self.settings
    }

    /// Returns the last frame the preview plays to.
    pub fn max_frame_index(&self) -> (r: u64)
        ensures
            r == self@.1,
    {
        self.max_frame_index
    }
}

impl Default for NativePreviewWindowAdapter {
    /// Default renderer settings, playing up to frame 600.
    fn default() -> (r: Self)
        ensures
            r@ == (crate::render::GpuPowerPreference::LowPower, NATIVE_PREVIEW_MAX_FRAME_INDEX),
    {
        NativePreviewWindowAdapter::new(RendererSettings::default())
    }
}

/// The keys a preview reads once per window update.
#[derive(Debug, Clone, Copy, PartialEq, Eq)]
pub struct PreviewKeys {
    /// Space was pressed: toggle playing.
    pub toggle_play: bool,
    /// Right was pressed or is repeating: step forward.
    pub step_forward: bool,
    /// Left was pressed or is repeating: step back.
    pub step_back: bool,
}

/// Playback state of a native preview: the shown frame and whether it plays.
#[derive(Debug, Clone, Copy, PartialEq, Eq)]
pub struct PreviewPlayback {
    frame_index: u64,
    playing: bool,
    max_frame_index: u64,
}

impl View for PreviewPlayback {
    type V = (u64, bool, u64);

    closed spec fn view(&self) -> (u64, bool, u64) {
        (self.frame_index, self.playing, self.max_frame_index)
    }
}

/// The playback after one update with `keys`, and whether the frame must
/// be rendered again.
pub open spec fn playback_step(state: (u64, bool, u64), keys: PreviewKeys) -> ((u64, bool, u64), bool) {
    let playing = if keys.toggle_play {
        !state.1
    } else {
        state.1
    };
    let forward = keys.step_forward || playing;
    let after_forward: int = if forward {
        if state.0 + 1 < state.2 {
            state.0 + 1
        } else {
            state.2 as int
        }
    } else {
        state.0 as int
    };
    let after_back: int = if keys.step_back {
        if after_forward > 0 {
            after_forward - 1
        } else {
            0
        }
    } else {
        after_forward
    };
    ((after_back as u64, playing, state.2), forward || keys.step_back)
}

impl PreviewPlayback {
    /// Paused at frame 0.
    pub fn new(max_frame_index: u64) -> (r: Self)
        ensures
            r@ == (0u64, false, max_frame_index),
    {
        PreviewPlayback { frame_index: 0, playing: false, max_frame_index }
    }

    /// Returns the shown frame.
    pub fn frame_index(&self) -> (r: u64)
        ensures
            r == self@.0,
    {
        self.frame_index
    }

    /// Returns whether playback advances by itself.
    pub fn playing(&self) -> (r: bool)
        ensures
            r == self@.1,
    {
        self.playing
    }

    /// Applies one update's keys: Space toggles playing; Right, or playing,
    /// steps forward up to the last frame; Left steps back down to frame 0.
    /// Returns whether the frame must be rendered again.
    pub fn advance(&mut self, keys: PreviewKeys) -> (needs_render: bool)
        ensures
            (final(self)@, needs_render) == playback_step(old(self)@, keys),
    {
        if keys.toggle_play {
            self.playing = !self.playing;
        }
        let mut needs_render = false;
        if keys.step_forward || self.playing {
            self.frame_index = if self.frame_index < self.max_frame_index {
                self.frame_index + 1
            } else {
                self.max_frame_index
            };
            needs_render = true;
        }
        if keys.step_back {
            self.frame_index = if self.frame_index > 0 {
                self.frame_index - 1
            } else {
                0
            };
            needs_render = true;
        }
        needs_render
    }
}

/// Whether the frame must still be rendered after a window update: a
/// configuration reload renders the current frame itself, so the render the
/// keys asked for is dropped.
pub fn render_pending(keys_need_render: bool, reloaded: bool) -> (r: bool)
    ensures
        r == (keys_need_render && !reloaded),
{
    keys_need_render && !reloaded
}

/// Whether the preview window must be opened anew to show a frame: when its
/// size differs from the frame's.
pub fn window_needs_reopen(window_size: (usize, usize), frame_width: usize, frame_height: usize) -> (r: bool)
    ensures
        r == (window_size.0 != frame_width || window_size.1 != frame_height),
{
    window_size.0 != frame_width || window_size.1 != frame_height
}

/// The packed `0RGB` window pixel of an RGBA pixel; alpha is dropped.
pub open spec fn window_pixel(red: u8, green: u8, blue: u8) -> u32 {
    (red * 65536 + green * 256 + blue) as u32
}

/// Converts tightly packed RGBA8 pixels to window pixels, one per whole
/// four-byte group; trailing bytes that do not make a pixel are ignored.
pub fn rgba_to_minifb_pixels(rgba: &[u8]) -> (r: Vec<u32>)
    ensures
        r@.len() == rgba@.len() / 4,
        forall|k: int|
            0 <= k < r@.len() ==> #[trigger] r@[k] == window_pixel(rgba@[4 * k], rgba@[4 * k + 1], rgba@[4 * k + 2]),
{
    let n = rgba.len() / 4;
    let mut r: Vec<u32> = Vec::new();
    let mut k: usize = 0;
    while k < n
        invariant
            n == rgba@.len() / 4,
            n == rgba.len() / 4,
            k <= n,
            r@.len() == k,
            forall|j: int|
                0 <= j < k ==> #[trigger] r@[j] == window_pixel(rgba@[4 * j], rgba@[4 * j + 1], rgba@[4 * j + 2]),
        decreases n - k,
    {
        let total = rgba.len();
        assert(4 * k + 4 <= total) by (nonlinear_arith)
            requires
                k < n,
                n == total / 4,
        ;
        let base = 4 * k;
        let pixel = (rgba[base] as u32) * 65536 + (rgba[base + 1] as u32) * 256 + (rgba[base + 2] as u32);
        r.push(pixel);
        k = k + 1;
    }
    r
}

/// Playback never leaves the frames it may show: from a frame at most the
/// last one, any keys lead to a frame at most the last one.
pub proof fn lemma_playback_stays_in_range(state: (u64, bool, u64), keys: PreviewKeys)
    requires
        state.0 <= state.2,
    ensures
        playback_step(state, keys).0.0 <= state.2,
        playback_step(state, keys).0.2 == state.2,
{
}

/// A watcher that has accepted a reload of `current` does not report that
/// same metadata as a change again.
pub proof fn lemma_accepted_metadata_is_unchanged(
    before: (Seq<char>, (Option<(u64, u32)>, u64)),
    after: (Seq<char>, (Option<(u64, u32)>, u64)),
    current: (Option<(u64, u32)>, u64),
)
    requires
        after == (before.0, current),
    ensures
        !(current != after.1),
        after.0 == before.0,
{
}

} // verus!
