//! Render Configuration: frame size and rate, theme, layout, Level of
//! Detail policy and the explicit path filter applied before scene
//! construction.

use vstd::prelude::*;

use crate::domain::{FileChange, FileChangeView, RepositoryEntity};
use crate::text::{chars_of, owned};

verus! {

/// Output frame dimensions in pixels.
#[derive(Debug, Clone, Copy, PartialEq, Eq)]
pub struct FrameSize {
    width: u32,
    height: u32,
}

impl View for FrameSize {
    type V = (u32, u32);

    closed spec fn view(&self) -> (u32, u32) {
        (self.width, self.height)
    }
}

impl FrameSize {
    /// Creates frame dimensions.
    pub fn new(width: u32, height: u32) -> (r: Self)
        ensures
            r@ == (width, height),
    {
        FrameSize { width, height }
    }

    /// Returns the frame width in pixels.
    pub fn width(self) -> (r: u32)
        ensures
            r == self@.0,
    {
        self.width
    }

    /// Returns the frame height in pixels.
    pub fn height(self) -> (r: u32)
        ensures
            r == self@.1,
    {
        self.height
    }
}

/// Render frame rate.
#[derive(Debug, Clone, Copy, PartialEq, Eq)]
pub struct FramesPerSecond(u32);

impl FramesPerSecond {
    pub closed spec fn value(self) -> u32 {
        self.0
    }

    /// Creates a frame rate.
    pub fn new(value: u32) -> (r: Self)
        ensures
            r.value() == value,
    {
        FramesPerSecond(value)
    }

    /// Returns the frames per second.
    pub fn get(self) -> (r: u32)
        ensures
            r == self.value(),
    {
        self.0
    }
}

/// Distance between neighbouring entities in the Repository Graph layout.
#[derive(Debug, Clone, Copy, PartialEq, Eq)]
pub struct EntitySpacing(u32);

impl EntitySpacing {
    pub closed spec fn value(self) -> u32 {
        self.0
    }

    /// Creates an entity spacing.
    pub fn new(value: u32) -> (r: Self)
        ensures
            r.value() == value,
    {
        EntitySpacing(value)
    }

    /// Returns the spacing.
    pub fn get(self) -> (r: u32)
        ensures
            r == self.value(),
    {
        self.0
    }
}

/// Number of layout settling iterations.
#[derive(Debug, Clone, Copy, PartialEq, Eq)]
pub struct SettleIterations(u32);

impl SettleIterations {
    pub closed spec fn value(self) -> u32 {
        self.0
    }

    /// Creates a settle iteration count.
    pub fn new(value: u32) -> (r: Self)
        ensures
            r.value() == value,
    {
        SettleIterations(value)
    }

    /// Returns the iteration count.
    pub fn get(self) -> (r: u32)
        ensures
            r == self.value(),
    {
        self.0
    }
}

/// Number of entities at which a directory counts as dense.
#[derive(Debug, Clone, Copy, PartialEq, Eq)]
pub struct EntityCountThreshold(usize);

impl EntityCountThreshold {
    pub closed spec fn value(self) -> usize {
        self.0
    }

    /// Creates a threshold.
    pub fn new(value: usize) -> (r: Self)
        ensures
            r.value() == value,
    {
        EntityCountThreshold(value)
    }

    /// Returns the threshold.
    pub fn get(self) -> (r: usize)
        ensures
            r == self.value(),
    {
        self.0
    }
}

/// Level of Detail policy: directories with at least the threshold number of
/// files are summarized.
#[derive(Debug, Clone, Copy, PartialEq, Eq)]
pub struct LevelOfDetailPolicy {
    dense_directory_threshold: EntityCountThreshold,
}

impl LevelOfDetailPolicy {
    pub closed spec fn threshold(self) -> usize {
        self.dense_directory_threshold.value()
    }

    /// Creates a Level of Detail policy.
    pub fn new(dense_directory_threshold: EntityCountThreshold) -> (r: Self)
        ensures
            r.threshold() == dense_directory_threshold.value(),
    {
        LevelOfDetailPolicy { dense_directory_threshold }
    }

    /// Returns the dense directory threshold.
    pub fn dense_directory_threshold(self) -> (r: EntityCountThreshold)
        ensures
            r.value() == self.threshold(),
    {
        self.dense_directory_threshold
    }
}

/// A theme color written as `#RRGGBB`.
#[derive(Debug, Clone, PartialEq, Eq)]
pub struct HexColor(String);

impl View for HexColor {
    type V = Seq<char>;

    closed spec fn view(&self) -> Seq<char> {
        self.0@
    }
}

impl HexColor {
    /// Creates a color from its `#RRGGBB` text.
    pub fn new(value: &str) -> (r: Self)
        ensures
            r@ == value@,
    {
        HexColor(owned(value))
    }

    /// Returns the `#RRGGBB` text.
    pub fn as_hex(&self) -> (r: &str)
        ensures
            r@ == self@,
    {
        self.0.as_str()
    }
}

/// What a Theme holds.
pub struct ThemeView {
    pub name: Seq<char>,
    pub background_color: Seq<char>,
    pub entity_color: Seq<char>,
    pub contributor_color: Seq<char>,
}

/// A reusable presentation profile.
#[derive(Debug, Clone, PartialEq, Eq)]
pub struct Theme {
    name: String,
    background_color: HexColor,
    entity_color: HexColor,
    contributor_color: HexColor,
}

impl View for Theme {
    type V = ThemeView;

    closed spec fn view(&self) -> ThemeView {
        ThemeView {
            name: self.name@,
            background_color: self.background_color@,
            entity_color: self.entity_color@,
            contributor_color: self.contributor_color@,
        }
    }
}

impl Theme {
    /// Creates a theme with the default Gitflux colors.
    pub fn new(name: &str) -> (r: Self)
        ensures
            r@ == (ThemeView {
                name: name@,
                background_color: "#0b1020"@,
                entity_color: "#7dd3fc"@,
                contributor_color: "#facc15"@,
            }),
    {
        Theme {
            name: owned(name),
            background_color: HexColor::new("#0b1020"),
            entity_color: HexColor::new("#7dd3fc"),
            contributor_color: HexColor::new("#facc15"),
        }
    }

    /// Creates a theme with explicit colors.
    pub fn with_colors(
        name: &str,
        background_color: HexColor,
        entity_color: HexColor,
        contributor_color: HexColor,
    ) -> (r: Self)
        ensures
            r@ == (ThemeView {
                name: name@,
                background_color: background_color@,
                entity_color: entity_color@,
                contributor_color: contributor_color@,
            }),
    {
        Theme { name: owned(name), background_color, entity_color, contributor_color }
    }

    /// Returns the theme name.
    pub fn name(&self) -> (r: &str)
        ensures
            r@ == self@.name,
    {
        self.name.as_str()
    }

    /// Returns the theme name.
    pub fn as_str(&self) -> (r: &str)
        ensures
            r@ == self@.name,
    {
        self.name.as_str()
    }

    /// Returns the background color.
    pub fn background_color(&self) -> (r: &HexColor)
        ensures
            r@ == self@.background_color,
    {
        &self.background_color
    }

    /// Returns the entity color.
    pub fn entity_color(&self) -> (r: &HexColor)
        ensures
            r@ == self@.entity_color,
    {
        &self.entity_color
    }

    /// Returns the contributor color.
    pub fn contributor_color(&self) -> (r: &HexColor)
        ensures
            r@ == self@.contributor_color,
    {
        &self.contributor_color
    }
}

/// The presentation model used to depict repository entities.
#[derive(Debug, Clone, PartialEq, Eq)]
pub struct VisualMetaphor(String);

impl View for VisualMetaphor {
    type V = Seq<char>;

    closed spec fn view(&self) -> Seq<char> {
        self.0@
    }
}

impl VisualMetaphor {
    /// Creates a visual metaphor name.
    pub fn new(name: &str) -> (r: Self)
        ensures
            r@ == name@,
    {
        VisualMetaphor(owned(name))
    }

    /// Returns the metaphor name.
    pub fn as_str(&self) -> (r: &str)
        ensures
            r@ == self@,
    {
        self.0.as_str()
    }
}

/// Parameters of the Repository Graph layout.
#[derive(Debug, Clone, Copy, PartialEq, Eq)]
pub struct RepositoryGraphLayout {
    entity_spacing: EntitySpacing,
    settle_iterations: SettleIterations,
}

impl View for RepositoryGraphLayout {
    type V = (u32, u32);

    closed spec fn view(&self) -> (u32, u32) {
        (self.entity_spacing.value(), self.settle_iterations.value())
    }
}

impl RepositoryGraphLayout {
    /// Creates Repository Graph parameters.
    pub fn new(entity_spacing: EntitySpacing, settle_iterations: SettleIterations) -> (r: Self)
        ensures
            r@ == (entity_spacing.value(), settle_iterations.value()),
    {
        RepositoryGraphLayout { entity_spacing, settle_iterations }
    }

    /// Returns the entity spacing.
    pub fn entity_spacing(self) -> (r: EntitySpacing)
        ensures
            r.value() == self@.0,
    {
        self.entity_spacing
    }

    /// Returns the settle iteration count.
    pub fn settle_iterations(self) -> (r: SettleIterations)
        ensures
            r.value() == self@.1,
    {
        self.settle_iterations
    }
}

/// Spacing of the Repository Graph when no parameters are given.
pub const DEFAULT_ENTITY_SPACING: u32 = 120;

/// Settle iterations of the Repository Graph when no parameters are given.
pub const DEFAULT_SETTLE_ITERATIONS: u32 = 60;

/// A reusable spatial behaviour model.
#[derive(Debug, Clone, PartialEq, Eq)]
pub enum Layout {
    /// The Repository Graph with default parameters.
    RepositoryGraph,
    /// The Repository Graph with explicit parameters.
    RepositoryGraphWithParameters(RepositoryGraphLayout),
    /// A layout known only by name; it is arranged like the Repository Graph.
    Named(String),
}

impl Layout {
    /// Spacing used by a layout.
    pub open spec fn spacing_value(&self) -> u32 {
        match self {
            Layout::RepositoryGraphWithParameters(parameters) => parameters@.0,
            _ => DEFAULT_ENTITY_SPACING,
        }
    }

    /// Settle iterations used by a layout.
    pub open spec fn settle_value(&self) -> u32 {
        match self {
            Layout::RepositoryGraphWithParameters(parameters) => parameters@.1,
            _ => DEFAULT_SETTLE_ITERATIONS,
        }
    }

    /// Returns true for the Repository Graph layouts.
    pub fn is_repository_graph(&self) -> (r: bool)
        ensures
            r == !(self is Named),
    {
        match self {
            Layout::Named(_) => false,
            _ => true,
        }
    }

    /// Returns the entity spacing of this layout.
    pub fn entity_spacing(&self) -> (r: EntitySpacing)
        ensures
            r.value() == self.spacing_value(),
    {
        match self {
            Layout::RepositoryGraphWithParameters(parameters) => parameters.entity_spacing(),
            _ => EntitySpacing::new(DEFAULT_ENTITY_SPACING),
        }
    }

    /// Returns the settle iteration count of this layout.
    pub fn settle_iterations(&self) -> (r: SettleIterations)
        ensures
            r.value() == self.settle_value(),
    {
        match self {
            Layout::RepositoryGraphWithParameters(parameters) => parameters.settle_iterations(),
            _ => SettleIterations::new(DEFAULT_SETTLE_ITERATIONS),
        }
    }
}

/// `path` lies in the scope named by `prefix`: it is the prefix itself or a
/// path below it. The empty prefix scopes every path.
pub open spec fn path_in_scope(path: Seq<char>, prefix: Seq<char>) -> bool {
    ||| prefix.len() == 0
    ||| prefix.len() <= path.len() && path.take(prefix.len() as int) == prefix && (path.len()
        == prefix.len() || prefix.last() == '/' || path[prefix.len() as int] == '/')
}

/// A path passes a filter with these included prefixes: the filter is empty
/// or one of its prefixes scopes the path.
pub open spec fn filter_includes(included: Seq<Seq<char>>, path: Seq<char>) -> bool {
    included.len() == 0 || exists|i: int| 0 <= i < included.len() && path_in_scope(path, #[trigger] included[i])
}

/// A File Change passes a filter when its path or its previous path does.
pub open spec fn filter_includes_change(included: Seq<Seq<char>>, change: FileChangeView) -> bool {
    filter_includes(included, change.entity) || (change.previous_entity matches Some(p)
        && filter_includes(included, p))
}

/// The texts of a sequence of strings.
pub open spec fn string_texts(v: Seq<String>) -> Seq<Seq<char>> {
    v.map_values(|s: String| s@)
}

/// Explicit repository-relative path scope applied before Level of Detail.
#[derive(Debug, Clone, PartialEq, Eq)]
pub struct ExplicitPathFilter {
    included_paths: Vec<String>,
}

impl View for ExplicitPathFilter {
    type V = Seq<Seq<char>>;

    closed spec fn view(&self) -> Seq<Seq<char>> {
        string_texts(self.included_paths@)
    }
}

/// Decides `path_in_scope`.
fn in_scope(path: &Vec<char>, prefix: &Vec<char>) -> (r: bool)
    ensures
        r == path_in_scope(path@, prefix@),
{
    if prefix.len() == 0 {
        return true;
    }
    if prefix.len() > path.len() {
        return false;
    }
    for i in 0..prefix.len()
        invariant
            prefix.len() <= path.len(),
            forall|k: int| 0 <= k < i ==> path@[k] == prefix@[k],
    {
        if path[i] != prefix[i] {
            assert(path@.take(prefix.len() as int)[i as int] != prefix@[i as int]);
            return false;
        }
    }
    assert(path@.take(prefix.len() as int) =~= prefix@);
    path.len() == prefix.len() || prefix[prefix.len() - 1] == '/' || path[prefix.len()] == '/'
}

impl ExplicitPathFilter {
    /// Creates a filter from included path prefixes.
    pub fn new(included_paths: Vec<String>) -> (r: Self)
        ensures
            r@ == string_texts(included_paths@),
    {
        ExplicitPathFilter { included_paths }
    }

    /// Creates the filter that includes everything.
    pub fn all() -> (r: Self)
        ensures
            r@ == Seq::<Seq<char>>::empty(),
    {
        let r = ExplicitPathFilter { included_paths: Vec::new() };
        assert(r@ =~= Seq::<Seq<char>>::empty());
        r
    }

    /// Returns the included path prefixes.
    pub fn included_paths(&self) -> (r: &[String])
        ensures
            string_texts(r@) == self@,
    {
        self.included_paths.as_slice()
    }

    /// Returns true when the filter restricts nothing.
    pub fn is_empty(&self) -> (r: bool)
        ensures
            r == (self@.len() == 0),
    {
        self.included_paths.len() == 0
    }

    /// Decides whether a repository-relative path passes the filter.
    pub fn includes_path(&self, path: &str) -> (r: bool)
        ensures
            r == filter_includes(self@, path@),
    {
        if self.included_paths.len() == 0 {
            return true;
        }
        let p = chars_of(path);
        for i in 0..self.included_paths.len()
            invariant
                p@ == path@,
                forall|k: int| 0 <= k < i ==> !path_in_scope(path@, #[trigger] self@[k]),
        {
            let prefix = chars_of(self.included_paths[i].as_str());
            if in_scope(&p, &prefix) {
                assert(path_in_scope(path@, self@[i as int]));
                return true;
            }
        }
        false
    }

    /// Decides whether a Repository Entity passes the filter.
    pub fn includes_entity(&self, entity: &RepositoryEntity) -> (r: bool)
        ensures
            r == filter_includes(self@, entity@),
    {
        self.includes_path(entity.path().as_str())
    }

    /// Decides whether a File Change passes the filter: its entity does, or
    /// the entity it was moved from does.
    pub fn includes_file_change(&self, change: &FileChange) -> (r: bool)
        ensures
            r == filter_includes_change(self@, change@),
    {
        if self.includes_entity(change.entity()) {
            return true;
        }
        match change.previous_entity() {
            Some(previous) => self.includes_entity(previous),
            None => false,
        }
    }
}

/// What a Render Configuration holds.
pub struct RenderConfigurationView {
    pub visual_metaphor: Seq<char>,
    pub theme: ThemeView,
    pub layout: Layout,
    pub frame_size: (u32, u32),
    pub frames_per_second: u32,
    pub dense_directory_threshold: usize,
    pub included_paths: Seq<Seq<char>>,
}

/// Frame width used when none is configured.
pub const DEFAULT_FRAME_WIDTH: u32 = 1920;

/// Frame height used when none is configured.
pub const DEFAULT_FRAME_HEIGHT: u32 = 1080;

/// Frame rate used when none is configured.
pub const DEFAULT_FRAMES_PER_SECOND: u32 = 60;

/// Dense directory threshold used when none is configured.
pub const DEFAULT_DENSE_DIRECTORY_THRESHOLD: usize = 5;

/// A reusable set of parameters that defines how a replay is rendered.
#[derive(Debug, Clone, PartialEq, Eq)]
pub struct RenderConfiguration {
    visual_metaphor: VisualMetaphor,
    theme: Theme,
    layout: Layout,
    frame_size: FrameSize,
    frames_per_second: FramesPerSecond,
    level_of_detail: LevelOfDetailPolicy,
    explicit_path_filter: ExplicitPathFilter,
}

impl View for RenderConfiguration {
    type V = RenderConfigurationView;

    closed spec fn view(&self) -> RenderConfigurationView {
        RenderConfigurationView {
            visual_metaphor: self.visual_metaphor@,
            theme: self.theme@,
            layout: self.layout,
            frame_size: self.frame_size@,
            frames_per_second: self.frames_per_second.value(),
            dense_directory_threshold: self.level_of_detail.threshold(),
            included_paths: self.explicit_path_filter@,
        }
    }
}

impl RenderConfiguration {
    /// Creates a Render Configuration with the default frame size, frame
    /// rate and Level of Detail policy, and no path filter.
    pub fn new(visual_metaphor: VisualMetaphor, theme: Theme, layout: Layout) -> (r: Self)
        ensures
            r@ == (RenderConfigurationView {
                visual_metaphor: visual_metaphor@,
                theme: theme@,
                layout,
                frame_size: (DEFAULT_FRAME_WIDTH, DEFAULT_FRAME_HEIGHT),
                frames_per_second: DEFAULT_FRAMES_PER_SECOND,
                dense_directory_threshold: DEFAULT_DENSE_DIRECTORY_THRESHOLD,
                included_paths: Seq::empty(),
            }),
    {
        RenderConfiguration {
            visual_metaphor,
            theme,
            layout,
            frame_size: FrameSize::new(DEFAULT_FRAME_WIDTH, DEFAULT_FRAME_HEIGHT),
            frames_per_second: FramesPerSecond::new(DEFAULT_FRAMES_PER_SECOND),
            level_of_detail: LevelOfDetailPolicy::new(
                EntityCountThreshold::new(DEFAULT_DENSE_DIRECTORY_THRESHOLD),
            ),
            explicit_path_filter: ExplicitPathFilter::all(),
        }
    }

    /// Uses a specific frame size.
    pub fn with_frame_size(self, frame_size: FrameSize) -> (r: Self)
        ensures
            r@ == (RenderConfigurationView { frame_size: frame_size@, ..self@ }),
    {
        RenderConfiguration { frame_size, ..self }
    }

    /// Uses a specific frame rate.
    pub fn with_frames_per_second(self, frames_per_second: FramesPerSecond) -> (r: Self)
        ensures
            r@ == (RenderConfigurationView { frames_per_second: frames_per_second.value(), ..self@ }),
    {
        RenderConfiguration { frames_per_second, ..self }
    }

    /// Uses a specific Level of Detail policy.
    pub fn with_level_of_detail(self, level_of_detail: LevelOfDetailPolicy) -> (r: Self)
        ensures
            r@ == (RenderConfigurationView {
                dense_directory_threshold: level_of_detail.threshold(),
                ..self@
            }),
    {
        RenderConfiguration { level_of_detail, ..self }
    }

    /// Uses a specific explicit path filter.
    pub fn with_explicit_path_filter(self, explicit_path_filter: ExplicitPathFilter) -> (r: Self)
        ensures
            r@ == (RenderConfigurationView { included_paths: explicit_path_filter@, ..self@ }),
    {
        RenderConfiguration { explicit_path_filter, ..self }
    }

    /// Returns the visual metaphor.
    pub fn visual_metaphor(&self) -> (r: &VisualMetaphor)
        ensures
            r@ == self@.visual_metaphor,
    {
        &self.visual_metaphor
    }

    /// Returns the theme.
    pub fn theme(&self) -> (r: &Theme)
        ensures
            r@ == self@.theme,
    {
        &self.theme
    }

    /// Returns the layout.
    pub fn layout(&self) -> (r: &Layout)
        ensures
            *r == self@.layout,
    {
        &self.layout
    }

    /// Returns the frame size.
    pub fn frame_size(&self) -> (r: FrameSize)
        ensures
            r@ == self@.frame_size,
    {
        self.frame_size
    }

    /// Returns the frame rate.
    pub fn frames_per_second(&self) -> (r: FramesPerSecond)
        ensures
            r.value() == self@.frames_per_second,
    {
        self.frames_per_second
    }

    /// Returns the Level of Detail policy.
    pub fn level_of_detail(&self) -> (r: LevelOfDetailPolicy)
        ensures
            r.threshold() == self@.dense_directory_threshold,
    {
        self.level_of_detail
    }

    /// Returns the explicit path filter.
    pub fn explicit_path_filter(&self) -> (r: &ExplicitPathFilter)
        ensures
            r@ == self@.included_paths,
    {
        &self.explicit_path_filter
    }
}

/// The default Render Configuration: the Repository Graph with the
/// `gitflux-dark` theme and the `flow` metaphor, at the default frame size,
/// rate and Level of Detail, with no path filter.
pub open spec fn default_configuration_view() -> RenderConfigurationView {
    RenderConfigurationView {
        visual_metaphor: "flow"@,
        theme: ThemeView {
            name: "gitflux-dark"@,
            background_color: "#0b1020"@,
            entity_color: "#7dd3fc"@,
            contributor_color: "#facc15"@,
        },
        layout: Layout::RepositoryGraph,
        frame_size: (DEFAULT_FRAME_WIDTH, DEFAULT_FRAME_HEIGHT),
        frames_per_second: DEFAULT_FRAMES_PER_SECOND,
        dense_directory_threshold: DEFAULT_DENSE_DIRECTORY_THRESHOLD,
        included_paths: Seq::empty(),
    }
}

impl Default for RenderConfiguration {
    /// The default Render Configuration.
    fn default() -> (r: Self)
        ensures
            r@ == default_configuration_view(),
    {
        RenderConfiguration::new(
            VisualMetaphor::new("flow"),
            Theme::new("gitflux-dark"),
            Layout::RepositoryGraph,
        )
    }
}

} // verus!
