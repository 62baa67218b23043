//! The Repository Graph scene: every Repository Entity, Contributor and
//! activity of a Repository Replay, laid out in deterministic rows.

use vstd::prelude::*;

use crate::config::{ExplicitPathFilter, RenderConfiguration, RenderConfigurationView};
use crate::domain::{CommitEventView, ContributorKind, RepositoryReplayView};
use crate::paths::{parent_directory_path, parent_text};
use crate::scene::{
    activity_view, activity_views, active_events, build_activities, build_competing_changes,
    build_visual_summaries, collect_contributors, collect_scene_paths, contributor_keys,
    directory_paths, emphasis_of, fits_row, kept_competing, lemma_fits_row_index,
    lemma_strictly_sorted_no_duplicates, scene_competing_views, scene_file_paths, seed_from_first, seed_view,
    is_first_with_key, summary_matches, summary_path_texts, summary_paths, summary_views, ContributorSceneId,
    DirectorySceneId, FileSceneId, MotionState, SceneActivity, SceneActivityView,
    SceneCompetingChange, SceneEmphasis, SceneFrameSize, ScenePosition, VisualSummary,
    VisualSummaryView,
};
use crate::domain::CompetingChangeView;
use crate::domain::RepositoryReplay;
use crate::render::{FrameCount, RenderPlan};
use crate::text::{lemma_sorted_unique, owned, sorted_insert, strictly_sorted, texts};

verus! {

/// What a scene Contributor says.
pub struct SceneContributorView {
    pub id: Seq<char>,
    pub display_name: Seq<char>,
    pub kind: ContributorKind,
    pub position: (i32, i32),
}

/// Render-ready Contributor node.
#[derive(Debug, Clone, PartialEq, Eq)]
pub struct SceneContributor {
    id: ContributorSceneId,
    display_name: String,
    kind: ContributorKind,
    position: ScenePosition,
}

impl View for SceneContributor {
    type V = SceneContributorView;

    closed spec fn view(&self) -> SceneContributorView {
        SceneContributorView {
            id: self.id@,
            display_name: self.display_name@,
            kind: self.kind,
            position: self.position@,
        }
    }
}

impl SceneContributor {
    /// Returns the Contributor scene identifier.
    pub fn id(&self) -> (r: &ContributorSceneId)
        ensures
            r@ == self@.id,
    {
        &self.id
    }

    /// Returns the display name.
    pub fn display_name(&self) -> (r: &str)
        ensures
            r@ == self@.display_name,
    {
        self.display_name.as_str()
    }

    /// Returns whether this Contributor is human or automation.
    pub fn kind(&self) -> (r: ContributorKind)
        ensures
            r == self@.kind,
    {
        self.kind
    }

    /// Returns the deterministic scene position.
    pub fn position(&self) -> (r: ScenePosition)
        ensures
            r@ == self@.position,
    {
        self.position
    }
}

/// What a scene directory says.
pub struct SceneDirectoryView {
    pub id: Seq<char>,
    pub path: Seq<char>,
    pub position: (i32, i32),
}

/// Render-ready directory node.
#[derive(Debug, Clone, PartialEq, Eq)]
pub struct SceneDirectory {
    id: DirectorySceneId,
    path: String,
    position: ScenePosition,
}

impl View for SceneDirectory {
    type V = SceneDirectoryView;

    closed spec fn view(&self) -> SceneDirectoryView {
        SceneDirectoryView { id: self.id@, path: self.path@, position: self.position@ }
    }
}

impl SceneDirectory {
    /// Returns the directory scene identifier.
    pub fn id(&self) -> (r: &DirectorySceneId)
        ensures
            r@ == self@.id,
    {
        &self.id
    }

    /// Returns the repository-relative directory path.
    pub fn path(&self) -> (r: &str)
        ensures
            r@ == self@.path,
    {
        self.path.as_str()
    }

    /// Returns the deterministic scene position.
    pub fn position(&self) -> (r: ScenePosition)
        ensures
            r@ == self@.position,
    {
        self.position
    }
}

/// What a scene file says.
pub struct SceneFileView {
    pub id: Seq<char>,
    pub path: Seq<char>,
    pub parent_directory_id: Option<Seq<char>>,
    pub position: (i32, i32),
    pub motion: MotionState,
    pub emphasis: SceneEmphasis,
}

/// Render-ready file node.
#[derive(Debug, Clone, PartialEq, Eq)]
pub struct SceneFile {
    id: FileSceneId,
    path: String,
    parent_directory_id: Option<DirectorySceneId>,
    position: ScenePosition,
    motion: MotionState,
    emphasis: SceneEmphasis,
}

/// The view of an optional directory identifier.
pub open spec fn directory_id_view(id: Option<DirectorySceneId>) -> Option<Seq<char>> {
    match id {
        Some(d) => Some(d@),
        None => None,
    }
}

impl View for SceneFile {
    type V = SceneFileView;

    closed spec fn view(&self) -> SceneFileView {
        SceneFileView {
            id: self.id@,
            path: self.path@,
            parent_directory_id: directory_id_view(self.parent_directory_id),
            position: self.position@,
            motion: self.motion,
            emphasis: self.emphasis,
        }
    }
}

impl SceneFile {
    /// Returns the file scene identifier.
    pub fn id(&self) -> (r: &FileSceneId)
        ensures
            r@ == self@.id,
    {
        &self.id
    }

    /// Returns the repository-relative file path.
    pub fn path(&self) -> (r: &str)
        ensures
            r@ == self@.path,
    {
        self.path.as_str()
    }

    /// Returns the containing directory scene identifier, if any.
    pub fn parent_directory_id(&self) -> (r: Option<&DirectorySceneId>)
        ensures
            r is Some == self@.parent_directory_id is Some,
            r matches Some(d) ==> d@ == self@.parent_directory_id.unwrap(),
    {
        match &self.parent_directory_id {
            Some(d) => Some(d),
            None => None,
        }
    }

    /// Returns the deterministic scene position.
    pub fn position(&self) -> (r: ScenePosition)
        ensures
            r@ == self@.position,
    {
        self.position
    }

    /// Returns the basic motion state.
    pub fn motion(&self) -> (r: MotionState)
        ensures
            r == self@.motion,
    {
        self.motion
    }

    /// Returns whether this file should be visually de-emphasized.
    pub fn emphasis(&self) -> (r: SceneEmphasis)
        ensures
            r == self@.emphasis,
    {
        self.emphasis
    }
}

/// Explicit path scope applied before Level of Detail summarization.
#[derive(Debug, Clone, PartialEq, Eq)]
pub struct SceneExplicitPathFilter {
    included_paths: Vec<String>,
}

impl View for SceneExplicitPathFilter {
    type V = Seq<Seq<char>>;

    closed spec fn view(&self) -> Seq<Seq<char>> {
        texts(self.included_paths@)
    }
}

impl SceneExplicitPathFilter {
    /// Returns repository-relative path prefixes included in this scene.
    pub fn included_paths(&self) -> (r: &[String])
        ensures
            texts(r@) == self@,
    {
        self.included_paths.as_slice()
    }
}

/// The scene form of a path filter: none when it restricts nothing.
fn scene_filter(filter: &ExplicitPathFilter) -> (r: Option<SceneExplicitPathFilter>)
    ensures
        r is None <==> filter@.len() == 0,
        r matches Some(f) ==> f@ == filter@,
{
    if filter.is_empty() {
        return None;
    }
    let paths = filter.included_paths();
    let mut included_paths: Vec<String> = Vec::new();
    for i in 0..paths.len()
        invariant
            texts(paths@) == filter@,
            included_paths@.len() == i,
            forall|k: int| 0 <= k < i ==> #[trigger] included_paths@[k]@ == paths@[k]@,
    {
        included_paths.push(paths[i].clone());
    }
    let r = SceneExplicitPathFilter { included_paths };
    assert(r@ =~= filter@);
    Some(r)
}

/// What a Repository Graph scene says.
pub struct RepositoryGraphSceneView {
    pub mainline: Seq<char>,
    pub frame_size: (u32, u32),
    pub frames_per_second: u32,
    pub explicit_path_filter: Option<Seq<Seq<char>>>,
    pub contributors: Seq<SceneContributorView>,
    pub directories: Seq<SceneDirectoryView>,
    pub files: Seq<SceneFileView>,
    pub visual_summaries: Seq<VisualSummaryView>,
    pub activities: Seq<SceneActivityView>,
    pub competing_changes: Seq<CompetingChangeView>,
}

/// Render-ready scene data for the Repository Graph layout.
#[derive(Debug, Clone, PartialEq, Eq)]
pub struct RepositoryGraphScene {
    mainline: String,
    frame_size: SceneFrameSize,
    frames_per_second: u32,
    explicit_path_filter: Option<SceneExplicitPathFilter>,
    contributors: Vec<SceneContributor>,
    directories: Vec<SceneDirectory>,
    files: Vec<SceneFile>,
    visual_summaries: Vec<VisualSummary>,
    activities: Vec<SceneActivity>,
    competing_changes: Vec<SceneCompetingChange>,
}

/// The view of an optional scene path filter.
pub open spec fn scene_filter_view(f: Option<SceneExplicitPathFilter>) -> Option<Seq<Seq<char>>> {
    match f {
        Some(f) => Some(f@),
        None => None,
    }
}

/// The views of a sequence of scene Contributors.
pub open spec fn contributor_views(s: Seq<SceneContributor>) -> Seq<SceneContributorView> {
    s.map_values(|c: SceneContributor| c@)
}

/// The views of a sequence of scene directories.
pub open spec fn directory_views(s: Seq<SceneDirectory>) -> Seq<SceneDirectoryView> {
    s.map_values(|d: SceneDirectory| d@)
}

/// The views of a sequence of scene files.
pub open spec fn file_views(s: Seq<SceneFile>) -> Seq<SceneFileView> {
    s.map_values(|f: SceneFile| f@)
}

impl View for RepositoryGraphScene {
    type V = RepositoryGraphSceneView;

    closed spec fn view(&self) -> RepositoryGraphSceneView {
        RepositoryGraphSceneView {
            mainline: self.mainline@,
            frame_size: self.frame_size@,
            frames_per_second: self.frames_per_second,
            explicit_path_filter: scene_filter_view(self.explicit_path_filter),
            contributors: contributor_views(self.contributors@),
            directories: directory_views(self.directories@),
            files: file_views(self.files@),
            visual_summaries: summary_views(self.visual_summaries@),
            activities: activity_views(self.activities@),
            competing_changes: scene_competing_views(self.competing_changes@),
        }
    }
}

/// The Contributor identifiers of a sequence of scene Contributors.
pub open spec fn contributor_ids(s: Seq<SceneContributorView>) -> Seq<Seq<char>> {
    s.map_values(|c: SceneContributorView| c.id)
}

/// The paths of a sequence of scene directories.
pub open spec fn directory_path_texts(s: Seq<SceneDirectoryView>) -> Seq<Seq<char>> {
    s.map_values(|d: SceneDirectoryView| d.path)
}

/// The paths of a sequence of scene files.
pub open spec fn file_path_texts(s: Seq<SceneFileView>) -> Seq<Seq<char>> {
    s.map_values(|f: SceneFileView| f.path)
}

/// The scene row of the Contributors of the active Commit Events: their
/// identity keys in order, each named and classified by its first active
/// Commit Event, in row 0.
pub open spec fn scene_contributors(
    cs: Seq<SceneContributorView>,
    rv: RepositoryReplayView,
    inc: Seq<Seq<char>>,
    spacing: int,
) -> bool {
    &&& strictly_sorted(contributor_ids(cs))
    &&& contributor_ids(cs).to_set() == contributor_keys(inc, rv.commit_events)
    &&& forall|k: int|
        0 <= k < cs.len() ==> {
            &&& #[trigger] seed_from_first(
                inc,
                rv.commit_events,
                cs[k].id,
                (cs[k].display_name, cs[k].kind),
                rv.commit_events.len() as int,
            )
            &&& cs[k].position.0 == k * spacing
            &&& cs[k].position.1 == 0
        }
}

/// The scene row of the directories holding scene files, in order, in row 1.
pub open spec fn scene_directories(ds: Seq<SceneDirectoryView>, files: Set<Seq<char>>, spacing: int) -> bool {
    &&& strictly_sorted(directory_path_texts(ds))
    &&& directory_path_texts(ds).to_set() == directory_paths(files)
    &&& forall|k: int|
        0 <= k < ds.len() ==> {
            &&& #[trigger] ds[k].id == ds[k].path
            &&& ds[k].position.0 == k * spacing
            &&& ds[k].position.1 == spacing
        }
}

/// The scene row of the files, in order, in row 2, each settled and shown
/// with the emphasis of its path.
pub open spec fn scene_files(fs: Seq<SceneFileView>, files: Set<Seq<char>>, spacing: int) -> bool {
    &&& strictly_sorted(file_path_texts(fs))
    &&& file_path_texts(fs).to_set() == files
    &&& forall|k: int|
        0 <= k < fs.len() ==> {
            &&& #[trigger] fs[k].id == fs[k].path
            &&& fs[k].parent_directory_id == parent_text(fs[k].path)
            &&& fs[k].position.0 == k * spacing
            &&& fs[k].position.1 == 2 * spacing
            &&& fs[k].motion == MotionState::Settled
            &&& fs[k].emphasis == emphasis_of(fs[k].path)
        }
}

/// The scene row of the Visual Summaries of the dense directories, in order,
/// in row 3.
pub open spec fn scene_summaries(
    vs: Seq<VisualSummaryView>,
    rv: RepositoryReplayView,
    inc: Seq<Seq<char>>,
    files: Set<Seq<char>>,
    threshold: usize,
    spacing: int,
) -> bool {
    &&& strictly_sorted(summary_path_texts(vs))
    &&& summary_path_texts(vs).to_set() == summary_paths(files, threshold)
    &&& forall|k: int|
        0 <= k < vs.len() ==> #[trigger] summary_matches(vs[k], inc, rv.commit_events, files, k, spacing)
}

/// One activity per active Commit Event, in replay order, the k-th starting
/// at frame k times the frame rate.
pub open spec fn scene_activities(
    acts: Seq<SceneActivityView>,
    rv: RepositoryReplayView,
    inc: Seq<Seq<char>>,
    frames_per_second: u32,
) -> bool {
    let active = active_events(inc, rv.commit_events);
    &&& acts.len() == active.len()
    &&& forall|k: int|
        0 <= k < acts.len() ==> #[trigger] acts[k] == activity_view(
            inc,
            active[k],
            (k * frames_per_second) as u64,
        )
}

/// `s` is the Repository Graph scene of replay `rv` under configuration `cv`.
pub open spec fn scene_of(s: RepositoryGraphSceneView, rv: RepositoryReplayView, cv: RenderConfigurationView) -> bool {
    let inc = cv.included_paths;
    let spacing = cv.layout.spacing_value() as int;
    let files = scene_file_paths(inc, rv);
    &&& s.mainline == rv.mainline
    &&& s.frame_size == cv.frame_size
    &&& s.frames_per_second == cv.frames_per_second
    &&& s.explicit_path_filter == (if inc.len() == 0 {
        None
    } else {
        Some(inc)
    })
    &&& scene_contributors(s.contributors, rv, inc, spacing)
    &&& scene_directories(s.directories, files, spacing)
    &&& scene_files(s.files, files, spacing)
    &&& scene_summaries(s.visual_summaries, rv, inc, files, cv.dense_directory_threshold, spacing)
    &&& scene_activities(s.activities, rv, inc, cv.frames_per_second)
    &&& s.competing_changes == kept_competing(inc, rv.competing_changes)
}

/// Every coordinate and count of the scene of `rv` under `cv` fits its type:
/// the spacing and each row's positions fit `i32`, each Visual Summary's
/// activity count fits `usize`, and each playback frame fits `u64`.
pub open spec fn scene_fits(rv: RepositoryReplayView, cv: RenderConfigurationView) -> bool {
    let inc = cv.included_paths;
    let spacing = cv.layout.spacing_value() as int;
    let files = scene_file_paths(inc, rv);
    let active = active_events(inc, rv.commit_events);
    &&& spacing <= i32::MAX
    &&& fits_row(contributor_keys(inc, rv.commit_events).len() as int, 0, spacing)
    &&& fits_row(directory_paths(files).len() as int, 1, spacing)
    &&& fits_row(files.len() as int, 2, spacing)
    &&& fits_row(summary_paths(files, cv.dense_directory_threshold).len() as int, 3, spacing)
    &&& forall|d: Seq<char>|
        #[trigger] summary_paths(files, cv.dense_directory_threshold).contains(d)
            ==> crate::scene::count_touching(inc, rv.commit_events, crate::scene::in_directory(files, d))
            <= usize::MAX
    &&& (active.len() == 0 || (active.len() - 1) * cv.frames_per_second <= u64::MAX)
}

/// Decides `fits_row`.
fn row_fits(n: usize, row: i32, spacing: i32) -> (r: bool)
    requires
        0 <= row <= 3,
        0 <= spacing,
    ensures
        r == fits_row(n as int, row as int, spacing as int),
{
    if n == 0 {
        return true;
    }
    let last = n - 1;
    let wide: i64 = spacing as i64;
    let row_wide: i64 = row as i64;
    proof {
        vstd::arithmetic::mul::lemma_mul_upper_bound(row as int, 3, spacing as int, i32::MAX as int);
    }
    if row_wide * wide > i32::MAX as i64 {
        return false;
    }
    if last > i32::MAX as usize {
        return false;
    }
    proof {
        vstd::arithmetic::mul::lemma_mul_upper_bound(last as int, i32::MAX as int, spacing as int, i32::MAX as int);
    }
    (last as i64) * wide <= i32::MAX as i64
}

/// The Contributor row.
fn contributor_row(keys: Vec<String>, seeds: Vec<(String, ContributorKind)>, spacing: i32) -> (r: Vec<SceneContributor>)
    requires
        keys@.len() == seeds@.len(),
        0 <= spacing,
        fits_row(keys@.len() as int, 0, spacing as int),
    ensures
        r@.len() == keys@.len(),
        forall|k: int|
            0 <= k < r@.len() ==> {
                &&& (#[trigger] r@[k])@.id == keys@[k]@
                &&& r@[k]@.display_name == seeds@[k].0@
                &&& r@[k]@.kind == seeds@[k].1
                &&& r@[k]@.position.0 == k * spacing
                &&& r@[k]@.position.1 == 0
            },
{
    let mut r: Vec<SceneContributor> = Vec::new();
    let mut k: usize = 0;
    while k < keys.len()
        invariant
            0 <= k <= keys@.len(),
            keys@.len() == seeds@.len(),
            0 <= spacing,
            fits_row(keys@.len() as int, 0, spacing as int),
            r@.len() == k,
            forall|a: int|
                0 <= a < k ==> {
                    &&& (#[trigger] r@[a])@.id == keys@[a]@
                    &&& r@[a]@.display_name == seeds@[a].0@
                    &&& r@[a]@.kind == seeds@[a].1
                    &&& r@[a]@.position.0 == a * spacing
                    &&& r@[a]@.position.1 == 0
                },
        decreases keys@.len() - k,
    {
        proof {
            lemma_fits_row_index(keys@.len() as int, 0, spacing as int, k as int);
        }
        let contributor = SceneContributor {
            id: ContributorSceneId::from_string(keys[k].clone()),
            display_name: seeds[k].0.clone(),
            kind: seeds[k].1,
            position: ScenePosition::new(k, 0, spacing),
        };
        let ghost before = r@;
        assert(contributor@.id == keys@[k as int]@);
        assert(contributor@.display_name == seeds@[k as int].0@);
        assert(contributor@.position.0 == k * spacing);
        r.push(contributor);
        assert(r@[k as int] == contributor);
        proof {
            assert forall|a: int| 0 <= a < k + 1 implies {
                &&& (#[trigger] r@[a])@.id == keys@[a]@
                &&& r@[a]@.display_name == seeds@[a].0@
                &&& r@[a]@.kind == seeds@[a].1
                &&& r@[a]@.position.0 == a * spacing
                &&& r@[a]@.position.1 == 0
            } by {
                if a < k {
                    assert(r@[a] == before[a]);
                }
            }
        }
        k = k + 1;
    }
    r
}

/// The directory row.
fn directory_row(dirs: &Vec<String>, spacing: i32) -> (r: Vec<SceneDirectory>)
    requires
        0 <= spacing,
        fits_row(dirs@.len() as int, 1, spacing as int),
    ensures
        directory_path_texts(directory_views(r@)) == texts(dirs@),
        forall|k: int|
            0 <= k < r@.len() ==> {
                &&& #[trigger] r@[k]@.id == r@[k]@.path
                &&& r@[k]@.position.0 == k * spacing
                &&& r@[k]@.position.1 == spacing
            },
{
    let mut r: Vec<SceneDirectory> = Vec::new();
    let mut k: usize = 0;
    while k < dirs.len()
        invariant
            0 <= k <= dirs@.len(),
            0 <= spacing,
            fits_row(dirs@.len() as int, 1, spacing as int),
            r@.len() == k,
            forall|a: int|
                0 <= a < k ==> {
                    &&& (#[trigger] r@[a])@.path == dirs@[a]@
                    &&& r@[a]@.id == r@[a]@.path
                    &&& r@[a]@.position.0 == a * spacing
                    &&& r@[a]@.position.1 == spacing
                },
        decreases dirs@.len() - k,
    {
        proof {
            lemma_fits_row_index(dirs@.len() as int, 1, spacing as int, k as int);
        }
        let directory = SceneDirectory {
            id: DirectorySceneId::from_string(dirs[k].clone()),
            path: dirs[k].clone(),
            position: ScenePosition::new(k, 1, spacing),
        };
        let ghost before = r@;
        assert(directory@.path == dirs@[k as int]@);
        assert(directory@.id == directory@.path);
        assert(directory@.position.0 == k * spacing);
        r.push(directory);
        assert(r@[k as int] == directory);
        proof {
            assert forall|a: int| 0 <= a < k + 1 implies {
                &&& (#[trigger] r@[a])@.path == dirs@[a]@
                &&& r@[a]@.id == r@[a]@.path
                &&& r@[a]@.position.0 == a * spacing
                &&& r@[a]@.position.1 == spacing
            } by {
                if a < k {
                    assert(r@[a] == before[a]);
                }
            }
        }
        k = k + 1;
    }
    assert(directory_path_texts(directory_views(r@)) =~= texts(dirs@));
    r
}

/// The file row.
fn file_row(files: &Vec<String>, spacing: i32) -> (r: Vec<SceneFile>)
    requires
        0 <= spacing,
        fits_row(files@.len() as int, 2, spacing as int),
    ensures
        file_path_texts(file_views(r@)) == texts(files@),
        forall|k: int|
            0 <= k < r@.len() ==> {
                &&& #[trigger] r@[k]@.id == r@[k]@.path
                &&& r@[k]@.parent_directory_id == parent_text(r@[k]@.path)
                &&& r@[k]@.position.0 == k * spacing
                &&& r@[k]@.position.1 == 2 * spacing
                &&& r@[k]@.motion == MotionState::Settled
                &&& r@[k]@.emphasis == emphasis_of(r@[k]@.path)
            },
{
    let mut r: Vec<SceneFile> = Vec::new();
    let mut k: usize = 0;
    while k < files.len()
        invariant
            0 <= k <= files@.len(),
            0 <= spacing,
            fits_row(files@.len() as int, 2, spacing as int),
            r@.len() == k,
            forall|a: int|
                0 <= a < k ==> {
                    &&& (#[trigger] r@[a])@.path == files@[a]@
                    &&& r@[a]@.id == r@[a]@.path
                    &&& r@[a]@.parent_directory_id == parent_text(r@[a]@.path)
                    &&& r@[a]@.position.0 == a * spacing
                    &&& r@[a]@.position.1 == 2 * spacing
                    &&& r@[a]@.motion == MotionState::Settled
                    &&& r@[a]@.emphasis == emphasis_of(r@[a]@.path)
                },
        decreases files@.len() - k,
    {
        proof {
            lemma_fits_row_index(files@.len() as int, 2, spacing as int, k as int);
        }
        let path = files[k].as_str();
        let parent = match parent_directory_path(path) {
            Some(d) => Some(DirectorySceneId::from_string(d)),
            None => None,
        };
        let file = SceneFile {
            id: FileSceneId::from_string(files[k].clone()),
            path: files[k].clone(),
            parent_directory_id: parent,
            position: ScenePosition::new(k, 2, spacing),
            motion: MotionState::Settled,
            emphasis: SceneEmphasis::from_path(path),
        };
        let ghost before = r@;
        assert(file@.path == files@[k as int]@);
        assert(file@.id == file@.path);
        assert(file@.parent_directory_id == parent_text(file@.path));
        assert(file@.position.0 == k * spacing);
        assert(file@.emphasis == emphasis_of(file@.path));
        r.push(file);
        assert(r@[k as int] == file);
        proof {
            assert forall|a: int| 0 <= a < k + 1 implies {
                &&& (#[trigger] r@[a])@.path == files@[a]@
                &&& r@[a]@.id == r@[a]@.path
                &&& r@[a]@.parent_directory_id == parent_text(r@[a]@.path)
                &&& r@[a]@.position.0 == a * spacing
                &&& r@[a]@.position.1 == 2 * spacing
                &&& r@[a]@.motion == MotionState::Settled
                &&& r@[a]@.emphasis == emphasis_of(r@[a]@.path)
            } by {
                if a < k {
                    assert(r@[a] == before[a]);
                }
            }
        }
        k = k + 1;
    }
    assert(file_path_texts(file_views(r@)) =~= texts(files@));
    r
}


impl RepositoryGraphScene {
    /// Builds the deterministic Repository Graph scene of a Repository
    /// Replay, or `None` when one of its coordinates or counts does not fit
    /// its type.
    pub fn try_from_replay(replay: &RepositoryReplay, configuration: &RenderConfiguration) -> (r: Option<Self>)
        ensures
            r is Some <==> scene_fits(replay@, configuration@),
            r matches Some(s) ==> scene_of(s@, replay@, configuration@),
    {
        let ghost rv = replay@;
        let ghost cv = configuration@;
        let ghost inc = cv.included_paths;
        let spacing_value = configuration.layout().entity_spacing().get();
        if spacing_value > 2147483647u32 {
            return None;
        }
        let spacing = spacing_value as i32;
        let filter = configuration.explicit_path_filter();
        let (dirs, files) = collect_scene_paths(replay, filter);
        let (keys, seeds) = collect_contributors(replay, filter);
        let ghost file_set = scene_file_paths(inc, rv);
        proof {
            lemma_strictly_sorted_no_duplicates(texts(dirs@));
            lemma_strictly_sorted_no_duplicates(texts(files@));
            lemma_strictly_sorted_no_duplicates(texts(keys@));
        }
        if !row_fits(keys.len(), 0, spacing) {
            return None;
        }
        if !row_fits(dirs.len(), 1, spacing) {
            return None;
        }
        if !row_fits(files.len(), 2, spacing) {
            return None;
        }
        let threshold = configuration.level_of_detail().dense_directory_threshold().get();
        let visual_summaries = match build_visual_summaries(&files, replay, filter, threshold, spacing) {
            Some(v) => v,
            None => {
                return None;
            },
        };
        let frames_per_second = configuration.frames_per_second().get();
        let activities = match build_activities(replay, filter, frames_per_second) {
            Some(v) => v,
            None => {
                return None;
            },
        };
        let competing_changes = build_competing_changes(replay, filter);
        let ghost key_texts = texts(keys@);
        let ghost keys_v = keys@;
        let ghost seeds_v = seeds@;
        let contributors = contributor_row(keys, seeds, spacing);
        let directories = directory_row(&dirs, spacing);
        let file_nodes = file_row(&files, spacing);
        let frame = configuration.frame_size();
        let scene = RepositoryGraphScene {
            mainline: owned(replay.mainline().as_str()),
            frame_size: SceneFrameSize::new(frame.width(), frame.height()),
            frames_per_second,
            explicit_path_filter: scene_filter(filter),
            contributors,
            directories,
            files: file_nodes,
            visual_summaries,
            activities,
            competing_changes,
        };
        proof {
            assert(contributor_ids(contributor_views(scene.contributors@)) =~= key_texts);
            assert(scene@.contributors == contributor_views(scene.contributors@));
            assert(scene@.directories == directory_views(scene.directories@));
            assert(scene@.files == file_views(scene.files@));
            let sv = scene@;
            let spacing_i = cv.layout.spacing_value() as int;
            assert(sv.mainline == rv.mainline);
            assert(sv.frame_size == cv.frame_size);
            assert(sv.frames_per_second == cv.frames_per_second);
            assert(sv.explicit_path_filter == (if inc.len() == 0 { None } else { Some(inc) }));
            assert forall|k: int| 0 <= k < sv.contributors.len() implies #[trigger] seed_from_first(
                inc,
                rv.commit_events,
                sv.contributors[k].id,
                (sv.contributors[k].display_name, sv.contributors[k].kind),
                rv.commit_events.len() as int,
            ) by {
                assert(sv.contributors[k] == scene.contributors@[k]@);
                assert(seed_view(seeds_v[k]) == (sv.contributors[k].display_name, sv.contributors[k].kind));
                assert(keys_v[k]@ == sv.contributors[k].id);
            }
            assert(scene_contributors(sv.contributors, rv, inc, spacing_i));
            assert(scene_directories(sv.directories, file_set, spacing_i));
            assert(scene_files(sv.files, file_set, spacing_i));
            assert(scene_summaries(sv.visual_summaries, rv, inc, file_set, cv.dense_directory_threshold, spacing_i));
            assert(scene_activities(sv.activities, rv, inc, cv.frames_per_second));
            assert(sv.competing_changes == kept_competing(inc, rv.competing_changes));
        }
        Some(scene)
    }

    /// Builds the deterministic Repository Graph scene of a Repository Replay.
    pub fn from_replay(replay: &RepositoryReplay, configuration: &RenderConfiguration) -> (r: Self)
        requires
            scene_fits(replay@, configuration@),
        ensures
            scene_of(r@, replay@, configuration@),
    {
        Self::try_from_replay(replay, configuration).unwrap()
    }

    /// Returns the Mainline for this Repository Graph scene.
    pub fn mainline(&self) -> (r: &str)
        ensures
            r@ == self@.mainline,
    {
        self.mainline.as_str()
    }

    /// Returns the configured scene frame size.
    pub fn frame_size(&self) -> (r: SceneFrameSize)
        ensures
            r@ == self@.frame_size,
    {
        self.frame_size
    }

    /// Returns the configured render frame rate.
    pub fn frames_per_second(&self) -> (r: u32)
        ensures
            r == self@.frames_per_second,
    {
        self.frames_per_second
    }

    /// Returns scene Contributors in deterministic layout order.
    pub fn contributors(&self) -> (r: &[SceneContributor])
        ensures
            contributor_views(r@) == self@.contributors,
    {
        self.contributors.as_slice()
    }

    /// Returns an explicit path filter applied before scene Level of Detail.
    pub fn explicit_path_filter(&self) -> (r: Option<&SceneExplicitPathFilter>)
        ensures
            r is Some == self@.explicit_path_filter is Some,
            r matches Some(f) ==> f@ == self@.explicit_path_filter.unwrap(),
    {
        match &self.explicit_path_filter {
            Some(f) => Some(f),
            None => None,
        }
    }

    /// Returns scene directories in deterministic layout order.
    pub fn directories(&self) -> (r: &[SceneDirectory])
        ensures
            directory_views(r@) == self@.directories,
    {
        self.directories.as_slice()
    }

    /// Returns scene files in deterministic layout order.
    pub fn files(&self) -> (r: &[SceneFile])
        ensures
            file_views(r@) == self@.files,
    {
        self.files.as_slice()
    }

    /// Returns Visual Summaries produced by Level of Detail policy.
    pub fn visual_summaries(&self) -> (r: &[VisualSummary])
        ensures
            summary_views(r@) == self@.visual_summaries,
    {
        self.visual_summaries.as_slice()
    }

    /// Returns timed Commit Event activity in replay order.
    pub fn activities(&self) -> (r: &[SceneActivity])
        ensures
            activity_views(r@) == self@.activities,
    {
        self.activities.as_slice()
    }

    /// Returns provisional Competing Changes preserved for scene rendering.
    pub fn competing_changes(&self) -> (r: &[SceneCompetingChange])
        ensures
            scene_competing_views(r@) == self@.competing_changes,
    {
        self.competing_changes.as_slice()
    }
}

/// The positions of the scene's nodes: Contributors, directories, files,
/// then Visual Summaries.
pub open spec fn node_positions(s: RepositoryGraphSceneView) -> Seq<(i32, i32)> {
    s.contributors.map_values(|c: SceneContributorView| c.position) + s.directories.map_values(
        |d: SceneDirectoryView| d.position,
    ) + s.files.map_values(|f: SceneFileView| f.position) + s.visual_summaries.map_values(
        |v: VisualSummaryView| v.position,
    )
}

/// `b` is (least x, greatest x, least y, greatest y) of the positions.
pub open spec fn is_bounds(ps: Seq<(i32, i32)>, b: (i32, i32, i32, i32)) -> bool {
    &&& forall|i: int| 0 <= i < ps.len() ==> b.0 <= #[trigger] ps[i].0 <= b.1 && b.2 <= ps[i].1 <= b.3
    &&& exists|i: int| 0 <= i < ps.len() && #[trigger] ps[i].0 == b.0
    &&& exists|i: int| 0 <= i < ps.len() && #[trigger] ps[i].0 == b.1
    &&& exists|i: int| 0 <= i < ps.len() && #[trigger] ps[i].1 == b.2
    &&& exists|i: int| 0 <= i < ps.len() && #[trigger] ps[i].1 == b.3
}

/// The frames an activity stays lit after it starts: half the frame rate,
/// at least one.
pub open spec fn activity_window(frames_per_second: u32) -> int {
    if frames_per_second / 2 >= 1 {
        (frames_per_second / 2) as int
    } else {
        1
    }
}

/// How many frames after its activity's start the j-th File Change of the
/// activity starts: a third of a second for each File Change before it, so
/// the files of a large commit light one after another.
pub open spec fn change_offset(j: int, frames_per_second: u32) -> int {
    j * (frames_per_second / 3) as int
}

/// The j-th File Change of activity `a` is lit at `frame`: from its start
/// to the end of its window.
pub open spec fn change_lit(a: SceneActivityView, j: int, frame: u64, frames_per_second: u32) -> bool {
    let start = a.playback_frame + change_offset(j, frames_per_second);
    start <= frame <= start + activity_window(frames_per_second)
}

/// The files whose File Changes in the first `n` activities are lit at
/// `frame`.
pub open spec fn active_files(acts: Seq<SceneActivityView>, n: int, frame: u64, frames_per_second: u32) -> Set<Seq<char>> {
    Set::new(
        |id: Seq<char>|
            exists|k: int, j: int|
                0 <= k < n && 0 <= j < acts[k].file_changes.len() && change_lit(acts[k], j, frame, frames_per_second)
                    && #[trigger] acts[k].file_changes[j].file_id == id,
    )
}

/// The frame at which the last File Change of activity `a` starts.
pub open spec fn last_change_start_of(a: SceneActivityView, frames_per_second: u32) -> int {
    if a.file_changes.len() == 0 {
        a.playback_frame as int
    } else {
        a.playback_frame + change_offset(a.file_changes.len() - 1, frames_per_second)
    }
}

/// The latest frame at which a File Change of the activities starts, 0
/// without any.
pub open spec fn last_change_start(acts: Seq<SceneActivityView>, frames_per_second: u32) -> int
    decreases acts.len(),
{
    if acts.len() == 0 {
        0
    } else {
        let rest = last_change_start(acts.drop_last(), frames_per_second);
        let here = last_change_start_of(acts.last(), frames_per_second);
        if here > rest {
            here
        } else {
            rest
        }
    }
}

impl RepositoryGraphScene {
    /// The least and greatest x and y of the scene's nodes, or `None` when
    /// the scene has none.
    pub fn position_bounds(&self) -> (r: Option<(i32, i32, i32, i32)>)
        ensures
            r is None <==> node_positions(self@).len() == 0,
            r matches Some(b) ==> is_bounds(node_positions(self@), b),
    {
        let mut ps: Vec<(i32, i32)> = Vec::new();
        let ghost sv = self@;
        let ghost cs = sv.contributors.map_values(|c: SceneContributorView| c.position);
        let ghost ds = sv.directories.map_values(|d: SceneDirectoryView| d.position);
        let ghost fs = sv.files.map_values(|f: SceneFileView| f.position);
        let ghost vs = sv.visual_summaries.map_values(|v: VisualSummaryView| v.position);
        let mut i: usize = 0;
        while i < self.contributors.len()
            invariant
                i <= self.contributors@.len(),
                sv == self@,
                cs == sv.contributors.map_values(|c: SceneContributorView| c.position),
                ps@ == cs.take(i as int),
            decreases self.contributors@.len() - i,
        {
            ps.push((self.contributors[i].position.x(), self.contributors[i].position.y()));
            assert(cs.take(i + 1) =~= cs.take(i as int).push(cs[i as int]));
            i = i + 1;
        }
        assert(cs.take(cs.len() as int) =~= cs);
        let ghost base1 = ps@;
        i = 0;
        while i < self.directories.len()
            invariant
                i <= self.directories@.len(),
                sv == self@,
                ds == sv.directories.map_values(|d: SceneDirectoryView| d.position),
                ps@ == base1 + ds.take(i as int),
            decreases self.directories@.len() - i,
        {
            ps.push((self.directories[i].position.x(), self.directories[i].position.y()));
            assert(ds.take(i + 1) =~= ds.take(i as int).push(ds[i as int]));
            i = i + 1;
        }
        assert(ds.take(ds.len() as int) =~= ds);
        let ghost base2 = ps@;
        i = 0;
        while i < self.files.len()
            invariant
                i <= self.files@.len(),
                sv == self@,
                fs == sv.files.map_values(|f: SceneFileView| f.position),
                ps@ == base2 + fs.take(i as int),
            decreases self.files@.len() - i,
        {
            ps.push((self.files[i].position.x(), self.files[i].position.y()));
            assert(fs.take(i + 1) =~= fs.take(i as int).push(fs[i as int]));
            i = i + 1;
        }
        assert(fs.take(fs.len() as int) =~= fs);
        let ghost base3 = ps@;
        i = 0;
        while i < self.visual_summaries.len()
            invariant
                i <= self.visual_summaries@.len(),
                sv == self@,
                vs == sv.visual_summaries.map_values(|v: VisualSummaryView| v.position),
                ps@ == base3 + vs.take(i as int),
            decreases self.visual_summaries@.len() - i,
        {
            let p = self.visual_summaries[i].position();
            ps.push((p.x(), p.y()));
            assert(vs.take(i + 1) =~= vs.take(i as int).push(vs[i as int]));
            i = i + 1;
        }
        assert(vs.take(vs.len() as int) =~= vs);
        assert(ps@ =~= node_positions(sv));
        if ps.len() == 0 {
            return None;
        }
        let mut b = (ps[0].0, ps[0].0, ps[0].1, ps[0].1);
        let ghost (mut w0, mut w1, mut w2, mut w3) = (0int, 0int, 0int, 0int);
        let mut k: usize = 1;
        while k < ps.len()
            invariant
                1 <= k <= ps@.len(),
                0 <= w0 < k && ps@[w0].0 == b.0,
                0 <= w1 < k && ps@[w1].0 == b.1,
                0 <= w2 < k && ps@[w2].1 == b.2,
                0 <= w3 < k && ps@[w3].1 == b.3,
                forall|j: int| 0 <= j < k ==> b.0 <= #[trigger] ps@[j].0 <= b.1 && b.2 <= ps@[j].1 <= b.3,
            decreases ps@.len() - k,
        {
            let p = ps[k];
            if p.0 < b.0 {
                b.0 = p.0;
                proof {
                    w0 = k as int;
                }
            }
            if p.0 > b.1 {
                b.1 = p.0;
                proof {
                    w1 = k as int;
                }
            }
            if p.1 < b.2 {
                b.2 = p.1;
                proof {
                    w2 = k as int;
                }
            }
            if p.1 > b.3 {
                b.3 = p.1;
                proof {
                    w3 = k as int;
                }
            }
            assert(ps@[k as int] == p);
            assert(b.0 <= ps@[k as int].0 <= b.1 && b.2 <= ps@[k as int].1 <= b.3);
            k = k + 1;
        }
        assert(ps@[w0].0 == b.0);
        assert(ps@[w1].0 == b.1);
        assert(ps@[w2].1 == b.2);
        assert(ps@[w3].1 == b.3);
        Some(b)
    }

    /// The ids of the files whose File Changes are lit at `frame_index`,
    /// strictly sorted. The j-th File Change of an activity starts lighting
    /// `j` times a third of a second after the activity starts.
    pub fn active_file_ids(&self, frame_index: u64) -> (r: Vec<String>)
        ensures
            strictly_sorted(texts(r@)),
            texts(r@).to_set() == active_files(
                self@.activities,
                self@.activities.len() as int,
                frame_index,
                self@.frames_per_second,
            ),
    {
        let ghost acts = self@.activities;
        let ghost fps = self@.frames_per_second;
        let half = self.frames_per_second / 2;
        let window: u64 = if half >= 1 {
            half as u64
        } else {
            1
        };
        let stagger: u128 = (self.frames_per_second / 3) as u128;
        let frame: u128 = frame_index as u128;
        let mut r: Vec<String> = Vec::new();
        let mut k: usize = 0;
        assert(texts(r@).to_set() =~= active_files(acts, 0, frame_index, fps));
        while k < self.activities.len()
            invariant
                k <= self.activities@.len(),
                acts == self@.activities,
                acts == crate::scene::activity_views(self.activities@),
                fps == self@.frames_per_second,
                window == activity_window(fps),
                stagger == fps / 3,
                frame == frame_index,
                strictly_sorted(texts(r@)),
                texts(r@).to_set() == active_files(acts, k as int, frame_index, fps),
            decreases self.activities@.len() - k,
        {
            let activity = &self.activities[k];
            assert(acts[k as int] == activity@);
            let start: u128 = activity.playback_frame() as u128;
            let changes = activity.file_changes();
            let ghost before = texts(r@).to_set();
            let mut j: usize = 0;
            while j < changes.len()
                invariant
                    j <= changes@.len(),
                    acts[k as int] == activity@,
                    crate::scene::scene_file_change_views(changes@) == acts[k as int].file_changes,
                    start == acts[k as int].playback_frame,
                    window == activity_window(fps),
                    stagger == fps / 3,
                    frame == frame_index,
                    strictly_sorted(texts(r@)),
                    texts(r@).to_set() == before.union(
                        Set::new(
                            |id: Seq<char>|
                                exists|q: int|
                                    0 <= q < j && change_lit(acts[k as int], q, frame_index, fps)
                                        && #[trigger] acts[k as int].file_changes[q].file_id == id,
                        ),
                    ),
                decreases changes@.len() - j,
            {
                let jj: u128 = j as u128;
                assert(jj * stagger <= 0x1_0000_0000_0000_0000u128 * 0x1_0000_0000u128) by (nonlinear_arith)
                    requires
                        jj <= 0x1_0000_0000_0000_0000u128,
                        stagger <= 0x1_0000_0000u128,
                ;
                let change_start: u128 = start + jj * stagger;
                let lit = change_start <= frame && frame <= change_start + (window as u128);
                assert(lit == change_lit(acts[k as int], j as int, frame_index, fps));
                let ghost prev = texts(r@).to_set();
                let ghost lit_set = Set::new(
                    |id: Seq<char>|
                        exists|q: int|
                            0 <= q < j + 1 && change_lit(acts[k as int], q, frame_index, fps)
                                && #[trigger] acts[k as int].file_changes[q].file_id == id,
                );
                assert(acts[k as int].file_changes[j as int] == changes@[j as int]@);
                if lit {
                    let id = owned(changes[j].file_id().as_str());
                    sorted_insert(&mut r, id);
                }
                assert(texts(r@).to_set() =~= before.union(lit_set)) by {
                    assert forall|x: Seq<char>| #[trigger] texts(r@).to_set().contains(x) <==> before.union(
                        lit_set,
                    ).contains(x) by {
                        if lit_set.contains(x) && x != acts[k as int].file_changes[j as int].file_id {
                            let q = choose|q: int|
                                0 <= q < j + 1 && change_lit(acts[k as int], q, frame_index, fps)
                                    && #[trigger] acts[k as int].file_changes[q].file_id == x;
                            assert(q < j);
                        }
                        if lit_set.contains(x) && x == acts[k as int].file_changes[j as int].file_id && !lit {
                            let q = choose|q: int|
                                0 <= q < j + 1 && change_lit(acts[k as int], q, frame_index, fps)
                                    && #[trigger] acts[k as int].file_changes[q].file_id == x;
                            if q == j {
                                assert(false);
                            }
                        }
                        if prev.contains(x) && !before.contains(x) {
                            let q = choose|q: int|
                                0 <= q < j && change_lit(acts[k as int], q, frame_index, fps)
                                    && #[trigger] acts[k as int].file_changes[q].file_id == x;
                            assert(lit_set.contains(x));
                        }
                    }
                }
                j = j + 1;
            }
            assert(texts(r@).to_set() =~= active_files(acts, k + 1, frame_index, fps)) by {
                assert forall|x: Seq<char>| #[trigger] texts(r@).to_set().contains(x) <==> active_files(
                    acts,
                    k + 1,
                    frame_index,
                    fps,
                ).contains(x) by {
                    if active_files(acts, k + 1, frame_index, fps).contains(x) {
                        let (kk, qq) = choose|kk: int, qq: int|
                            0 <= kk < k + 1 && 0 <= qq < acts[kk].file_changes.len() && change_lit(
                                acts[kk],
                                qq,
                                frame_index,
                                fps,
                            ) && #[trigger] acts[kk].file_changes[qq].file_id == x;
                        if kk < k {
                            assert(active_files(acts, k as int, frame_index, fps).contains(x));
                        } else {
                            assert(acts[k as int].file_changes[qq].file_id == x);
                        }
                    }
                    if before.contains(x) {
                        let (kk, qq) = choose|kk: int, qq: int|
                            0 <= kk < k && 0 <= qq < acts[kk].file_changes.len() && change_lit(
                                acts[kk],
                                qq,
                                frame_index,
                                fps,
                            ) && #[trigger] acts[kk].file_changes[qq].file_id == x;
                        assert(acts[kk].file_changes[qq].file_id == x);
                    }
                    if texts(r@).to_set().contains(x) && !before.contains(x) {
                        let q = choose|q: int|
                            0 <= q < changes@.len() && change_lit(acts[k as int], q, frame_index, fps)
                                && #[trigger] acts[k as int].file_changes[q].file_id == x;
                        assert(acts[k as int].file_changes[q].file_id == x);
                    }
                }
            }
            k = k + 1;
        }
        r
    }

    /// The latest frame at which a File Change of the scene's activities
    /// starts lighting, 0 without any.
    pub fn last_change_frame(&self) -> (r: u128)
        ensures
            r == last_change_start(self@.activities, self@.frames_per_second),
    {
        let ghost acts = self@.activities;
        let ghost fps = self@.frames_per_second;
        let stagger: u128 = (self.frames_per_second / 3) as u128;
        let mut last: u128 = 0;
        let mut k: usize = 0;
        assert(acts.take(0) =~= Seq::<SceneActivityView>::empty());
        while k < self.activities.len()
            invariant
                k <= self.activities@.len(),
                acts == self@.activities,
                acts == crate::scene::activity_views(self.activities@),
                fps == self@.frames_per_second,
                stagger == fps / 3,
                last == last_change_start(acts.take(k as int), fps),
                last <= 0x1_0000_0000_0000_0000u128 + 0x1_0000_0000_0000_0000u128 * 0x1_0000_0000u128,
            decreases self.activities@.len() - k,
        {
            let activity = &self.activities[k];
            assert(acts[k as int] == activity@);
            let start: u128 = activity.playback_frame() as u128;
            let changes = activity.file_changes();
            let count = changes.len();
            assert(count == acts[k as int].file_changes.len()) by {
                assert(crate::scene::scene_file_change_views(changes@) == acts[k as int].file_changes);
            }
            let here: u128 = if count == 0 {
                start
            } else {
                let n: u128 = (count - 1) as u128;
                assert(n * stagger <= 0x1_0000_0000_0000_0000u128 * 0x1_0000_0000u128) by (nonlinear_arith)
                    requires
                        n <= 0x1_0000_0000_0000_0000u128,
                        stagger <= 0x1_0000_0000u128,
                ;
                start + n * stagger
            };
            assert(acts.take(k + 1).drop_last() =~= acts.take(k as int));
            assert(acts.take(k + 1).last() == acts[k as int]);
            if here > last {
                last = here;
            }
            k = k + 1;
        }
        assert(acts.take(acts.len() as int) =~= acts);
        last
    }

    /// The number of frames that show every File Change start: one past
    /// the latest.
    pub fn frame_count(&self) -> (r: FrameCount)
        requires
            last_change_start(self@.activities, self@.frames_per_second) < u64::MAX,
        ensures
            r@ == last_change_start(self@.activities, self@.frames_per_second) + 1,
    {
        let last = self.last_change_frame();
        FrameCount::new((last + 1) as u64)
    }
}

/// The latest frame at which a File Change of the active Commit Events
/// `es` starts: the k-th starts its activity at k times the frame rate, and
/// its File Changes follow one another by `change_offset`.
pub open spec fn events_last_change_start(inc: Seq<Seq<char>>, es: Seq<CommitEventView>, frames_per_second: u32) -> int
    decreases es.len(),
{
    if es.len() == 0 {
        0
    } else {
        let rest = events_last_change_start(inc, es.drop_last(), frames_per_second);
        let n = crate::scene::keep_visible(inc, es.last().file_changes).len() as int;
        let here = (es.len() - 1) * frames_per_second + (if n == 0 {
            0
        } else {
            change_offset(n - 1, frames_per_second)
        });
        if here > rest {
            here
        } else {
            rest
        }
    }
}

/// The number of frames a Video Export renders: one past the latest frame
/// at which a File Change of an active Commit Event starts.
pub open spec fn export_frame_count(rv: RepositoryReplayView, cv: RenderConfigurationView) -> int {
    let inc = cv.included_paths;
    events_last_change_start(inc, active_events(inc, rv.commit_events), cv.frames_per_second) + 1
}

/// The latest File Change start of the first `m` activities of a scene.
proof fn lemma_last_change_start_of_scene(
    acts: Seq<SceneActivityView>,
    inc: Seq<Seq<char>>,
    active: Seq<CommitEventView>,
    fps: u32,
    m: int,
)
    requires
        0 <= m <= acts.len(),
        acts.len() == active.len(),
        acts.len() == 0 || (acts.len() - 1) * fps <= u64::MAX,
        forall|k: int| 0 <= k < acts.len() ==> #[trigger] acts[k] == activity_view(inc, active[k], (k * fps) as u64),
    ensures
        last_change_start(acts.take(m), fps) == events_last_change_start(inc, active.take(m), fps),
    decreases m,
{
    if m > 0 {
        lemma_last_change_start_of_scene(acts, inc, active, fps, m - 1);
        assert(acts.take(m).drop_last() =~= acts.take(m - 1));
        assert(active.take(m).drop_last() =~= active.take(m - 1));
        assert(acts.take(m).last() == acts[m - 1]);
        assert(active.take(m).last() == active[m - 1]);
        let n = acts.len() as int;
        let f = fps as int;
        assert(0 <= (m - 1) * f <= (n - 1) * f) by (nonlinear_arith)
            requires
                1 <= m <= n,
                f >= 0,
        ;
        assert(acts[m - 1] == activity_view(inc, active[m - 1], ((m - 1) * fps) as u64));
        assert(acts[m - 1].file_changes.len() == crate::scene::keep_visible(inc, active[m - 1].file_changes).len());
    }
}

/// The export frame count is one past the latest File Change start of the
/// scene.
proof fn lemma_export_frame_count(s: RepositoryGraphSceneView, rv: RepositoryReplayView, cv: RenderConfigurationView)
    requires
        scene_of(s, rv, cv),
        scene_fits(rv, cv),
    ensures
        export_frame_count(rv, cv) == last_change_start(s.activities, s.frames_per_second) + 1,
{
    let inc = cv.included_paths;
    let active = active_events(inc, rv.commit_events);
    let acts = s.activities;
    let fps = cv.frames_per_second;
    assert forall|k: int| 0 <= k < acts.len() implies #[trigger] acts[k] == activity_view(inc, active[k], (k * fps) as u64) by {
    }
    lemma_last_change_start_of_scene(acts, inc, active, fps, acts.len() as int);
    assert(acts.take(acts.len() as int) =~= acts);
    assert(active.take(active.len() as int) =~= active);
}

/// The number of frames a Video Export of `plan` renders: one past the
/// latest frame at which a File Change of its scene starts; `None` when
/// the scene does not fit its integers or the count does not fit in `u64`.
pub fn render_frame_count(plan: &RenderPlan) -> (r: Option<FrameCount>)
    ensures
        r is Some <==> scene_fits(plan@.0, plan@.1) && export_frame_count(plan@.0, plan@.1) <= u64::MAX,
        r matches Some(c) ==> c@ == export_frame_count(plan@.0, plan@.1),
{
    let scene = match RepositoryGraphScene::try_from_replay(plan.replay(), plan.configuration()) {
        Some(scene) => scene,
        None => {
            return None;
        },
    };
    proof {
        lemma_export_frame_count(scene@, plan@.0, plan@.1);
    }
    if scene.last_change_frame() >= u64::MAX as u128 {
        return None;
    }
    Some(scene.frame_count())
}

/// Only one Commit Event is the first active one with a given key.
proof fn lemma_first_with_key_unique(
    inc: Seq<Seq<char>>,
    es: Seq<crate::domain::CommitEventView>,
    key: Seq<char>,
    w1: int,
    w2: int,
)
    requires
        is_first_with_key(inc, es, key, w1),
        is_first_with_key(inc, es, key, w2),
    ensures
        w1 == w2,
{
    if w1 < w2 {
        assert(crate::scene::is_active(inc, es[w1]));
    } else if w2 < w1 {
        assert(crate::scene::is_active(inc, es[w2]));
    }
}

/// A Repository Graph scene is determined by its replay and configuration:
/// any two scenes of the same replay under the same configuration are
/// equal, so building a scene twice gives the same scene.
pub proof fn lemma_scene_is_deterministic(
    a: RepositoryGraphSceneView,
    b: RepositoryGraphSceneView,
    rv: RepositoryReplayView,
    cv: RenderConfigurationView,
)
    requires
        scene_of(a, rv, cv),
        scene_of(b, rv, cv),
    ensures
        a == b,
{
    let inc = cv.included_paths;
    let es = rv.commit_events;
    let spacing = cv.layout.spacing_value() as int;
    let files = scene_file_paths(inc, rv);
    lemma_sorted_unique(contributor_ids(a.contributors), contributor_ids(b.contributors));
    assert(a.contributors.len() == b.contributors.len()) by {
        assert(contributor_ids(a.contributors).len() == contributor_ids(b.contributors).len());
    }
    assert forall|k: int| 0 <= k < a.contributors.len() implies a.contributors[k] == b.contributors[k] by {
        assert(contributor_ids(a.contributors)[k] == contributor_ids(b.contributors)[k]);
        let ca = a.contributors[k];
        let cb = b.contributors[k];
        assert(seed_from_first(inc, es, ca.id, (ca.display_name, ca.kind), es.len() as int));
        assert(seed_from_first(inc, es, cb.id, (cb.display_name, cb.kind), es.len() as int));
        let wa = choose|w: int|
            #[trigger] is_first_with_key(inc, es, ca.id, w) && w < es.len() && ca.display_name == es[w].contributor.display_name
                && ca.kind == es[w].contributor.kind;
        let wb = choose|w: int|
            #[trigger] is_first_with_key(inc, es, cb.id, w) && w < es.len() && cb.display_name == es[w].contributor.display_name
                && cb.kind == es[w].contributor.kind;
        lemma_first_with_key_unique(inc, es, ca.id, wa, wb);
    }
    assert(a.contributors =~= b.contributors);
    lemma_sorted_unique(directory_path_texts(a.directories), directory_path_texts(b.directories));
    assert(a.directories.len() == b.directories.len()) by {
        assert(directory_path_texts(a.directories).len() == directory_path_texts(b.directories).len());
    }
    assert forall|k: int| 0 <= k < a.directories.len() implies a.directories[k] == b.directories[k] by {
        assert(directory_path_texts(a.directories)[k] == directory_path_texts(b.directories)[k]);
        assert(a.directories[k].id == a.directories[k].path);
        assert(b.directories[k].id == b.directories[k].path);
    }
    assert(a.directories =~= b.directories);
    lemma_sorted_unique(file_path_texts(a.files), file_path_texts(b.files));
    assert(a.files.len() == b.files.len()) by {
        assert(file_path_texts(a.files).len() == file_path_texts(b.files).len());
    }
    assert forall|k: int| 0 <= k < a.files.len() implies a.files[k] == b.files[k] by {
        assert(file_path_texts(a.files)[k] == file_path_texts(b.files)[k]);
        assert(a.files[k].id == a.files[k].path);
        assert(b.files[k].id == b.files[k].path);
    }
    assert(a.files =~= b.files);
    lemma_sorted_unique(summary_path_texts(a.visual_summaries), summary_path_texts(b.visual_summaries));
    assert(a.visual_summaries.len() == b.visual_summaries.len()) by {
        assert(summary_path_texts(a.visual_summaries).len() == summary_path_texts(b.visual_summaries).len());
    }
    assert forall|k: int| 0 <= k < a.visual_summaries.len() implies a.visual_summaries[k] == b.visual_summaries[k] by {
        assert(summary_path_texts(a.visual_summaries)[k] == summary_path_texts(b.visual_summaries)[k]);
        let va = a.visual_summaries[k];
        let vb = b.visual_summaries[k];
        assert(summary_matches(va, inc, es, files, k, spacing));
        assert(summary_matches(vb, inc, es, files, k, spacing));
        lemma_sorted_unique(va.represented_file_ids, vb.represented_file_ids);
    }
    assert(a.visual_summaries =~= b.visual_summaries);
    assert(a.activities =~= b.activities);
}

/// The File Changes of a sequence that pass the filter all pass it.
proof fn lemma_keep_visible_passes(inc: Seq<Seq<char>>, s: Seq<crate::domain::FileChangeView>)
    ensures
        forall|j: int|
            0 <= j < crate::scene::keep_visible(inc, s).len() ==> crate::config::filter_includes_change(
                inc,
                #[trigger] crate::scene::keep_visible(inc, s)[j],
            ),
    decreases s.len(),
{
    if s.len() > 0 {
        lemma_keep_visible_passes(inc, s.drop_last());
        let rest = crate::scene::keep_visible(inc, s.drop_last());
        assert forall|j: int|
            0 <= j < crate::scene::keep_visible(inc, s).len() implies crate::config::filter_includes_change(
                inc,
                #[trigger] crate::scene::keep_visible(inc, s)[j],
            ) by {
            if j < rest.len() {
                assert(crate::scene::keep_visible(inc, s)[j] == rest[j]);
            }
        }
    }
}

/// The explicit path filter scopes every activity: each File Change an
/// activity shows touches a path the filter includes, as its entity or as
/// the entity it moved from.
pub proof fn lemma_activity_changes_pass_filter(
    s: RepositoryGraphSceneView,
    rv: RepositoryReplayView,
    cv: RenderConfigurationView,
    k: int,
    j: int,
)
    requires
        scene_of(s, rv, cv),
        0 <= k < s.activities.len(),
        0 <= j < s.activities[k].file_changes.len(),
    ensures
        crate::config::filter_includes(cv.included_paths, s.activities[k].file_changes[j].file_id) || (
        s.activities[k].file_changes[j].previous_file_id matches Some(p) && crate::config::filter_includes(
            cv.included_paths,
            p,
        )),
{
    let inc = cv.included_paths;
    let active = active_events(inc, rv.commit_events);
    let e = active[k];
    assert(s.activities[k] == activity_view(inc, e, (k * cv.frames_per_second) as u64));
    lemma_keep_visible_passes(inc, e.file_changes);
    let c = crate::scene::keep_visible(inc, e.file_changes)[j];
    assert(crate::config::filter_includes_change(inc, c));
}

/// Lockfiles and generated, target, vendor and dependency paths are shown
/// with less emphasis but never left out: every path of the scene is a
/// scene file, de-emphasized exactly when it is such a path.
pub proof fn lemma_de_emphasis_keeps_files(
    s: RepositoryGraphSceneView,
    rv: RepositoryReplayView,
    cv: RenderConfigurationView,
    path: Seq<char>,
)
    requires
        scene_of(s, rv, cv),
        scene_file_paths(cv.included_paths, rv).contains(path),
    ensures
        exists|k: int|
            0 <= k < s.files.len() && (#[trigger] s.files[k]).path == path && (s.files[k].emphasis
                == SceneEmphasis::DeEmphasized <==> crate::paths::is_reduced_emphasis_path(path)),
{
    assert(file_path_texts(s.files).to_set().contains(path));
    let k = file_path_texts(s.files).index_of(path);
    assert(s.files[k].path == path);
    assert(s.files[k].id == s.files[k].path);
}

/// A Visual Summary stands in for the files of a dense directory without
/// dropping them: every file it represents is still a scene file lying
/// directly in the summary's directory, the summary counts each of them, and
/// its activity is the number of File Changes that touch them.
pub proof fn lemma_summaries_keep_files(
    s: RepositoryGraphSceneView,
    rv: RepositoryReplayView,
    cv: RenderConfigurationView,
    k: int,
    j: int,
)
    requires
        scene_of(s, rv, cv),
        0 <= k < s.visual_summaries.len(),
        0 <= j < s.visual_summaries[k].represented_file_ids.len(),
    ensures
        s.visual_summaries[k].represented_entity_count == s.visual_summaries[k].represented_file_ids.len(),
        s.visual_summaries[k].activity_count == crate::scene::count_touching(
            cv.included_paths,
            rv.commit_events,
            crate::scene::in_directory(scene_file_paths(cv.included_paths, rv), s.visual_summaries[k].path),
        ),
        exists|m: int|
            0 <= m < s.files.len() && (#[trigger] s.files[m]).id == s.visual_summaries[k].represented_file_ids[j]
                && s.files[m].parent_directory_id == Some(s.visual_summaries[k].path),
{
    let files = scene_file_paths(cv.included_paths, rv);
    let v = s.visual_summaries[k];
    assert(summary_matches(v, cv.included_paths, rv.commit_events, files, k, cv.layout.spacing_value() as int));
    let f = v.represented_file_ids[j];
    assert(v.represented_file_ids.to_set().contains(f));
    assert(crate::scene::in_directory(files, v.path).contains(f));
    assert(file_path_texts(s.files).to_set().contains(f));
    let m = file_path_texts(s.files).index_of(f);
    assert(s.files[m].path == f);
    assert(s.files[m].id == s.files[m].path);
}

/// Activities start in replay order: with a positive frame rate each
/// starts later than the one before it.
pub proof fn lemma_activities_start_in_order(
    s: RepositoryGraphSceneView,
    rv: RepositoryReplayView,
    cv: RenderConfigurationView,
    k1: int,
    k2: int,
)
    requires
        scene_of(s, rv, cv),
        scene_fits(rv, cv),
        cv.frames_per_second > 0,
        0 <= k1 < k2 < s.activities.len(),
    ensures
        s.activities[k1].playback_frame < s.activities[k2].playback_frame,
{
    let fps = cv.frames_per_second as int;
    let n = s.activities.len() as int;
    assert(s.activities[k1].playback_frame == (k1 * cv.frames_per_second) as u64);
    assert(s.activities[k2].playback_frame == (k2 * cv.frames_per_second) as u64);
    assert(k1 * fps < k2 * fps) by (nonlinear_arith)
        requires
            k1 < k2,
            fps > 0,
    ;
    assert(k2 * fps <= (n - 1) * fps) by (nonlinear_arith)
        requires
            k2 <= n - 1,
            fps > 0,
    ;
    assert(0 <= k1 * fps) by (nonlinear_arith)
        requires
            k1 >= 0,
            fps > 0,
    ;
}

} // verus!
