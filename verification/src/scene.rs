//! Render-ready Repository Graph scene data built from a Repository Replay.

use vstd::prelude::*;

use crate::config::{
    filter_includes, filter_includes_change, path_in_scope, string_texts, ExplicitPathFilter,
    RenderConfiguration, RenderConfigurationView,
};
use crate::domain::{
    commit_event_views, competing_change_views, BranchFlow, BranchFlowView, CommitEvent,
    CommitEventView, CompetingChange, CompetingChangeConfidence, CompetingChangeSource,
    CompetingChangeView, ContributorKind, FileChange, FileChangeKind, FileChangeView,
    MergeSettlementView, RepositoryReplay, RepositoryReplayView,
};
use crate::paths::{
    lemma_nth_parent_none, lemma_parent_shorter, nth_parent,
    has_component, is_directory_of, is_reduced_emphasis_path, parent_directory_path, parent_text,
};
use crate::text::{
    chars_of, concat, insert_absent, owned, seq_lt, sorted_insert, sorted_position,
    strictly_sorted, text_eq, texts,
};

verus! {

/// Deterministic scene-space position.
#[derive(Debug, Clone, Copy, PartialEq, Eq)]
pub struct ScenePosition {
    x: i32,
    y: i32,
}

impl View for ScenePosition {
    type V = (i32, i32);

    closed spec fn view(&self) -> (i32, i32) {
        (self.x, self.y)
    }
}

/// The position of the entity at `index` in layout row `row`.
pub open spec fn grid_position(index: int, row: int, spacing: int) -> (int, int) {
    (index * spacing, row * spacing)
}

impl ScenePosition {
    pub(crate) fn new(index: usize, row: i32, spacing: i32) -> (r: Self)
        requires
            index <= i32::MAX,
            0 <= row,
            0 <= spacing,
            index * spacing <= i32::MAX,
            row * spacing <= i32::MAX,
        ensures
            r@.0 == index * spacing,
            r@.1 == row * spacing,
    {
        proof {
            vstd::arithmetic::mul::lemma_mul_nonnegative(index as int, spacing as int);
            vstd::arithmetic::mul::lemma_mul_nonnegative(row as int, spacing as int);
        }
        ScenePosition { x: (index as i32) * spacing, y: row * spacing }
    }

    /// Returns the deterministic x coordinate.
    pub fn x(self) -> (r: i32)
        ensures
            r == self@.0,
    {
        self.x
    }

    /// Returns the deterministic y coordinate.
    pub fn y(self) -> (r: i32)
        ensures
            r == self@.1,
    {
        self.y
    }
}

/// Output frame dimensions copied into render-ready scene data.
#[derive(Debug, Clone, Copy, PartialEq, Eq)]
pub struct SceneFrameSize {
    width: u32,
    height: u32,
}

impl View for SceneFrameSize {
    type V = (u32, u32);

    closed spec fn view(&self) -> (u32, u32) {
        (self.width, self.height)
    }
}

impl SceneFrameSize {
    pub(crate) fn new(width: u32, height: u32) -> (r: Self)
        ensures
            r@ == (width, height),
    {
        SceneFrameSize { width, height }
    }

    /// Returns the scene frame width in pixels.
    pub fn width(self) -> (r: u32)
        ensures
            r == self@.0,
    {
        self.width
    }

    /// Returns the scene frame height in pixels.
    pub fn height(self) -> (r: u32)
        ensures
            r == self@.1,
    {
        self.height
    }
}

/// A stable scene identifier for a Contributor.
#[derive(Debug, Clone, PartialEq, Eq, PartialOrd, Ord)]
pub struct ContributorSceneId(String);

impl View for ContributorSceneId {
    type V = Seq<char>;

    closed spec fn view(&self) -> Seq<char> {
        self.0@
    }
}

impl ContributorSceneId {
    /// Wraps an identifier text.
    pub(crate) fn from_string(text: String) -> (r: Self)
        ensures
            r@ == text@,
    {
        ContributorSceneId(text)
    }

    /// Returns the stable Contributor scene identifier.
    pub fn as_str(&self) -> (r: &str)
        ensures
            r@ == self@,
    {
        self.0.as_str()
    }
}

/// A stable scene identifier for a directory Repository Entity.
#[derive(Debug, Clone, PartialEq, Eq, PartialOrd, Ord)]
pub struct DirectorySceneId(String);

impl View for DirectorySceneId {
    type V = Seq<char>;

    closed spec fn view(&self) -> Seq<char> {
        self.0@
    }
}

impl DirectorySceneId {
    /// Wraps an identifier text.
    pub(crate) fn from_string(text: String) -> (r: Self)
        ensures
            r@ == text@,
    {
        DirectorySceneId(text)
    }

    /// Returns the stable directory scene identifier.
    pub fn as_str(&self) -> (r: &str)
        ensures
            r@ == self@,
    {
        self.0.as_str()
    }
}

/// A stable scene identifier for a file Repository Entity.
#[derive(Debug, Clone, PartialEq, Eq, PartialOrd, Ord)]
pub struct FileSceneId(String);

impl View for FileSceneId {
    type V = Seq<char>;

    closed spec fn view(&self) -> Seq<char> {
        self.0@
    }
}

impl FileSceneId {
    /// Wraps an identifier text.
    pub(crate) fn from_string(text: String) -> (r: Self)
        ensures
            r@ == text@,
    {
        FileSceneId(text)
    }

    /// Returns the stable file scene identifier.
    pub fn as_str(&self) -> (r: &str)
        ensures
            r@ == self@,
    {
        self.0.as_str()
    }
}

/// The texts of a sequence of file scene identifiers.
pub open spec fn file_id_texts(s: Seq<FileSceneId>) -> Seq<Seq<char>> {
    s.map_values(|id: FileSceneId| id@)
}

/// A stable scene identifier for a Commit Event.
#[derive(Debug, Clone, PartialEq, Eq, PartialOrd, Ord)]
pub struct CommitSceneId(String);

impl View for CommitSceneId {
    type V = Seq<char>;

    closed spec fn view(&self) -> Seq<char> {
        self.0@
    }
}

impl CommitSceneId {
    /// Returns the stable Commit Event scene identifier.
    pub fn as_str(&self) -> (r: &str)
        ensures
            r@ == self@,
    {
        self.0.as_str()
    }
}

/// The texts of a sequence of commit scene identifiers.
pub open spec fn commit_scene_id_texts(s: Seq<CommitSceneId>) -> Seq<Seq<char>> {
    s.map_values(|id: CommitSceneId| id@)
}

/// A stable scene identifier for a Visual Summary.
#[derive(Debug, Clone, PartialEq, Eq, PartialOrd, Ord)]
pub struct VisualSummarySceneId(String);

impl View for VisualSummarySceneId {
    type V = Seq<char>;

    closed spec fn view(&self) -> Seq<char> {
        self.0@
    }
}

impl VisualSummarySceneId {
    /// Returns the stable Visual Summary scene identifier.
    pub fn as_str(&self) -> (r: &str)
        ensures
            r@ == self@,
    {
        self.0.as_str()
    }
}

/// Visual weight for a Visual Summary.
#[derive(Debug, Clone, Copy, PartialEq, Eq)]
pub struct VisualSummaryWeight(usize);

impl View for VisualSummaryWeight {
    type V = usize;

    closed spec fn view(&self) -> usize {
        self.0
    }
}

impl VisualSummaryWeight {
    /// Returns the preserved activity weight.
    pub fn get(self) -> (r: usize)
        ensures
            r == self@,
    {
        self.0
    }
}

/// Scene-level visual emphasis for Repository Entities.
#[derive(Debug, Clone, Copy, PartialEq, Eq)]
pub enum SceneEmphasis {
    /// Normal visual weight.
    Normal,
    /// Lower visual weight while preserving the Repository Entity in scene data.
    DeEmphasized,
}

/// The emphasis a path is shown with.
pub open spec fn emphasis_of(path: Seq<char>) -> SceneEmphasis {
    if is_reduced_emphasis_path(path) {
        SceneEmphasis::DeEmphasized
    } else {
        SceneEmphasis::Normal
    }
}

/// Decides whether `name` is a whole component of the path `p`.
fn component_present(p: &Vec<char>, name: &Vec<char>) -> (r: bool)
    ensures
        r == has_component(p@, name@),
{
    if name.len() > p.len() {
        return false;
    }
    let last = p.len() - name.len();
    let mut i: usize = 0;
    while i <= last
        invariant
            last == p.len() - name.len(),
            name.len() <= p.len(),
            forall|s: int|
                0 <= s < i ==> !(#[trigger] p@.subrange(s, s + name.len()) == name@ && (s == 0
                    || p@[s - 1] == '/') && (s + name.len() == p.len() || p@[s + name.len()]
                    == '/')),
        decreases last + 1 - i,
    {
        let mut same = true;
        let mut j: usize = 0;
        while j < name.len()
            invariant
                i <= last,
                last == p.len() - name.len(),
                j <= name.len(),
                same == (forall|k: int| 0 <= k < j ==> p@[i + k] == name@[k]),
            decreases name.len() - j,
        {
            if p[i + j] != name[j] {
                same = false;
            }
            j = j + 1;
        }
        let before_ok = i == 0 || p[i - 1] == '/';
        let after_ok = i + name.len() == p.len() || p[i + name.len()] == '/';
        if same {
            assert(p@.subrange(i as int, i + name.len()) =~= name@);
        } else {
            assert(p@.subrange(i as int, i + name.len()) != name@) by {
                let k = choose|k: int| 0 <= k < name.len() && p@[i + k] != name@[k];
                assert(p@.subrange(i as int, i + name.len())[k] == p@[i + k]);
            }
        }
        if same && before_ok && after_ok {
            return true;
        }
        if i == last {
            return false;
        }
        i = i + 1;
    }
    false
}

impl SceneEmphasis {
    /// Lockfiles, and paths inside a `generated`, `target`, `vendor` or
    /// `node_modules` directory, are de-emphasized; other paths are normal.
    pub fn from_path(path: &str) -> (r: Self)
        ensures
            r == emphasis_of(path@),
    {
        let p = chars_of(path);
        let cargo_lock = chars_of("Cargo.lock");
        let package_lock = chars_of("package-lock.json");
        let generated = chars_of("generated");
        let target = chars_of("target");
        let vendor = chars_of("vendor");
        let node_modules = chars_of("node_modules");
        let reduced = text_eq(path, "Cargo.lock") || text_eq(path, "package-lock.json")
            || component_present(&p, &generated) || component_present(&p, &target)
            || component_present(&p, &vendor) || component_present(&p, &node_modules);
        if reduced {
            SceneEmphasis::DeEmphasized
        } else {
            SceneEmphasis::Normal
        }
    }
}

/// Basic scene motion state.
#[derive(Debug, Clone, Copy, PartialEq, Eq)]
pub enum MotionState {
    /// Repository Entity has settled into the main Repository Graph.
    Settled,
    /// Repository Entity is provisional branch work before Merge Settlement.
    Provisional,
    /// Repository Entity is settling from branch work into the Mainline.
    Settling,
}

/// The motion that a branch flow gives its File Changes.
pub open spec fn motion_of(flow: BranchFlowView) -> MotionState {
    match flow {
        BranchFlowView::Mainline => MotionState::Settled,
        BranchFlowView::BranchSuperposition { .. } => MotionState::Provisional,
        BranchFlowView::MergeSettlements(_) => MotionState::Settling,
    }
}

impl MotionState {
    /// Mainline work is settled, branch work provisional, merge settlements
    /// settling.
    pub fn from_branch_flow(flow: &BranchFlow) -> (r: Self)
        ensures
            r == motion_of(flow@),
    {
        match flow {
            BranchFlow::Mainline => MotionState::Settled,
            BranchFlow::BranchSuperposition { .. } => MotionState::Provisional,
            BranchFlow::MergeSettlements(_) => MotionState::Settling,
        }
    }
}


/// What a render-ready File Change says.
pub struct SceneFileChangeView {
    pub file_id: Seq<char>,
    pub previous_file_id: Option<Seq<char>>,
    pub kind: FileChangeKind,
    pub motion: MotionState,
}

/// The render-ready form of a File Change moving with `motion`.
pub open spec fn scene_file_change_view(c: FileChangeView, motion: MotionState) -> SceneFileChangeView {
    SceneFileChangeView {
        file_id: c.entity,
        previous_file_id: c.previous_entity,
        kind: c.kind,
        motion,
    }
}

/// Render-ready File Change activity.
#[derive(Debug, Clone, PartialEq, Eq)]
pub struct SceneFileChange {
    file_id: FileSceneId,
    previous_file_id: Option<FileSceneId>,
    kind: FileChangeKind,
    motion: MotionState,
}

impl View for SceneFileChange {
    type V = SceneFileChangeView;

    closed spec fn view(&self) -> SceneFileChangeView {
        SceneFileChangeView {
            file_id: self.file_id@,
            previous_file_id: match self.previous_file_id {
                Some(id) => Some(id@),
                None => None,
            },
            kind: self.kind,
            motion: self.motion,
        }
    }
}

impl SceneFileChange {
    /// Builds the render-ready form of a File Change.
    pub fn from_file_change(file_change: &FileChange, motion: MotionState) -> (r: Self)
        ensures
            r@ == scene_file_change_view(file_change@, motion),
    {
        SceneFileChange {
            file_id: FileSceneId(file_change.entity().path().clone()),
            previous_file_id: match file_change.previous_entity() {
                Some(entity) => Some(FileSceneId(entity.path().clone())),
                None => None,
            },
            kind: *file_change.kind(),
            motion,
        }
    }

    /// Returns the file affected by this File Change.
    pub fn file_id(&self) -> (r: &FileSceneId)
        ensures
            r@ == self@.file_id,
    {
        &self.file_id
    }

    /// Returns the previous file identifier for moved File Changes.
    pub fn previous_file_id(&self) -> (r: Option<&FileSceneId>)
        ensures
            r.is_some() == self@.previous_file_id.is_some(),
            r matches Some(id) ==> id@ == self@.previous_file_id.unwrap(),
    {
        match &self.previous_file_id {
            Some(id) => Some(id),
            None => None,
        }
    }

    /// Returns the File Change kind.
    pub fn kind(&self) -> (r: FileChangeKind)
        ensures
            r == self@.kind,
    {
        self.kind
    }

    /// Returns the motion state for this File Change.
    pub fn motion(&self) -> (r: MotionState)
        ensures
            r == self@.motion,
    {
        self.motion
    }
}

/// The views of a sequence of render-ready File Changes.
pub open spec fn scene_file_change_views(s: Seq<SceneFileChange>) -> Seq<SceneFileChangeView> {
    s.map_values(|c: SceneFileChange| c@)
}

/// Render-ready Merge Settlement activity.
#[derive(Debug, Clone, PartialEq, Eq)]
pub struct SceneMergeSettlement {
    branch: String,
    mainline: String,
    settled_commit_ids: Vec<CommitSceneId>,
}

impl View for SceneMergeSettlement {
    type V = MergeSettlementView;

    closed spec fn view(&self) -> MergeSettlementView {
        MergeSettlementView {
            branch: self.branch@,
            mainline: self.mainline@,
            settled_commit_ids: commit_scene_id_texts(self.settled_commit_ids@),
        }
    }
}

impl SceneMergeSettlement {
    /// Returns the branch being settled.
    pub fn branch(&self) -> (r: &str)
        ensures
            r@ == self@.branch,
    {
        self.branch.as_str()
    }

    /// Returns the Mainline receiving the settled branch work.
    pub fn mainline(&self) -> (r: &str)
        ensures
            r@ == self@.mainline,
    {
        self.mainline.as_str()
    }

    /// Returns settled Commit Event identifiers.
    pub fn settled_commit_ids(&self) -> (r: &[CommitSceneId])
        ensures
            commit_scene_id_texts(r@) == self@.settled_commit_ids,
    {
        self.settled_commit_ids.as_slice()
    }
}

/// The views of a sequence of render-ready Merge Settlements.
pub open spec fn scene_settlement_views(s: Seq<SceneMergeSettlement>) -> Seq<MergeSettlementView> {
    s.map_values(|m: SceneMergeSettlement| m@)
}

/// Branch-flow state preserved for scene activity.
#[derive(Debug, Clone, PartialEq, Eq)]
pub enum SceneBranchActivity {
    /// Activity belongs to the Mainline.
    Mainline,
    /// Activity is provisional branch work relative to the Mainline.
    BranchSuperposition { branch: String, mainline: String },
    /// Activity settles provisional branch work into the Mainline.
    MergeSettlements(Vec<SceneMergeSettlement>),
}

impl View for SceneBranchActivity {
    type V = BranchFlowView;

    open spec fn view(&self) -> BranchFlowView {
        match self {
            SceneBranchActivity::Mainline => BranchFlowView::Mainline,
            SceneBranchActivity::BranchSuperposition { branch, mainline } => {
                BranchFlowView::BranchSuperposition { branch: branch@, mainline: mainline@ }
            },
            SceneBranchActivity::MergeSettlements(settlements) => BranchFlowView::MergeSettlements(
                scene_settlement_views(settlements@),
            ),
        }
    }
}

impl SceneBranchActivity {
    /// Carries a Commit Event's branch flow into the scene: the scene
    /// activity says exactly what the branch flow says.
    pub fn from_branch_flow(flow: &BranchFlow) -> (r: Self)
        ensures
            r@ == flow@,
    {
        match flow {
            BranchFlow::Mainline => SceneBranchActivity::Mainline,
            BranchFlow::BranchSuperposition { branch, mainline } => {
                SceneBranchActivity::BranchSuperposition {
                    branch: branch.clone(),
                    mainline: owned(mainline.as_str()),
                }
            },
            BranchFlow::MergeSettlements(settlements) => {
                let mut r: Vec<SceneMergeSettlement> = Vec::new();
                for i in 0..settlements.len()
                    invariant
                        r@.len() == i,
                        forall|k: int| 0 <= k < i ==> #[trigger] r@[k]@ == settlements@[k]@,
                {
                    let settlement = &settlements[i];
                    let ids = settlement.settled_commit_ids();
                    let mut scene_ids: Vec<CommitSceneId> = Vec::new();
                    for j in 0..ids.len()
                        invariant
                            scene_ids@.len() == j,
                            forall|k: int| 0 <= k < j ==> #[trigger] scene_ids@[k]@ == ids@[k]@,
                    {
                        scene_ids.push(CommitSceneId(owned(ids[j].as_str())));
                    }
                    assert(commit_scene_id_texts(scene_ids@) =~= crate::domain::commit_id_texts(
                        ids@,
                    ));
                    r.push(
                        SceneMergeSettlement {
                            branch: owned(settlement.branch()),
                            mainline: owned(settlement.mainline().as_str()),
                            settled_commit_ids: scene_ids,
                        },
                    );
                }
                assert(scene_settlement_views(r@) =~= crate::domain::settlement_views(
                    settlements@,
                ));
                SceneBranchActivity::MergeSettlements(r)
            },
        }
    }
}

/// What a timed scene activity says.
pub struct SceneActivityView {
    pub commit_id: Seq<char>,
    pub playback_frame: u64,
    pub contributor_id: Seq<char>,
    pub branch_activity: BranchFlowView,
    pub file_changes: Seq<SceneFileChangeView>,
}

/// Timed activity derived from one Commit Event.
#[derive(Debug, Clone, PartialEq, Eq)]
pub struct SceneActivity {
    commit_id: CommitSceneId,
    playback_frame: u64,
    contributor_id: ContributorSceneId,
    branch_activity: SceneBranchActivity,
    file_changes: Vec<SceneFileChange>,
}

impl View for SceneActivity {
    type V = SceneActivityView;

    closed spec fn view(&self) -> SceneActivityView {
        SceneActivityView {
            commit_id: self.commit_id@,
            playback_frame: self.playback_frame,
            contributor_id: self.contributor_id@,
            branch_activity: self.branch_activity@,
            file_changes: scene_file_change_views(self.file_changes@),
        }
    }
}

impl SceneActivity {
    /// Returns the Commit Event scene identifier.
    pub fn commit_id(&self) -> (r: &CommitSceneId)
        ensures
            r@ == self@.commit_id,
    {
        &self.commit_id
    }

    /// Returns the playback frame where this activity begins.
    pub fn playback_frame(&self) -> (r: u64)
        ensures
            r == self@.playback_frame,
    {
        self.playback_frame
    }

    /// Returns the Contributor responsible for the activity.
    pub fn contributor_id(&self) -> (r: &ContributorSceneId)
        ensures
            r@ == self@.contributor_id,
    {
        &self.contributor_id
    }

    /// Returns the branch-flow scene activity.
    pub fn branch_activity(&self) -> (r: &SceneBranchActivity)
        ensures
            r@ == self@.branch_activity,
    {
        &self.branch_activity
    }

    /// Returns File Changes for this activity.
    pub fn file_changes(&self) -> (r: &[SceneFileChange])
        ensures
            scene_file_change_views(r@) == self@.file_changes,
    {
        self.file_changes.as_slice()
    }
}

/// The views of a sequence of scene activities.
pub open spec fn activity_views(s: Seq<SceneActivity>) -> Seq<SceneActivityView> {
    s.map_values(|a: SceneActivity| a@)
}

/// Branch evidence for a render-ready Competing Change.
#[derive(Debug, Clone, PartialEq, Eq)]
pub struct SceneCompetingChangeEvidence {
    branch: String,
    commit_id: CommitSceneId,
}

impl View for SceneCompetingChangeEvidence {
    type V = crate::domain::CompetingChangeEvidenceView;

    closed spec fn view(&self) -> crate::domain::CompetingChangeEvidenceView {
        crate::domain::CompetingChangeEvidenceView {
            branch: self.branch@,
            commit_id: self.commit_id@,
        }
    }
}

impl SceneCompetingChangeEvidence {
    /// Returns the branch carrying provisional work.
    pub fn branch(&self) -> (r: &str)
        ensures
            r@ == self@.branch,
    {
        self.branch.as_str()
    }

    /// Returns the Commit Event carrying provisional work.
    pub fn commit_id(&self) -> (r: &CommitSceneId)
        ensures
            r@ == self@.commit_id,
    {
        &self.commit_id
    }
}

/// The views of a sequence of render-ready Competing Change evidence.
pub open spec fn scene_evidence_views(s: Seq<SceneCompetingChangeEvidence>) -> Seq<
    crate::domain::CompetingChangeEvidenceView,
> {
    s.map_values(|e: SceneCompetingChangeEvidence| e@)
}

/// Render-ready Competing Change activity.
#[derive(Debug, Clone, PartialEq, Eq)]
pub struct SceneCompetingChange {
    file_id: FileSceneId,
    source: CompetingChangeSource,
    confidence: CompetingChangeConfidence,
    evidence: Vec<SceneCompetingChangeEvidence>,
}

impl View for SceneCompetingChange {
    type V = CompetingChangeView;

    closed spec fn view(&self) -> CompetingChangeView {
        CompetingChangeView {
            entity: self.file_id@,
            source: self.source,
            confidence: self.confidence,
            evidence: scene_evidence_views(self.evidence@),
        }
    }
}

impl SceneCompetingChange {
    /// Carries a Competing Change into the scene; it says exactly what the
    /// Competing Change says, with the entity path as the file identifier.
    pub fn from_competing_change(competing_change: &CompetingChange) -> (r: Self)
        ensures
            r@ == competing_change@,
    {
        let evidence = competing_change.evidence();
        let mut scene_evidence: Vec<SceneCompetingChangeEvidence> = Vec::new();
        for i in 0..evidence.len()
            invariant
                scene_evidence@.len() == i,
                forall|k: int| 0 <= k < i ==> #[trigger] scene_evidence@[k]@ == evidence@[k]@,
        {
            scene_evidence.push(
                SceneCompetingChangeEvidence {
                    branch: owned(evidence[i].branch()),
                    commit_id: CommitSceneId(owned(evidence[i].commit_id().as_str())),
                },
            );
        }
        assert(scene_evidence_views(scene_evidence@) =~= crate::domain::competing_evidence_views(
            evidence@,
        ));
        SceneCompetingChange {
            file_id: FileSceneId(competing_change.entity().path().clone()),
            source: competing_change.source(),
            confidence: competing_change.confidence(),
            evidence: scene_evidence,
        }
    }

    /// Returns the file with overlapping provisional changes.
    pub fn file_id(&self) -> (r: &FileSceneId)
        ensures
            r@ == self@.entity,
    {
        &self.file_id
    }

    /// Returns how the Competing Change was detected.
    pub fn source(&self) -> (r: CompetingChangeSource)
        ensures
            r == self@.source,
    {
        self.source
    }

    /// Returns the confidence level for this Competing Change.
    pub fn confidence(&self) -> (r: CompetingChangeConfidence)
        ensures
            r == self@.confidence,
    {
        self.confidence
    }

    /// Returns branch evidence for this Competing Change.
    pub fn evidence(&self) -> (r: &[SceneCompetingChangeEvidence])
        ensures
            scene_evidence_views(r@) == self@.evidence,
    {
        self.evidence.as_slice()
    }
}

/// The views of a sequence of render-ready Competing Changes.
pub open spec fn scene_competing_views(s: Seq<SceneCompetingChange>) -> Seq<CompetingChangeView> {
    s.map_values(|c: SceneCompetingChange| c@)
}


/// The File Changes of a sequence that pass the filter, in order.
pub open spec fn keep_visible(inc: Seq<Seq<char>>, s: Seq<FileChangeView>) -> Seq<FileChangeView>
    decreases s.len(),
{
    if s.len() == 0 {
        Seq::empty()
    } else {
        let rest = keep_visible(inc, s.drop_last());
        if filter_includes_change(inc, s.last()) {
            rest.push(s.last())
        } else {
            rest
        }
    }
}

/// A Commit Event takes part in the scene when one of its File Changes
/// passes the filter.
pub open spec fn is_active(inc: Seq<Seq<char>>, e: CommitEventView) -> bool {
    keep_visible(inc, e.file_changes).len() > 0
}

/// The Commit Events that take part in the scene, in replay order.
pub open spec fn active_events(inc: Seq<Seq<char>>, es: Seq<CommitEventView>) -> Seq<CommitEventView>
    decreases es.len(),
{
    if es.len() == 0 {
        Seq::empty()
    } else {
        let rest = active_events(inc, es.drop_last());
        if is_active(inc, es.last()) {
            rest.push(es.last())
        } else {
            rest
        }
    }
}

/// The scene activity of an active Commit Event starting at `frame`.
pub open spec fn activity_view(inc: Seq<Seq<char>>, e: CommitEventView, frame: u64) -> SceneActivityView {
    SceneActivityView {
        commit_id: e.id,
        playback_frame: frame,
        contributor_id: e.contributor.identity_key,
        branch_activity: e.branch_flow,
        file_changes: keep_visible(inc, e.file_changes).map_values(
            |c: FileChangeView| scene_file_change_view(c, motion_of(e.branch_flow)),
        ),
    }
}

/// The Competing Changes whose entity passes the filter, in order.
pub open spec fn kept_competing(inc: Seq<Seq<char>>, cs: Seq<CompetingChangeView>) -> Seq<CompetingChangeView>
    decreases cs.len(),
{
    if cs.len() == 0 {
        Seq::empty()
    } else {
        let rest = kept_competing(inc, cs.drop_last());
        if filter_includes(inc, cs.last().entity) {
            rest.push(cs.last())
        } else {
            rest
        }
    }
}

pub proof fn lemma_keep_visible_nonempty(inc: Seq<Seq<char>>, s: Seq<FileChangeView>)
    ensures
        keep_visible(inc, s).len() > 0 <==> exists|j: int|
            0 <= j < s.len() && filter_includes_change(inc, #[trigger] s[j]),
    decreases s.len(),
{
    if s.len() > 0 {
        lemma_keep_visible_nonempty(inc, s.drop_last());
        if exists|j: int| 0 <= j < s.len() && filter_includes_change(inc, #[trigger] s[j]) {
            let j = choose|j: int| 0 <= j < s.len() && filter_includes_change(inc, #[trigger] s[j]);
            if j < s.len() - 1 {
                assert(s.drop_last()[j] == s[j]);
            }
        }
        if exists|j: int|
            0 <= j < s.drop_last().len() && filter_includes_change(inc, #[trigger] s.drop_last()[j]) {
            let j = choose|j: int|
                0 <= j < s.drop_last().len() && filter_includes_change(
                    inc,
                    #[trigger] s.drop_last()[j],
                );
            assert(s[j] == s.drop_last()[j]);
        }
    }
}

/// The visible File Changes of a Commit Event in render-ready form.
fn visible_scene_changes(filter: &ExplicitPathFilter, event: &CommitEvent) -> (r: Vec<SceneFileChange>)
    ensures
        scene_file_change_views(r@) == keep_visible(filter@, event@.file_changes).map_values(
            |c: FileChangeView| scene_file_change_view(c, motion_of(event@.branch_flow)),
        ),
{
    let motion = MotionState::from_branch_flow(event.branch_flow());
    let changes = event.file_changes();
    let ghost cs = event@.file_changes;
    let ghost f = |c: FileChangeView| scene_file_change_view(c, motion);
    let mut r: Vec<SceneFileChange> = Vec::new();
    for i in 0..changes.len()
        invariant
            cs == crate::domain::file_change_views(changes@),
            motion == motion_of(event@.branch_flow),
            f == (|c: FileChangeView| scene_file_change_view(c, motion)),
            scene_file_change_views(r@) == keep_visible(filter@, cs.take(i as int)).map_values(f),
    {
        let ghost before = r@;
        assert(cs.take(i + 1).drop_last() =~= cs.take(i as int));
        assert(cs.take(i + 1).last() == changes@[i as int]@);
        if filter.includes_file_change(&changes[i]) {
            let change = SceneFileChange::from_file_change(&changes[i], motion);
            r.push(change);
            assert(scene_file_change_views(r@) =~= scene_file_change_views(before).push(change@));
            assert(keep_visible(filter@, cs.take(i + 1)) == keep_visible(
                filter@,
                cs.take(i as int),
            ).push(changes@[i as int]@));
            assert(keep_visible(filter@, cs.take(i + 1)).map_values(f) =~= keep_visible(
                filter@,
                cs.take(i as int),
            ).map_values(f).push(f(changes@[i as int]@)));
        }
    }
    assert(cs.take(changes.len() as int) =~= cs);
    r
}

/// Playback activities of the active Commit Events, one every
/// frames-per-second frames; `None` when a start frame would overflow.
pub(crate) fn build_activities(replay: &RepositoryReplay, filter: &ExplicitPathFilter, frames_per_second: u32) -> (r: Option<Vec<SceneActivity>>)
    ensures
        r is None <==> active_events(filter@, replay@.commit_events).len() > 0 && (active_events(
            filter@,
            replay@.commit_events,
        ).len() - 1) * frames_per_second > u64::MAX,
        r matches Some(v) ==> {
            let active = active_events(filter@, replay@.commit_events);
            &&& v@.len() == active.len()
            &&& forall|k: int|
                0 <= k < v@.len() ==> #[trigger] v@[k]@ == activity_view(
                    filter@,
                    active[k],
                    (k * frames_per_second) as u64,
                )
        },
{
    let events = replay.commit_events();
    let ghost es = replay@.commit_events;
    let mut r: Vec<SceneActivity> = Vec::new();
    for i in 0..events.len()
        invariant
            es == commit_event_views(events@),
            es == replay@.commit_events,
            r@.len() == active_events(filter@, es.take(i as int)).len(),
            r@.len() == 0 || (r@.len() - 1) * frames_per_second <= u64::MAX,
            forall|k: int|
                0 <= k < r@.len() ==> #[trigger] r@[k]@ == activity_view(
                    filter@,
                    active_events(filter@, es.take(i as int))[k],
                    (k * frames_per_second) as u64,
                ),
    {
        let event = &events[i];
        assert(es.take(i + 1).drop_last() =~= es.take(i as int));
        assert(es.take(i + 1).last() == event@);
        let changes = visible_scene_changes(filter, event);
        assert(scene_file_change_views(changes@).len() == changes@.len());
        assert(keep_visible(filter@, event@.file_changes).len() == changes@.len());
        if changes.len() > 0 {
            assert(is_active(filter@, es.take(i + 1).last()));
            let index = r.len() as u64;
            let frame = (frames_per_second as u64).checked_mul(index);
            match frame {
                None => {
                    proof {
                        assert(active_events(filter@, es.take(i + 1)).len() == r@.len() + 1);
                        lemma_active_prefix_len(filter@, es, i + 1);
                        assert(es.take(events.len() as int) =~= es);
                        vstd::arithmetic::mul::lemma_mul_is_commutative(
                            r@.len() as int,
                            frames_per_second as int,
                        );
                        vstd::arithmetic::mul::lemma_mul_inequality(
                            r@.len() as int,
                            active_events(filter@, es).len() - 1,
                            frames_per_second as int,
                        );

                    }
                    return None;
                },
                Some(frame) => {
                    let ghost before = r@;
                    let activity = SceneActivity {
                        commit_id: CommitSceneId(owned(event.id().as_str())),
                        playback_frame: frame,
                        contributor_id: ContributorSceneId(
                            owned(event.contributor().identity_key()),
                        ),
                        branch_activity: SceneBranchActivity::from_branch_flow(event.branch_flow()),
                        file_changes: changes,
                    };
                    r.push(activity);
                    proof {
                        vstd::arithmetic::mul::lemma_mul_is_commutative(
                            before.len() as int,
                            frames_per_second as int,
                        );
                        assert(active_events(filter@, es.take(i + 1)) == active_events(
                            filter@,
                            es.take(i as int),
                        ).push(event@));
                        assert forall|k: int| 0 <= k < r@.len() implies #[trigger] r@[k]@ == activity_view(
                            filter@,
                            active_events(filter@, es.take(i + 1))[k],
                            (k * frames_per_second) as u64,
                        ) by {
                            if k < before.len() {
                                assert(r@[k] == before[k]);
                            }
                        }
                    }
                },
            }
        }
    }
    proof {
        assert(es.take(events.len() as int) =~= es);
        lemma_active_prefix_len(filter@, es, events.len() as int);
        if active_events(filter@, es).len() > 0 {
            vstd::arithmetic::mul::lemma_mul_is_commutative(
                (r@.len() - 1) as int,
                frames_per_second as int,
            );
        }
    }
    Some(r)
}

/// Later events never shrink the active list.
pub proof fn lemma_active_prefix_len(inc: Seq<Seq<char>>, es: Seq<CommitEventView>, n: int)
    requires
        0 <= n <= es.len(),
    ensures
        active_events(inc, es.take(n)).len() <= active_events(inc, es).len(),
    decreases es.len() - n,
{
    if n < es.len() {
        lemma_active_prefix_len(inc, es, n + 1);
        assert(es.take(n + 1).drop_last() =~= es.take(n));
    } else {
        assert(es.take(n) =~= es);
    }
}

/// The render-ready Competing Changes whose entity passes the filter.
pub(crate) fn build_competing_changes(replay: &RepositoryReplay, filter: &ExplicitPathFilter) -> (r: Vec<SceneCompetingChange>)
    ensures
        scene_competing_views(r@) == kept_competing(filter@, replay@.competing_changes),
{
    let changes = replay.competing_changes();
    let ghost cs = replay@.competing_changes;
    let mut r: Vec<SceneCompetingChange> = Vec::new();
    for i in 0..changes.len()
        invariant
            cs == competing_change_views(changes@),
            scene_competing_views(r@) == kept_competing(filter@, cs.take(i as int)),
    {
        let ghost before = r@;
        assert(cs.take(i + 1).drop_last() =~= cs.take(i as int));
        assert(cs.take(i + 1).last() == changes@[i as int]@);
        if filter.includes_entity(changes[i].entity()) {
            let change = SceneCompetingChange::from_competing_change(&changes[i]);
            r.push(change);
            assert(scene_competing_views(r@) =~= scene_competing_views(before).push(change@));
        }
    }
    assert(cs.take(changes.len() as int) =~= cs);
    r
}


/// A File Change touches a path when it changes it or moves away from it.
pub open spec fn touches(c: FileChangeView, p: Seq<char>) -> bool {
    c.entity == p || c.previous_entity == Some(p)
}

/// Paths touched by the first `n` File Changes of an event that pass the filter.
pub open spec fn event_paths(inc: Seq<Seq<char>>, e: CommitEventView, n: int) -> Set<Seq<char>> {
    Set::new(
        |p: Seq<char>|
            exists|j: int|
                0 <= j < n && filter_includes_change(inc, #[trigger] e.file_changes[j]) && touches(
                    e.file_changes[j],
                    p,
                ),
    )
}

/// Paths touched by visible File Changes of the first `n` events.
pub open spec fn events_paths(inc: Seq<Seq<char>>, es: Seq<CommitEventView>, n: int) -> Set<Seq<char>> {
    Set::new(
        |p: Seq<char>|
            exists|i: int|
                0 <= i < n && #[trigger] event_paths(inc, es[i], es[i].file_changes.len() as int).contains(p),
    )
}

/// Entities of the first `n` Competing Changes that pass the filter.
pub open spec fn competing_paths(inc: Seq<Seq<char>>, cs: Seq<CompetingChangeView>, n: int) -> Set<Seq<char>> {
    Set::new(
        |p: Seq<char>|
            exists|k: int|
                0 <= k < n && filter_includes(inc, #[trigger] cs[k].entity) && cs[k].entity == p,
    )
}

/// The files of the scene: every path touched by a visible File Change,
/// and every entity of a Competing Change that passes the filter.
pub open spec fn scene_file_paths(inc: Seq<Seq<char>>, rv: RepositoryReplayView) -> Set<Seq<char>> {
    events_paths(inc, rv.commit_events, rv.commit_events.len() as int).union(
        competing_paths(inc, rv.competing_changes, rv.competing_changes.len() as int),
    )
}

/// The directories of the scene: every directory containing a scene file.
pub open spec fn directory_paths(files: Set<Seq<char>>) -> Set<Seq<char>> {
    Set::new(|d: Seq<char>| exists|p: Seq<char>| files.contains(p) && #[trigger] is_directory_of(d, p))
}

/// Adds a path to the file set and its directories to the directory set.
fn add_entity_path(files: &mut Vec<String>, dirs: &mut Vec<String>, path: &str)
    requires
        strictly_sorted(texts(old(files)@)),
        strictly_sorted(texts(old(dirs)@)),
        texts(old(dirs)@).to_set() == directory_paths(texts(old(files)@).to_set()),
    ensures
        strictly_sorted(texts(final(files)@)),
        strictly_sorted(texts(final(dirs)@)),
        texts(final(files)@).to_set() == texts(old(files)@).to_set().insert(path@),
        texts(final(dirs)@).to_set() == directory_paths(texts(final(files)@).to_set()),
{
    let ghost old_files = texts(files@).to_set();
    let ghost old_dirs = texts(dirs@).to_set();
    sorted_insert(files, owned(path));
    let ghost p = path@;
    let mut current: Option<String> = parent_directory_path(path);
    let ghost mut n: nat = 1;
    assert(nth_parent(p, 0) == Some(p));
    assert(texts(dirs@).to_set() =~= old_dirs.union(
        Set::new(|d: Seq<char>| exists|m: nat| 1 <= m < n && #[trigger] nth_parent(p, m) == Some(d)),
    ));
    while current.is_some()
        invariant
            n >= 1,
            strictly_sorted(texts(dirs@)),
            match current {
                Some(c) => nth_parent(p, n) == Some(c@),
                None => nth_parent(p, n) is None,
            },
            texts(dirs@).to_set() == old_dirs.union(
                Set::new(|d: Seq<char>| exists|m: nat| 1 <= m < n && #[trigger] nth_parent(p, m) == Some(d)),
            ),
        decreases match current {
            Some(c) => c@.len() + 1,
            None => 0,
        },
    {
        let d = match current {
            Some(c) => c,
            None => {
                return;
            },
        };
        let ghost dv = d@;
        let next = parent_directory_path(d.as_str());
        proof {
            lemma_parent_shorter(dv);
        }
        sorted_insert(dirs, d);
        proof {
            assert(nth_parent(p, n + 1) == parent_text(dv));
            let prev = Set::new(|x: Seq<char>| exists|m: nat| 1 <= m < n && #[trigger] nth_parent(p, m) == Some(x));
            let grown = Set::new(|x: Seq<char>| exists|m: nat| 1 <= m < n + 1 && #[trigger] nth_parent(p, m) == Some(x));
            assert forall|x: Seq<char>| #[trigger] grown.contains(x) <==> prev.contains(x) || x == dv by {
                if grown.contains(x) {
                    let m = choose|m: nat| 1 <= m < n + 1 && #[trigger] nth_parent(p, m) == Some(x);
                    if m < n {
                        assert(prev.contains(x));
                    }
                }
                if x == dv {
                    assert(nth_parent(p, n) == Some(x));
                }
            }
            assert(texts(dirs@).to_set() =~= old_dirs.union(grown));
        }
        current = next;
        proof {
            n = n + 1;
        }
    }
    proof {
        let fin = Set::new(|x: Seq<char>| exists|m: nat| 1 <= m < n && #[trigger] nth_parent(p, m) == Some(x));
        let new_files = texts(files@).to_set();
        assert forall|d: Seq<char>| is_directory_of(d, p) <==> #[trigger] fin.contains(d) by {
            if is_directory_of(d, p) {
                let m = choose|m: nat| m >= 1 && #[trigger] nth_parent(p, m) == Some(d);
                if m >= n {
                    lemma_nth_parent_none(p, n, m);
                }
            }
        }
        assert forall|d: Seq<char>| #[trigger] directory_paths(new_files).contains(d) <==> old_dirs.union(fin).contains(d) by {
            if directory_paths(new_files).contains(d) {
                let q = choose|q: Seq<char>| new_files.contains(q) && #[trigger] is_directory_of(d, q);
                if q == p {
                    assert(fin.contains(d));
                } else {
                    assert(old_files.contains(q));
                    assert(directory_paths(old_files).contains(d));
                }
            }
            if fin.contains(d) {
                assert(is_directory_of(d, p));
                assert(new_files.contains(p));
            }
            if old_dirs.contains(d) {
                assert(directory_paths(old_files).contains(d));
                let q = choose|q: Seq<char>| old_files.contains(q) && #[trigger] is_directory_of(d, q);
                assert(new_files.contains(q));
            }
        }
        assert(texts(dirs@).to_set() =~= directory_paths(new_files));
    }
}


/// Collects the scene's directory and file paths, each strictly sorted.
pub(crate) fn collect_scene_paths(replay: &RepositoryReplay, filter: &ExplicitPathFilter) -> (r: (Vec<String>, Vec<String>))
    ensures
        strictly_sorted(texts(r.0@)),
        strictly_sorted(texts(r.1@)),
        texts(r.1@).to_set() == scene_file_paths(filter@, replay@),
        texts(r.0@).to_set() == directory_paths(scene_file_paths(filter@, replay@)),
{
    let mut files: Vec<String> = Vec::new();
    let mut dirs: Vec<String> = Vec::new();
    let events = replay.commit_events();
    let ghost es = replay@.commit_events;
    let ghost inc = filter@;
    proof {
        assert(texts(files@).to_set() =~= Set::<Seq<char>>::empty());
        assert(texts(dirs@).to_set() =~= Set::<Seq<char>>::empty());
        assert(directory_paths(Set::<Seq<char>>::empty()) =~= Set::<Seq<char>>::empty());
        assert(events_paths(inc, es, 0) =~= Set::<Seq<char>>::empty());
    }
    for i in 0..events.len()
        invariant
            es == commit_event_views(events@),
            inc == filter@,
            strictly_sorted(texts(files@)),
            strictly_sorted(texts(dirs@)),
            texts(files@).to_set() == events_paths(inc, es, i as int),
            texts(dirs@).to_set() == directory_paths(texts(files@).to_set()),
    {
        let changes = events[i].file_changes();
        let ghost e = es[i as int];
        assert(e == events@[i as int]@);
        proof {
            assert(event_paths(inc, e, 0) =~= Set::<Seq<char>>::empty());
            assert(texts(files@).to_set() =~= events_paths(inc, es, i as int).union(event_paths(inc, e, 0)));
        }
        for j in 0..changes.len()
            invariant
                es == commit_event_views(events@),
                inc == filter@,
                e == es[i as int],
                0 <= i < es.len(),
                e.file_changes == crate::domain::file_change_views(changes@),
                strictly_sorted(texts(files@)),
                strictly_sorted(texts(dirs@)),
                texts(files@).to_set() == events_paths(inc, es, i as int).union(event_paths(inc, e, j as int)),
                texts(dirs@).to_set() == directory_paths(texts(files@).to_set()),
        {
            let ghost before = texts(files@).to_set();
            let change = &changes[j];
            assert(e.file_changes[j as int] == change@);
            if filter.includes_file_change(change) {
                add_entity_path(&mut files, &mut dirs, change.entity().path().as_str());
                match change.previous_entity() {
                    Some(previous) => {
                        add_entity_path(&mut files, &mut dirs, previous.path().as_str());
                    },
                    None => {},
                }
            }
            proof {
                let target = events_paths(inc, es, i as int).union(event_paths(inc, e, j + 1));
                assert forall|p: Seq<char>| texts(files@).to_set().contains(p) <==> #[trigger] target.contains(p) by {
                    if event_paths(inc, e, j + 1).contains(p) {
                        let w = choose|w: int| 0 <= w < j + 1 && filter_includes_change(inc, #[trigger] e.file_changes[w]) && touches(e.file_changes[w], p);
                        if w < j {
                            assert(event_paths(inc, e, j as int).contains(p));
                        }
                    }
                    if event_paths(inc, e, j as int).contains(p) {
                        let w = choose|w: int| 0 <= w < j && filter_includes_change(inc, #[trigger] e.file_changes[w]) && touches(e.file_changes[w], p);
                        assert(event_paths(inc, e, j + 1).contains(p));
                    }
                }
                assert(texts(files@).to_set() =~= target);
            }
        }
        proof {
            let target = events_paths(inc, es, i + 1);
            let cur = events_paths(inc, es, i as int).union(event_paths(inc, e, changes@.len() as int));
            assert forall|p: Seq<char>| #[trigger] cur.contains(p) <==> target.contains(p) by {
                if target.contains(p) {
                    let w = choose|w: int| 0 <= w < i + 1 && #[trigger] event_paths(inc, es[w], es[w].file_changes.len() as int).contains(p);
                    if w < i {
                        assert(events_paths(inc, es, i as int).contains(p));
                    }
                }
                if events_paths(inc, es, i as int).contains(p) {
                    let w = choose|w: int| 0 <= w < i && #[trigger] event_paths(inc, es[w], es[w].file_changes.len() as int).contains(p);
                    assert(target.contains(p));
                }
                if event_paths(inc, e, changes@.len() as int).contains(p) {
                    assert(event_paths(inc, es[i as int], es[i as int].file_changes.len() as int).contains(p));
                    assert(target.contains(p));
                }
            }
            assert(cur =~= target);
        }
    }
    let competing = replay.competing_changes();
    let ghost cs = replay@.competing_changes;
    let ghost ev = events_paths(inc, es, es.len() as int);
    proof {
        assert(es.len() == events@.len());
        assert(competing_paths(inc, cs, 0) =~= Set::<Seq<char>>::empty());
        assert(texts(files@).to_set() =~= ev.union(competing_paths(inc, cs, 0)));
    }
    for k in 0..competing.len()
        invariant
            cs == competing_change_views(competing@),
            inc == filter@,
            strictly_sorted(texts(files@)),
            strictly_sorted(texts(dirs@)),
            texts(files@).to_set() == ev.union(competing_paths(inc, cs, k as int)),
            texts(dirs@).to_set() == directory_paths(texts(files@).to_set()),
    {
        let entity = competing[k].entity();
        assert(cs[k as int].entity == entity@);
        if filter.includes_entity(entity) {
            add_entity_path(&mut files, &mut dirs, entity.path().as_str());
        }
        proof {
            let target = ev.union(competing_paths(inc, cs, k + 1));
            assert forall|p: Seq<char>| texts(files@).to_set().contains(p) <==> #[trigger] target.contains(p) by {
                if competing_paths(inc, cs, k + 1).contains(p) {
                    let w = choose|w: int| 0 <= w < k + 1 && filter_includes(inc, #[trigger] cs[w].entity) && cs[w].entity == p;
                    if w < k {
                        assert(competing_paths(inc, cs, k as int).contains(p));
                    }
                }
                if competing_paths(inc, cs, k as int).contains(p) {
                    let w = choose|w: int| 0 <= w < k && filter_includes(inc, #[trigger] cs[w].entity) && cs[w].entity == p;
                    assert(competing_paths(inc, cs, k + 1).contains(p));
                }
            }
            assert(texts(files@).to_set() =~= target);
        }
    }
    (dirs, files)
}


/// Identity keys of the Contributors of active Commit Events.
pub open spec fn contributor_keys(inc: Seq<Seq<char>>, es: Seq<CommitEventView>) -> Set<Seq<char>> {
    Set::new(
        |key: Seq<char>|
            exists|i: int|
                0 <= i < es.len() && is_active(inc, #[trigger] es[i]) && es[i].contributor.identity_key
                    == key,
    )
}

/// Event `i` is the first active Commit Event whose Contributor has `key`.
pub open spec fn is_first_with_key(inc: Seq<Seq<char>>, es: Seq<CommitEventView>, key: Seq<char>, i: int) -> bool {
    &&& 0 <= i < es.len()
    &&& is_active(inc, es[i])
    &&& es[i].contributor.identity_key == key
    &&& forall|j: int|
        0 <= j < i && is_active(inc, #[trigger] es[j]) ==> es[j].contributor.identity_key != key
}

/// Decides whether a Commit Event takes part in the scene.
fn event_is_active(filter: &ExplicitPathFilter, event: &CommitEvent) -> (r: bool)
    ensures
        r == is_active(filter@, event@),
{
    let changes = event.file_changes();
    for j in 0..changes.len()
        invariant
            event@.file_changes == crate::domain::file_change_views(changes@),
            forall|w: int| 0 <= w < j ==> !filter_includes_change(filter@, #[trigger] event@.file_changes[w]),
    {
        if filter.includes_file_change(&changes[j]) {
            assert(filter_includes_change(filter@, event@.file_changes[j as int]));
            proof {
                lemma_keep_visible_nonempty(filter@, event@.file_changes);
            }
            return true;
        }
    }
    proof {
        lemma_keep_visible_nonempty(filter@, event@.file_changes);
    }
    false
}

/// `seed` carries the display name and kind of the first active event (among
/// the first `n`) whose Contributor has `key`.
pub open spec fn seed_from_first(inc: Seq<Seq<char>>, es: Seq<CommitEventView>, key: Seq<char>, seed: (Seq<char>, ContributorKind), n: int) -> bool {
    exists|w: int|
        #[trigger] is_first_with_key(inc, es, key, w) && w < n && seed.0 == es[w].contributor.display_name
            && seed.1 == es[w].contributor.kind
}

/// The view of a contributor seed.
pub open spec fn seed_view(seed: (String, ContributorKind)) -> (Seq<char>, ContributorKind) {
    (seed.0@, seed.1)
}

/// The Contributors of active Commit Events: their identity keys strictly
/// sorted, each with the display name and kind from its first active event.
pub(crate) fn collect_contributors(replay: &RepositoryReplay, filter: &ExplicitPathFilter) -> (r: (Vec<String>, Vec<(String, ContributorKind)>))
    ensures
        r.0@.len() == r.1@.len(),
        strictly_sorted(texts(r.0@)),
        texts(r.0@).to_set() == contributor_keys(filter@, replay@.commit_events),
        forall|k: int|
            0 <= k < r.0@.len() ==> #[trigger] seed_from_first(
                filter@,
                replay@.commit_events,
                r.0@[k]@,
                seed_view(r.1@[k]),
                replay@.commit_events.len() as int,
            ),
{
    let events = replay.commit_events();
    let ghost es = replay@.commit_events;
    let ghost inc = filter@;
    let mut keys: Vec<String> = Vec::new();
    let mut seeds: Vec<(String, ContributorKind)> = Vec::new();
    proof {
        assert(texts(keys@).to_set() =~= contributor_keys(inc, es.take(0)));
    }
    let mut i: usize = 0;
    while i < events.len()
        invariant
            0 <= i <= events.len(),
            es == commit_event_views(events@),
            es == replay@.commit_events,
            inc == filter@,
            keys@.len() == seeds@.len(),
            strictly_sorted(texts(keys@)),
            texts(keys@).to_set() == contributor_keys(inc, es.take(i as int)),
            forall|k: int|
                0 <= k < keys@.len() ==> #[trigger] seed_from_first(
                    inc,
                    es,
                    keys@[k]@,
                    seed_view(seeds@[k]),
                    i as int,
                ),
        decreases events.len() - i,
    {
        let event = &events[i];
        assert(es[i as int] == event@);
        let ghost old_keys = keys@;
        let ghost old_seeds = seeds@;
        let ghost old_set = texts(keys@).to_set();
        let active = event_is_active(filter, event);
        if active {
            let contributor = event.contributor();
            let key = contributor.identity_key();
            let (pos, found) = sorted_position(&keys, key);
            if found {
                proof {
                    assert(texts(keys@)[pos as int] == key@);
                    assert(texts(keys@).to_set().contains(key@));
                    assert(texts(keys@).to_set() =~= old_set.insert(key@));
                }
            }
            if !found {
                insert_absent(&mut keys, pos, owned(key));
                seeds.insert(pos, (owned(contributor.display_name()), contributor.kind()));
                proof {
                    assert forall|k: int| 0 <= k < keys@.len() implies #[trigger] seed_from_first(
                        inc,
                        es,
                        keys@[k]@,
                        seed_view(seeds@[k]),
                        i + 1,
                    ) by {
                        if k < pos {
                            assert(keys@[k] == old_keys[k]);
                            assert(seeds@[k] == old_seeds[k]);
                            assert(seed_from_first(inc, es, old_keys[k]@, seed_view(old_seeds[k]), i as int));
                        } else if k > pos {
                            assert(keys@[k] == old_keys[k - 1]);
                            assert(seeds@[k] == old_seeds[k - 1]);
                            assert(seed_from_first(inc, es, old_keys[k - 1]@, seed_view(old_seeds[k - 1]), i as int));
                        } else {
                            assert(seeds@[k].0@ == event@.contributor.display_name);
                            assert(seeds@[k].1 == event@.contributor.kind);
                            assert(keys@[k]@ == key@);
                            assert forall|j: int| 0 <= j < i && is_active(inc, #[trigger] es[j]) implies es[j].contributor.identity_key != key@ by {
                                if es[j].contributor.identity_key == key@ {
                                    assert(es.take(i as int)[j] == es[j]);
                                    assert(contributor_keys(inc, es.take(i as int)).contains(key@));
                                    assert(old_set.contains(key@));
                                    let q = texts(old_keys).index_of(key@);
                                    assert(old_keys[q]@ == key@);
                                }
                            }
                            assert(is_first_with_key(inc, es, keys@[k]@, i as int));
                        }
                    }
                }
            }
        }
        proof {
            let target = contributor_keys(inc, es.take(i + 1));
            if active {
                assert(texts(keys@).to_set() == old_set.insert(event@.contributor.identity_key));
            } else {
                assert(texts(keys@).to_set() == old_set);
            }
            if keys@ == old_keys && seeds@ == old_seeds {
                assert forall|k: int| 0 <= k < keys@.len() implies #[trigger] seed_from_first(
                    inc,
                    es,
                    keys@[k]@,
                    seed_view(seeds@[k]),
                    i + 1,
                ) by {
                    assert(seed_from_first(inc, es, old_keys[k]@, seed_view(old_seeds[k]), i as int));
                }
            }
            assert forall|key2: Seq<char>| texts(keys@).to_set().contains(key2) <==> #[trigger] target.contains(key2) by {
                if target.contains(key2) {
                    let w = choose|w: int| 0 <= w < i + 1 && is_active(inc, #[trigger] es.take(i + 1)[w]) && es.take(i + 1)[w].contributor.identity_key == key2;
                    if w < i {
                        assert(es.take(i as int)[w] == es.take(i + 1)[w]);
                        assert(contributor_keys(inc, es.take(i as int)).contains(key2));
                    }
                }
                if contributor_keys(inc, es.take(i as int)).contains(key2) {
                    let w = choose|w: int| 0 <= w < i && is_active(inc, #[trigger] es.take(i as int)[w]) && es.take(i as int)[w].contributor.identity_key == key2;
                    assert(es.take(i + 1)[w] == es.take(i as int)[w]);
                    assert(target.contains(key2));
                }
                if active && key2 == event@.contributor.identity_key {
                    assert(es.take(i + 1)[i as int] == event@);
                    assert(target.contains(key2));
                }
            }
            assert(texts(keys@).to_set() =~= target);
        }
        i = i + 1;
    }
    proof {
        assert(es.take(events.len() as int) =~= es);
    }
    (keys, seeds)
}


/// The paths of a sequence whose parent directory is `d`, in order.
pub open spec fn with_parent(files: Seq<Seq<char>>, d: Seq<char>) -> Seq<Seq<char>>
    decreases files.len(),
{
    if files.len() == 0 {
        Seq::empty()
    } else {
        let rest = with_parent(files.drop_last(), d);
        if parent_text(files.last()) == Some(d) {
            rest.push(files.last())
        } else {
            rest
        }
    }
}

/// The files of a set that lie directly in directory `d`.
pub open spec fn in_directory(files: Set<Seq<char>>, d: Seq<char>) -> Set<Seq<char>> {
    files.filter(|p: Seq<char>| parent_text(p) == Some(d))
}

pub proof fn lemma_with_parent_members(files: Seq<Seq<char>>, d: Seq<char>)
    ensures
        forall|q: Seq<char>| #[trigger] with_parent(files, d).contains(q) <==> files.contains(q) && parent_text(q) == Some(d),
    decreases files.len(),
{
    if files.len() > 0 {
        lemma_with_parent_members(files.drop_last(), d);
        let rest = with_parent(files.drop_last(), d);
        assert forall|q: Seq<char>| #[trigger] with_parent(files, d).contains(q) <==> files.contains(q) && parent_text(q) == Some(d) by {
            if files.contains(q) && parent_text(q) == Some(d) {
                let k = files.index_of(q);
                if k < files.len() - 1 {
                    assert(files.drop_last()[k] == q);
                    assert(rest.contains(q));
                    let m = rest.index_of(q);
                    if parent_text(files.last()) == Some(d) {
                        assert(with_parent(files, d)[m] == q);
                    }
                } else {
                    assert(with_parent(files, d).last() == q);
                }
            }
            if with_parent(files, d).contains(q) {
                let m = with_parent(files, d).index_of(q);
                if parent_text(files.last()) == Some(d) && m == rest.len() {
                    assert(q == files.last());
                } else {
                    assert(rest[m] == q);
                    assert(rest.contains(q));
                    let k = files.drop_last().index_of(q);
                    assert(files[k] == q);
                }
            }
        }
    }
}

pub proof fn lemma_with_parent_sorted(files: Seq<Seq<char>>, d: Seq<char>)
    requires
        strictly_sorted(files),
    ensures
        strictly_sorted(with_parent(files, d)),
    decreases files.len(),
{
    if files.len() > 0 {
        assert(strictly_sorted(files.drop_last())) by {
            assert forall|i: int, j: int| 0 <= i < j < files.drop_last().len() implies seq_lt(
                #[trigger] files.drop_last()[i],
                #[trigger] files.drop_last()[j],
            ) by {
                assert(seq_lt(files[i], files[j]));
            }
        }
        lemma_with_parent_sorted(files.drop_last(), d);
        lemma_with_parent_members(files.drop_last(), d);
        let rest = with_parent(files.drop_last(), d);
        if parent_text(files.last()) == Some(d) {
            let w = with_parent(files, d);
            assert forall|i: int, j: int| 0 <= i < j < w.len() implies seq_lt(#[trigger] w[i], #[trigger] w[j]) by {
                if j == w.len() - 1 {
                    assert(rest.contains(w[i]));
                    let k = files.drop_last().index_of(w[i]);
                    assert(files[k] == w[i]);
                    assert(seq_lt(files[k], files[files.len() - 1]));
                } else {
                    assert(seq_lt(rest[i], rest[j]));
                }
            }
        }
    }
}

pub proof fn lemma_strictly_sorted_no_duplicates(s: Seq<Seq<char>>)
    requires
        strictly_sorted(s),
    ensures
        s.no_duplicates(),
        s.len() == s.to_set().len(),
{
    assert forall|i: int, j: int| 0 <= i < s.len() && 0 <= j < s.len() && i != j implies s[i] != s[j] by {
        if i < j {
            assert(seq_lt(s[i], s[j]));
        } else {
            assert(seq_lt(s[j], s[i]));
        }
        crate::text::lemma_seq_lt_irreflexive(s[i]);
    }
    s.unique_seq_to_set();
}

/// Directories holding at least `threshold` of the files directly.
pub open spec fn summary_paths(files: Set<Seq<char>>, threshold: usize) -> Set<Seq<char>> {
    Set::new(
        |d: Seq<char>|
            exists|p: Seq<char>|
                files.contains(p) && #[trigger] parent_text(p) == Some(d) && in_directory(files, d).len()
                    >= threshold,
    )
}

/// Groups a strictly sorted file list by parent directory: the parents
/// strictly sorted, each with its files in order.
fn group_by_parent(files: &Vec<String>) -> (r: (Vec<String>, Vec<Vec<String>>))
    requires
        strictly_sorted(texts(files@)),
    ensures
        r.0@.len() == r.1@.len(),
        strictly_sorted(texts(r.0@)),
        texts(r.0@).to_set() == Set::new(|d: Seq<char>| exists|p: Seq<char>| texts(files@).to_set().contains(p) && #[trigger] parent_text(p) == Some(d)),
        forall|g: int| 0 <= g < r.0@.len() ==> #[trigger] texts(r.1@[g]@) == with_parent(texts(files@), r.0@[g]@),
{
    let ghost fs = texts(files@);
    let mut keys: Vec<String> = Vec::new();
    let mut members: Vec<Vec<String>> = Vec::new();
    let mut i: usize = 0;
    proof {
        assert(texts(keys@).to_set() =~= Set::new(|d: Seq<char>| exists|k: int| 0 <= k < 0 && #[trigger] parent_text(fs[k]) == Some(d)));
    }
    while i < files.len()
        invariant
            0 <= i <= files.len(),
            fs == texts(files@),
            keys@.len() == members@.len(),
            strictly_sorted(texts(keys@)),
            texts(keys@).to_set() == Set::new(|d: Seq<char>| exists|k: int| 0 <= k < i && #[trigger] parent_text(fs[k]) == Some(d)),
            forall|g: int| 0 <= g < keys@.len() ==> #[trigger] texts(members@[g]@) == with_parent(fs.take(i as int), keys@[g]@),
        decreases files.len() - i,
    {
        let ghost old_keys = keys@;
        let ghost old_members = members@;
        let ghost old_set = texts(keys@).to_set();
        let ghost f = fs[i as int];
        assert(fs.take(i + 1).drop_last() =~= fs.take(i as int));
        assert(fs.take(i + 1).last() == f);
        let parent = parent_directory_path(files[i].as_str());
        match parent {
            None => {
                proof {
                    assert forall|g: int| 0 <= g < keys@.len() implies #[trigger] texts(members@[g]@) == with_parent(fs.take(i + 1), keys@[g]@) by {
                    }
                    let target = Set::new(|d: Seq<char>| exists|k: int| 0 <= k < i + 1 && #[trigger] parent_text(fs[k]) == Some(d));
                    assert forall|d: Seq<char>| texts(keys@).to_set().contains(d) <==> #[trigger] target.contains(d) by {
                        if target.contains(d) {
                            let k = choose|k: int| 0 <= k < i + 1 && #[trigger] parent_text(fs[k]) == Some(d);
                            assert(k < i);
                        }
                    }
                    assert(texts(keys@).to_set() =~= target);
                }
            },
            Some(d) => {
                let ghost dv = d@;
                let (pos, found) = sorted_position(&keys, d.as_str());
                if found {
                    let mut group = members.remove(pos);
                    let ghost old_group = group@;
                    group.push(files[i].clone());
                    members.insert(pos, group);
                    proof {
                        assert(texts(keys@).to_set() == old_set);
                        assert(texts(keys@)[pos as int] == dv);
                        assert(old_set.contains(dv));
                        assert(old_set.insert(dv) =~= old_set);
                        lemma_strictly_sorted_no_duplicates(texts(keys@));
                        assert forall|g: int| 0 <= g < keys@.len() implies #[trigger] texts(members@[g]@) == with_parent(fs.take(i + 1), keys@[g]@) by {
                            if g == pos {
                                assert(texts(members@[g]@) =~= texts(old_group).push(f));
                                assert(texts(old_members[g]@) == with_parent(fs.take(i as int), keys@[g]@));
                            } else {
                                assert(members@[g] == old_members[g]);
                                assert(texts(old_members[g]@) == with_parent(fs.take(i as int), keys@[g]@));
                                assert(texts(keys@)[g] != texts(keys@)[pos as int]);
                            }
                        }
                    }
                } else {
                    let mut group: Vec<String> = Vec::new();
                    group.push(files[i].clone());
                    insert_absent(&mut keys, pos, d);
                    members.insert(pos, group);
                    proof {
                        assert forall|g: int| 0 <= g < keys@.len() implies #[trigger] texts(members@[g]@) == with_parent(fs.take(i + 1), keys@[g]@) by {
                            if g < pos {
                                assert(members@[g] == old_members[g]);
                                assert(keys@[g] == old_keys[g]);
                                assert(texts(old_members[g]@) == with_parent(fs.take(i as int), keys@[g]@));
                            } else if g > pos {
                                assert(members@[g] == old_members[g - 1]);
                                assert(keys@[g] == old_keys[g - 1]);
                                assert(texts(old_members[g - 1]@) == with_parent(fs.take(i as int), keys@[g]@));
                            } else {
                                assert(keys@[g]@ == dv);
                                lemma_with_parent_members(fs.take(i as int), dv);
                                if with_parent(fs.take(i as int), dv).len() > 0 {
                                    let q = with_parent(fs.take(i as int), dv)[0];
                                    assert(with_parent(fs.take(i as int), dv).contains(q));
                                    let k = fs.take(i as int).index_of(q);
                                    assert(parent_text(fs[k]) == Some(dv));
                                    assert(old_set.contains(dv));
                                }
                                assert(texts(members@[g]@) =~= seq![f]);
                                assert(with_parent(fs.take(i as int), dv) =~= Seq::<Seq<char>>::empty());
                            }
                        }
                    }
                }
                proof {
                    let target = Set::new(|d2: Seq<char>| exists|k: int| 0 <= k < i + 1 && #[trigger] parent_text(fs[k]) == Some(d2));
                    assert(texts(keys@).to_set() == old_set.insert(dv));
                    assert forall|d2: Seq<char>| texts(keys@).to_set().contains(d2) <==> #[trigger] target.contains(d2) by {
                        if target.contains(d2) {
                            let k = choose|k: int| 0 <= k < i + 1 && #[trigger] parent_text(fs[k]) == Some(d2);
                            if k < i {
                                assert(old_set.contains(d2));
                            }
                        }
                        if old_set.contains(d2) {
                            let k = choose|k: int| 0 <= k < i && #[trigger] parent_text(fs[k]) == Some(d2);
                            assert(target.contains(d2));
                        }
                        if d2 == dv {
                            assert(parent_text(fs[i as int]) == Some(dv));
                            assert(target.contains(d2));
                        }
                    }
                    assert(texts(keys@).to_set() =~= target);
                }
            },
        }
        i = i + 1;
    }
    proof {
        assert(fs.take(files.len() as int) =~= fs);
        let target = Set::new(|d: Seq<char>| exists|p: Seq<char>| fs.to_set().contains(p) && #[trigger] parent_text(p) == Some(d));
        assert forall|d: Seq<char>| texts(keys@).to_set().contains(d) <==> #[trigger] target.contains(d) by {
            if texts(keys@).to_set().contains(d) {
                let k = choose|k: int| 0 <= k < i && #[trigger] parent_text(fs[k]) == Some(d);
                assert(fs.to_set().contains(fs[k]));
            }
            if target.contains(d) {
                let p = choose|p: Seq<char>| fs.to_set().contains(p) && #[trigger] parent_text(p) == Some(d);
                let k = fs.index_of(p);
                assert(parent_text(fs[k]) == Some(d));
            }
        }
        assert(texts(keys@).to_set() =~= target);
    }
    (keys, members)
}


/// A File Change touches one of the paths by its path or its previous path.
pub open spec fn change_touches_any(c: FileChangeView, paths: Set<Seq<char>>) -> bool {
    paths.contains(c.entity) || (c.previous_entity matches Some(p) && paths.contains(p))
}

/// Number of visible File Changes of a sequence that touch one of the paths.
pub open spec fn count_touching_changes(inc: Seq<Seq<char>>, cs: Seq<FileChangeView>, paths: Set<Seq<char>>) -> nat
    decreases cs.len(),
{
    if cs.len() == 0 {
        0
    } else {
        count_touching_changes(inc, cs.drop_last(), paths) + if filter_includes_change(inc, cs.last())
            && change_touches_any(cs.last(), paths) {
            1nat
        } else {
            0nat
        }
    }
}

/// Number of visible File Changes, over all events, that touch one of the paths.
pub open spec fn count_touching(inc: Seq<Seq<char>>, es: Seq<CommitEventView>, paths: Set<Seq<char>>) -> nat
    decreases es.len(),
{
    if es.len() == 0 {
        0
    } else {
        count_touching(inc, es.drop_last(), paths) + count_touching_changes(inc, es.last().file_changes, paths)
    }
}

pub proof fn lemma_count_changes_prefix(inc: Seq<Seq<char>>, cs: Seq<FileChangeView>, paths: Set<Seq<char>>, n: int)
    requires
        0 <= n <= cs.len(),
    ensures
        count_touching_changes(inc, cs.take(n), paths) <= count_touching_changes(inc, cs, paths),
    decreases cs.len() - n,
{
    if n < cs.len() {
        lemma_count_changes_prefix(inc, cs, paths, n + 1);
        assert(cs.take(n + 1).drop_last() =~= cs.take(n));
    } else {
        assert(cs.take(n) =~= cs);
    }
}

pub proof fn lemma_count_prefix(inc: Seq<Seq<char>>, es: Seq<CommitEventView>, paths: Set<Seq<char>>, n: int)
    requires
        0 <= n <= es.len(),
    ensures
        count_touching(inc, es.take(n), paths) <= count_touching(inc, es, paths),
    decreases es.len() - n,
{
    if n < es.len() {
        lemma_count_prefix(inc, es, paths, n + 1);
        assert(es.take(n + 1).drop_last() =~= es.take(n));
    } else {
        assert(es.take(n) =~= es);
    }
}

/// Decides whether a text is among the strings of a vector.
fn contains_text(paths: &Vec<String>, x: &str) -> (r: bool)
    ensures
        r == texts(paths@).to_set().contains(x@),
{
    for i in 0..paths.len()
        invariant
            forall|k: int| 0 <= k < i ==> paths@[k]@ != x@,
    {
        if text_eq(paths[i].as_str(), x) {
            assert(texts(paths@)[i as int] == x@);
            return true;
        }
    }
    proof {
        if texts(paths@).to_set().contains(x@) {
            let k = texts(paths@).index_of(x@);
            assert(paths@[k]@ == x@);
        }
    }
    false
}

/// Decides `change_touches_any` for a File Change and a vector of paths.
fn touches_any(change: &FileChange, paths: &Vec<String>) -> (r: bool)
    ensures
        r == change_touches_any(change@, texts(paths@).to_set()),
{
    if contains_text(paths, change.entity().path().as_str()) {
        return true;
    }
    match change.previous_entity() {
        Some(previous) => contains_text(paths, previous.path().as_str()),
        None => false,
    }
}

/// Counts visible File Changes touching one of the paths; `None` when the
/// count does not fit in `usize`.
fn touching_count(replay: &RepositoryReplay, filter: &ExplicitPathFilter, paths: &Vec<String>) -> (r: Option<usize>)
    ensures
        r is None <==> count_touching(filter@, replay@.commit_events, texts(paths@).to_set()) > usize::MAX,
        r matches Some(n) ==> n == count_touching(filter@, replay@.commit_events, texts(paths@).to_set()),
{
    let events = replay.commit_events();
    let ghost es = replay@.commit_events;
    let ghost ps = texts(paths@).to_set();
    let ghost inc = filter@;
    let mut count: usize = 0;
    let mut i: usize = 0;
    while i < events.len()
        invariant
            0 <= i <= events.len(),
            es == commit_event_views(events@),
            es == replay@.commit_events,
            ps == texts(paths@).to_set(),
            inc == filter@,
            count == count_touching(inc, es.take(i as int), ps),
        decreases events.len() - i,
    {
        let changes = events[i].file_changes();
        let ghost cs = es[i as int].file_changes;
        assert(cs == crate::domain::file_change_views(changes@));
        let mut j: usize = 0;
        while j < changes.len()
            invariant
                0 <= i < events.len(),
                0 <= j <= changes.len(),
                es == commit_event_views(events@),
                es == replay@.commit_events,
                ps == texts(paths@).to_set(),
                inc == filter@,
                cs == es[i as int].file_changes,
                cs == crate::domain::file_change_views(changes@),
                count == count_touching(inc, es.take(i as int), ps) + count_touching_changes(inc, cs.take(j as int), ps),
            decreases changes.len() - j,
        {
            assert(cs.take(j + 1).drop_last() =~= cs.take(j as int));
            assert(cs.take(j + 1).last() == changes@[j as int]@);
            if filter.includes_file_change(&changes[j]) && touches_any(&changes[j], paths) {
                if count == usize::MAX {
                    proof {
                        lemma_count_changes_prefix(inc, cs, ps, j + 1);
                        assert(es.take(i + 1).drop_last() =~= es.take(i as int));
                        assert(es.take(i + 1).last() == es[i as int]);
                        lemma_count_prefix(inc, es, ps, i + 1);
                        assert(es.take(events.len() as int) =~= es);
                    }
                    return None;
                }
                count = count + 1;
            }
            j = j + 1;
        }
        proof {
            assert(cs.take(changes.len() as int) =~= cs);
            assert(es.take(i + 1).drop_last() =~= es.take(i as int));
            assert(es.take(i + 1).last() == es[i as int]);
        }
        i = i + 1;
    }
    proof {
        assert(es.take(events.len() as int) =~= es);
    }
    Some(count)
}


/// Every path of the set is shown with reduced emphasis.
pub open spec fn all_reduced(paths: Set<Seq<char>>) -> bool {
    forall|q: Seq<char>| paths.contains(q) ==> #[trigger] is_reduced_emphasis_path(q)
}

/// `n` entities fit in layout row `row`: no coordinate leaves `i32`.
pub open spec fn fits_row(n: int, row: int, spacing: int) -> bool {
    n == 0 || (row * spacing <= i32::MAX && n - 1 <= i32::MAX && (n - 1) * spacing <= i32::MAX)
}

/// Every position of a row that fits can be computed.
pub proof fn lemma_fits_row_index(n: int, row: int, spacing: int, k: int)
    requires
        fits_row(n, row, spacing),
        0 <= k < n,
        0 <= spacing,
    ensures
        k * spacing <= i32::MAX,
        k <= i32::MAX,
        row * spacing <= i32::MAX,
{
    vstd::arithmetic::mul::lemma_mul_inequality(k, n - 1, spacing);
}

/// What a Visual Summary says.
pub struct VisualSummaryView {
    pub id: Seq<char>,
    pub path: Seq<char>,
    pub represented_file_ids: Seq<Seq<char>>,
    pub represented_entity_count: usize,
    pub activity_count: usize,
    pub weight: usize,
    pub position: (i32, i32),
    pub emphasis: SceneEmphasis,
}

/// A Repository Entity that stands in for multiple underlying entities.
#[derive(Debug, Clone, PartialEq, Eq)]
pub struct VisualSummary {
    id: VisualSummarySceneId,
    path: String,
    represented_file_ids: Vec<FileSceneId>,
    represented_entity_count: usize,
    activity_count: usize,
    weight: VisualSummaryWeight,
    position: ScenePosition,
    emphasis: SceneEmphasis,
}

impl View for VisualSummary {
    type V = VisualSummaryView;

    closed spec fn view(&self) -> VisualSummaryView {
        VisualSummaryView {
            id: self.id@,
            path: self.path@,
            represented_file_ids: file_id_texts(self.represented_file_ids@),
            represented_entity_count: self.represented_entity_count,
            activity_count: self.activity_count,
            weight: self.weight@,
            position: self.position@,
            emphasis: self.emphasis,
        }
    }
}

impl VisualSummary {
    /// Returns the stable Visual Summary scene identifier.
    pub fn id(&self) -> (r: &VisualSummarySceneId)
        ensures
            r@ == self@.id,
    {
        &self.id
    }

    /// Returns the repository-relative directory path represented by this summary.
    pub fn path(&self) -> (r: &str)
        ensures
            r@ == self@.path,
    {
        self.path.as_str()
    }

    /// Returns file scene identifiers represented by this Visual Summary.
    pub fn represented_file_ids(&self) -> (r: &[FileSceneId])
        ensures
            file_id_texts(r@) == self@.represented_file_ids,
    {
        self.represented_file_ids.as_slice()
    }

    /// Returns how many Repository Entities are represented.
    pub fn represented_entity_count(&self) -> (r: usize)
        ensures
            r == self@.represented_entity_count,
    {
        self.represented_entity_count
    }

    /// Returns how many File Changes contributed to this Visual Summary.
    pub fn activity_count(&self) -> (r: usize)
        ensures
            r == self@.activity_count,
    {
        self.activity_count
    }

    /// Returns the visual weight preserved from represented activity.
    pub fn weight(&self) -> (r: VisualSummaryWeight)
        ensures
            r@ == self@.weight,
    {
        self.weight
    }

    /// Returns the deterministic scene position.
    pub fn position(&self) -> (r: ScenePosition)
        ensures
            r@ == self@.position,
    {
        self.position
    }

    /// Returns whether this Visual Summary should be visually de-emphasized.
    pub fn emphasis(&self) -> (r: SceneEmphasis)
        ensures
            r == self@.emphasis,
    {
        self.emphasis
    }
}

/// The views of a sequence of Visual Summaries.
pub open spec fn summary_views(s: Seq<VisualSummary>) -> Seq<VisualSummaryView> {
    s.map_values(|v: VisualSummary| v@)
}

/// The directory paths of a sequence of Visual Summaries.
pub open spec fn summary_path_texts(s: Seq<VisualSummaryView>) -> Seq<Seq<char>> {
    s.map_values(|v: VisualSummaryView| v.path)
}

/// The Visual Summary of directory `d` at position `index` of the summary row.
pub open spec fn summary_matches(
    v: VisualSummaryView,
    inc: Seq<Seq<char>>,
    es: Seq<CommitEventView>,
    files: Set<Seq<char>>,
    index: int,
    spacing: int,
) -> bool {
    &&& v.id == "summary:"@ + v.path
    &&& strictly_sorted(v.represented_file_ids)
    &&& v.represented_file_ids.to_set() == in_directory(files, v.path)
    &&& v.represented_entity_count == v.represented_file_ids.len()
    &&& v.activity_count == count_touching(inc, es, in_directory(files, v.path))
    &&& v.weight == v.activity_count
    &&& v.position.0 == index * spacing
    &&& v.position.1 == 3 * spacing
    &&& v.emphasis == (if all_reduced(in_directory(files, v.path)) {
        SceneEmphasis::DeEmphasized
    } else {
        SceneEmphasis::Normal
    })
}

/// Some dense directory's activity count does not fit in `usize`.
pub open spec fn summary_count_overflows(inc: Seq<Seq<char>>, es: Seq<CommitEventView>, files: Set<Seq<char>>, threshold: usize) -> bool {
    exists|d: Seq<char>|
        #[trigger] summary_paths(files, threshold).contains(d) && count_touching(inc, es, in_directory(files, d)) > usize::MAX
}

/// Decides whether every path of a vector has reduced emphasis.
fn all_paths_reduced(paths: &Vec<String>) -> (r: bool)
    ensures
        r == all_reduced(texts(paths@).to_set()),
{
    for i in 0..paths.len()
        invariant
            forall|k: int| 0 <= k < i ==> #[trigger] is_reduced_emphasis_path(paths@[k]@),
    {
        match SceneEmphasis::from_path(paths[i].as_str()) {
            SceneEmphasis::Normal => {
                assert(texts(paths@)[i as int] == paths@[i as int]@);
                assert(texts(paths@).contains(paths@[i as int]@));
                assert(texts(paths@).to_set().contains(paths@[i as int]@));
                return false;
            },
            SceneEmphasis::DeEmphasized => {},
        }
    }
    proof {
        assert forall|q: Seq<char>| texts(paths@).to_set().contains(q) implies #[trigger] is_reduced_emphasis_path(q) by {
            let k = texts(paths@).index_of(q);
            assert(paths@[k]@ == q);
        }
    }
    true
}


/// A dense group's activity count and emphasis.
pub open spec fn dense_entry(inc: Seq<Seq<char>>, es: Seq<CommitEventView>, group: Seq<Seq<char>>, count: usize, emphasis: SceneEmphasis) -> bool {
    &&& count == count_touching(inc, es, group.to_set())
    &&& emphasis == (if all_reduced(group.to_set()) {
        SceneEmphasis::DeEmphasized
    } else {
        SceneEmphasis::Normal
    })
}

/// Copies a vector of strings.
fn clone_strings(v: &Vec<String>) -> (r: Vec<String>)
    ensures
        texts(r@) == texts(v@),
{
    let mut r: Vec<String> = Vec::new();
    for i in 0..v.len()
        invariant
            r@.len() == i,
            forall|k: int| 0 <= k < i ==> #[trigger] r@[k]@ == v@[k]@,
    {
        r.push(v[i].clone());
    }
    assert(texts(r@) =~= texts(v@));
    r
}

/// Facts about one group of `group_by_parent`'s result.
proof fn lemma_group_facts(fs: Seq<Seq<char>>, d: Seq<char>, group: Seq<Seq<char>>)
    requires
        strictly_sorted(fs),
        group == with_parent(fs, d),
    ensures
        strictly_sorted(group),
        group.to_set() == in_directory(fs.to_set(), d),
        group.len() == in_directory(fs.to_set(), d).len(),
{
    lemma_with_parent_sorted(fs, d);
    lemma_with_parent_members(fs, d);
    assert forall|q: Seq<char>| group.to_set().contains(q) <==> #[trigger] in_directory(fs.to_set(), d).contains(q) by {
        if group.to_set().contains(q) {
            assert(group.contains(q));
        }
        if in_directory(fs.to_set(), d).contains(q) {
            assert(fs.contains(q));
            assert(group.contains(q));
        }
    }
    assert(group.to_set() =~= in_directory(fs.to_set(), d));
    lemma_strictly_sorted_no_duplicates(group);
}

/// File scene identifiers for a list of paths, in the same order.
fn file_ids_of(paths: &Vec<String>) -> (r: Vec<FileSceneId>)
    ensures
        file_id_texts(r@) == texts(paths@),
{
    let mut ids: Vec<FileSceneId> = Vec::new();
    for m in 0..paths.len()
        invariant
            ids@.len() == m,
            forall|q: int| 0 <= q < m ==> #[trigger] ids@[q]@ == paths@[q]@,
    {
        ids.push(FileSceneId(paths[m].clone()));
    }
    assert(file_id_texts(ids@) =~= texts(paths@));
    ids
}

/// Visual Summaries for the dense directories of a strictly sorted file
/// list, in directory order; `None` when an activity count or a position
/// does not fit.
pub(crate) fn build_visual_summaries(
    files: &Vec<String>,
    replay: &RepositoryReplay,
    filter: &ExplicitPathFilter,
    threshold: usize,
    spacing: i32,
) -> (r: Option<Vec<VisualSummary>>)
    requires
        strictly_sorted(texts(files@)),
        spacing >= 0,
    ensures
        r is None <==> summary_count_overflows(filter@, replay@.commit_events, texts(files@).to_set(), threshold)
            || !fits_row(summary_paths(texts(files@).to_set(), threshold).len() as int, 3, spacing as int),
        r matches Some(v) ==> {
            &&& strictly_sorted(summary_path_texts(summary_views(v@)))
            &&& summary_path_texts(summary_views(v@)).to_set() == summary_paths(texts(files@).to_set(), threshold)
            &&& forall|k: int|
                0 <= k < v@.len() ==> #[trigger] summary_matches(
                    v@[k]@,
                    filter@,
                    replay@.commit_events,
                    texts(files@).to_set(),
                    k,
                    spacing as int,
                )
        },
{
    let ghost fs = texts(files@);
    let ghost sset = fs.to_set();
    let ghost inc = filter@;
    let ghost es = replay@.commit_events;
    let (keys, members) = group_by_parent(files);
    let mut d_keys: Vec<String> = Vec::new();
    let mut d_members: Vec<Vec<String>> = Vec::new();
    let mut d_counts: Vec<usize> = Vec::new();
    let mut d_emph: Vec<SceneEmphasis> = Vec::new();
    let ghost mut chosen: Seq<int> = Seq::empty();
    let mut g: usize = 0;
    proof {
        assert(texts(d_keys@).to_set() =~= Set::new(|d: Seq<char>| exists|h: int| 0 <= h < 0 && #[trigger] keys@[h]@ == d && members@[h]@.len() >= threshold));
    }
    while g < keys.len()
        invariant
            0 <= g <= keys.len(),
            fs == texts(files@),
            sset == fs.to_set(),
            strictly_sorted(fs),
            inc == filter@,
            es == replay@.commit_events,
            keys@.len() == members@.len(),
            strictly_sorted(texts(keys@)),
            texts(keys@).to_set() == Set::new(|d: Seq<char>| exists|p: Seq<char>| sset.contains(p) && #[trigger] parent_text(p) == Some(d)),
            forall|h: int| 0 <= h < keys@.len() ==> #[trigger] texts(members@[h]@) == with_parent(fs, keys@[h]@),
            chosen.len() == d_keys@.len(),
            d_members@.len() == d_keys@.len(),
            d_counts@.len() == d_keys@.len(),
            d_emph@.len() == d_keys@.len(),
            forall|a: int| 0 <= a < chosen.len() ==> 0 <= #[trigger] chosen[a] < g,
            forall|a: int, b: int| 0 <= a < b < chosen.len() ==> #[trigger] chosen[a] < #[trigger] chosen[b],
            forall|a: int|
                #![trigger d_keys@[a]]
                0 <= a < chosen.len() ==> {
                    &&& d_keys@[a]@ == keys@[chosen[a]]@
                    &&& texts(d_members@[a]@) == texts(members@[chosen[a]]@)
                    &&& dense_entry(inc, es, texts(d_members@[a]@), d_counts@[a], d_emph@[a])
                },
            texts(d_keys@).to_set() == Set::new(|d: Seq<char>| exists|h: int| 0 <= h < g && #[trigger] keys@[h]@ == d && members@[h]@.len() >= threshold),
            forall|h: int| 0 <= h < g && members@[h]@.len() >= threshold ==> count_touching(inc, es, #[trigger] texts(members@[h]@).to_set()) <= usize::MAX,
        decreases keys.len() - g,
    {
        let ghost old_set = texts(d_keys@).to_set();
        let ghost old_keys_d = d_keys@;
        let ghost old_members_d = d_members@;
        let ghost old_counts = d_counts@;
        let ghost old_emph = d_emph@;
        let ghost key = keys@[g as int]@;
        if members[g].len() >= threshold {
            let count = touching_count(replay, filter, &members[g]);
            match count {
                None => {
                    proof {
                        lemma_group_facts(fs, key, texts(members@[g as int]@));
                        assert(texts(keys@)[g as int] == key);
                        assert(texts(keys@).contains(key));
                        assert(texts(keys@).to_set().contains(key));
                        let p = choose|p: Seq<char>| sset.contains(p) && #[trigger] parent_text(p) == Some(key);
                        assert(summary_paths(sset, threshold).contains(key));
                    }
                    return None;
                },
                Some(n) => {
                    let emph = if all_paths_reduced(&members[g]) {
                        SceneEmphasis::DeEmphasized
                    } else {
                        SceneEmphasis::Normal
                    };
                    d_keys.push(keys[g].clone());
                    d_members.push(clone_strings(&members[g]));
                    d_counts.push(n);
                    d_emph.push(emph);
                    proof {
                        chosen = chosen.push(g as int);
                        assert forall|a: int|
                            #![trigger d_keys@[a]]
                            0 <= a < chosen.len() implies {
                                &&& d_keys@[a]@ == keys@[chosen[a]]@
                                &&& texts(d_members@[a]@) == texts(members@[chosen[a]]@)
                                &&& dense_entry(inc, es, texts(d_members@[a]@), d_counts@[a], d_emph@[a])
                            } by {
                            if a < chosen.len() - 1 {
                                assert(d_keys@[a] == old_keys_d[a]);
                                assert(d_members@[a] == old_members_d[a]);
                                assert(d_counts@[a] == old_counts[a]);
                                assert(d_emph@[a] == old_emph[a]);
                            }
                        }
                        assert(texts(d_keys@) =~= texts(old_keys_d).push(key));
                        let target = Set::new(|d: Seq<char>| exists|h: int| 0 <= h < g + 1 && #[trigger] keys@[h]@ == d && members@[h]@.len() >= threshold);
                        assert forall|d: Seq<char>| #[trigger] texts(d_keys@).to_set().contains(d) <==> target.contains(d) by {
                            if target.contains(d) {
                                let h = choose|h: int| 0 <= h < g + 1 && #[trigger] keys@[h]@ == d && members@[h]@.len() >= threshold;
                                if h < g {
                                    assert(old_set.contains(d));
                                    let q = texts(old_keys_d).index_of(d);
                                    assert(texts(d_keys@)[q] == d);
                                } else {
                                    assert(texts(d_keys@)[chosen.len() - 1] == d);
                                }
                            }
                            if texts(d_keys@).to_set().contains(d) {
                                let q = texts(d_keys@).index_of(d);
                                if q < chosen.len() - 1 {
                                    assert(texts(old_keys_d)[q] == d);
                                    assert(old_set.contains(d));
                                } else {
                                    assert(keys@[g as int]@ == d);
                                }
                            }
                        }
                        assert(texts(d_keys@).to_set() =~= target);
                    }
                },
            }
        } else {
            proof {
                let target = Set::new(|d: Seq<char>| exists|h: int| 0 <= h < g + 1 && #[trigger] keys@[h]@ == d && members@[h]@.len() >= threshold);
                assert forall|d: Seq<char>| #[trigger] texts(d_keys@).to_set().contains(d) <==> target.contains(d) by {
                    if target.contains(d) {
                        let h = choose|h: int| 0 <= h < g + 1 && #[trigger] keys@[h]@ == d && members@[h]@.len() >= threshold;
                        assert(h < g);
                    }
                }
                assert(texts(d_keys@).to_set() =~= target);
            }
        }
        g = g + 1;
    }
    let ghost dtexts = texts(d_keys@);
    proof {
        assert forall|a: int, b: int| 0 <= a < b < dtexts.len() implies seq_lt(#[trigger] dtexts[a], #[trigger] dtexts[b]) by {
            assert(chosen[a] < chosen[b]);
            assert(seq_lt(texts(keys@)[chosen[a]], texts(keys@)[chosen[b]]));
        }
        assert forall|d: Seq<char>| #[trigger] dtexts.to_set().contains(d) <==> summary_paths(sset, threshold).contains(d) by {
            if dtexts.to_set().contains(d) {
                let h = choose|h: int| 0 <= h < g && #[trigger] keys@[h]@ == d && members@[h]@.len() >= threshold;
                lemma_group_facts(fs, d, texts(members@[h]@));
                assert(texts(keys@)[h] == d);
                assert(texts(keys@).to_set().contains(d));
                let p = choose|p: Seq<char>| sset.contains(p) && #[trigger] parent_text(p) == Some(d);
                assert(in_directory(sset, d).len() >= threshold);
            }
            if summary_paths(sset, threshold).contains(d) {
                let p = choose|p: Seq<char>| sset.contains(p) && #[trigger] parent_text(p) == Some(d) && in_directory(sset, d).len() >= threshold;
                assert(texts(keys@).to_set().contains(d));
                let h = texts(keys@).index_of(d);
                lemma_group_facts(fs, d, texts(members@[h]@));
                assert(keys@[h]@ == d && members@[h]@.len() >= threshold);
            }
        }
        assert(dtexts.to_set() =~= summary_paths(sset, threshold));
        lemma_strictly_sorted_no_duplicates(dtexts);
        assert forall|d: Seq<char>| #[trigger] summary_paths(sset, threshold).contains(d) implies count_touching(inc, es, in_directory(sset, d)) <= usize::MAX by {
            assert(dtexts.to_set().contains(d));
            let h = choose|h: int| 0 <= h < g && #[trigger] keys@[h]@ == d && members@[h]@.len() >= threshold;
            lemma_group_facts(fs, d, texts(members@[h]@));
        }
    }
    let n = d_keys.len();
    if n > 0 {
        let last = (n - 1) as u64;
        let wide = spacing as i64;
        if wide * 3 > i32::MAX as i64 || last > i32::MAX as u64 {
            return None;
        }
        proof {
            vstd::arithmetic::mul::lemma_mul_upper_bound(last as int, i32::MAX as int, wide as int, i32::MAX as int);
        }
        if (last as i64) * wide > i32::MAX as i64 {
            return None;
        }
    }
    let mut out: Vec<VisualSummary> = Vec::new();
    let mut k: usize = 0;
    while k < n
        invariant
            0 <= k <= n,
            n == d_keys@.len(),
            dtexts == texts(d_keys@),
            strictly_sorted(fs),
            sset == fs.to_set(),
            spacing >= 0,
            fits_row(n as int, 3, spacing as int),
            inc == filter@,
            es == replay@.commit_events,
            chosen.len() == d_keys@.len(),
            d_members@.len() == d_keys@.len(),
            d_counts@.len() == d_keys@.len(),
            d_emph@.len() == d_keys@.len(),
            forall|a: int| 0 <= a < chosen.len() ==> 0 <= #[trigger] chosen[a] < keys@.len(),
            forall|h: int| 0 <= h < keys@.len() ==> #[trigger] texts(members@[h]@) == with_parent(fs, keys@[h]@),
            forall|a: int|
                #![trigger d_keys@[a]]
                0 <= a < chosen.len() ==> {
                    &&& d_keys@[a]@ == keys@[chosen[a]]@
                    &&& texts(d_members@[a]@) == texts(members@[chosen[a]]@)
                    &&& dense_entry(inc, es, texts(d_members@[a]@), d_counts@[a], d_emph@[a])
                },
            out@.len() == k,
            forall|a: int| 0 <= a < k ==> (#[trigger] out@[a]@).path == dtexts[a],
            forall|a: int| 0 <= a < k ==> #[trigger] summary_matches(out@[a]@, inc, es, sset, a, spacing as int),
        decreases n - k,
    {
        let ghost key = dtexts[k as int];
        proof {
            lemma_fits_row_index(n as int, 3, spacing as int, k as int);
            lemma_group_facts(fs, key, texts(d_members@[k as int]@));
        }
        let group = &d_members[k];
        let ids = file_ids_of(group);
        let summary = VisualSummary {
            id: VisualSummarySceneId(concat("summary:", d_keys[k].as_str())),
            path: d_keys[k].clone(),
            represented_file_ids: ids,
            represented_entity_count: group.len(),
            activity_count: d_counts[k],
            weight: VisualSummaryWeight(d_counts[k]),
            position: ScenePosition::new(k, 3, spacing),
            emphasis: d_emph[k],
        };
        let ghost before = out@;
        out.push(summary);
        proof {
            assert(d_keys@[k as int]@ == key);
            assert forall|a: int| 0 <= a < k + 1 implies #[trigger] summary_matches(out@[a]@, inc, es, sset, a, spacing as int) by {
                if a < k {
                    assert(out@[a] == before[a]);
                }
            }
            assert forall|a: int| 0 <= a < k + 1 implies (#[trigger] out@[a]@).path == dtexts[a] by {
                if a < k {
                    assert(out@[a] == before[a]);
                }
            }
        }
        k = k + 1;
    }
    proof {
        assert(summary_path_texts(summary_views(out@)) =~= dtexts);
    }
    Some(out)
}

} // verus!
