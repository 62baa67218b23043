//! The Repository Replay timeline: commit events, file changes,
//! contributors, branch flow and competing changes.

use vstd::prelude::*;

use crate::text::owned;

verus! {

/// The branch treated as the primary history path.
#[derive(Debug, PartialEq, Eq)]
pub struct Mainline(String);

impl View for Mainline {
    type V = Seq<char>;

    closed spec fn view(&self) -> Seq<char> {
        self.0@
    }
}

impl Clone for Mainline {
    fn clone(&self) -> (r: Self)
        ensures
            r@ == self@,
    {
        Mainline(self.0.clone())
    }
}

impl Mainline {
    /// Creates a Mainline name.
    pub fn new(name: &str) -> (r: Self)
        ensures
            r@ == name@,
    {
        Mainline(owned(name))
    }

    /// Returns the Mainline name.
    pub fn as_str(&self) -> (r: &str)
        ensures
            r@ == self@,
    {
        self.0.as_str()
    }
}

/// A commit subject as recorded by Git.
#[derive(Debug, Clone, PartialEq, Eq)]
pub struct CommitSubject(String);

impl View for CommitSubject {
    type V = Seq<char>;

    closed spec fn view(&self) -> Seq<char> {
        self.0@
    }
}

impl CommitSubject {
    /// Creates a commit subject.
    pub fn new(value: &str) -> (r: Self)
        ensures
            r@ == value@,
    {
        CommitSubject(owned(value))
    }

    /// Returns the subject text.
    pub fn as_str(&self) -> (r: &str)
        ensures
            r@ == self@,
    {
        self.0.as_str()
    }
}

/// A stable commit identifier as provided by Repository Ingestion.
#[derive(Debug, PartialEq, Eq, Hash)]
pub struct CommitId(String);

impl View for CommitId {
    type V = Seq<char>;

    closed spec fn view(&self) -> Seq<char> {
        self.0@
    }
}

impl Clone for CommitId {
    fn clone(&self) -> (r: Self)
        ensures
            r@ == self@,
    {
        CommitId(self.0.clone())
    }
}

impl CommitId {
    /// Creates a Commit Event identifier.
    pub fn new(value: &str) -> (r: Self)
        ensures
            r@ == value@,
    {
        CommitId(owned(value))
    }

    /// Returns the identifier text.
    pub fn as_str(&self) -> (r: &str)
        ensures
            r@ == self@,
    {
        self.0.as_str()
    }
}

/// The texts of a sequence of commit identifiers.
pub open spec fn commit_id_texts(ids: Seq<CommitId>) -> Seq<Seq<char>> {
    ids.map_values(|id: CommitId| id@)
}

/// A visual participant in a Repository Replay, named by its
/// repository-relative path.
#[derive(Debug, PartialEq, Eq, Hash)]
pub struct RepositoryEntity {
    path: String,
}

impl View for RepositoryEntity {
    type V = Seq<char>;

    closed spec fn view(&self) -> Seq<char> {
        self.path@
    }
}

impl Clone for RepositoryEntity {
    fn clone(&self) -> (r: Self)
        ensures
            r@ == self@,
    {
        RepositoryEntity { path: self.path.clone() }
    }
}

impl RepositoryEntity {
    /// Creates a Repository Entity from a repository-relative path.
    pub fn new(path: &str) -> (r: Self)
        ensures
            r@ == path@,
    {
        RepositoryEntity { path: owned(path) }
    }

    /// Returns the repository-relative path for the entity.
    pub fn path(&self) -> (r: &String)
        ensures
            r@ == self@,
    {
        &self.path
    }
}

/// The visible kind of a File Change.
#[derive(Debug, Clone, Copy, PartialEq, Eq)]
pub enum FileChangeKind {
    /// A Repository Entity was added.
    Added,
    /// A Repository Entity was modified.
    Modified,
    /// A Repository Entity was deleted.
    Deleted,
    /// A Repository Entity was moved or renamed.
    Moved,
}

/// What a File Change says: the affected path, the previous path of a move,
/// and the kind.
pub struct FileChangeView {
    pub entity: Seq<char>,
    pub previous_entity: Option<Seq<char>>,
    pub kind: FileChangeKind,
}

/// A visible change to a repository entity.
#[derive(Debug, PartialEq, Eq)]
pub struct FileChange {
    entity: RepositoryEntity,
    previous_entity: Option<RepositoryEntity>,
    kind: FileChangeKind,
}

impl View for FileChange {
    type V = FileChangeView;

    closed spec fn view(&self) -> FileChangeView {
        FileChangeView {
            entity: self.entity@,
            previous_entity: match self.previous_entity {
                Some(e) => Some(e@),
                None => None,
            },
            kind: self.kind,
        }
    }
}

impl Clone for FileChange {
    fn clone(&self) -> (r: Self)
        ensures
            r@ == self@,
    {
        FileChange {
            entity: self.entity.clone(),
            previous_entity: match &self.previous_entity {
                Some(e) => Some(e.clone()),
                None => None,
            },
            kind: self.kind,
        }
    }
}

impl FileChange {
    /// Creates a File Change.
    pub fn new(entity: RepositoryEntity, kind: FileChangeKind) -> (r: Self)
        ensures
            r@ == (FileChangeView { entity: entity@, previous_entity: None, kind }),
    {
        FileChange { entity, previous_entity: None, kind }
    }

    /// Creates a moved or renamed File Change with source and destination evidence.
    pub fn moved(from: RepositoryEntity, to: RepositoryEntity) -> (r: Self)
        ensures
            r@ == (FileChangeView {
                entity: to@,
                previous_entity: Some(from@),
                kind: FileChangeKind::Moved,
            }),
    {
        FileChange { entity: to, previous_entity: Some(from), kind: FileChangeKind::Moved }
    }

    /// Returns the Repository Entity affected by the change.
    pub fn entity(&self) -> (r: &RepositoryEntity)
        ensures
            r@ == self@.entity,
    {
        &self.entity
    }

    /// Returns the previous Repository Entity for moves or renames.
    pub fn previous_entity(&self) -> (r: Option<&RepositoryEntity>)
        ensures
            r.is_some() == self@.previous_entity.is_some(),
            r matches Some(e) ==> e@ == self@.previous_entity.unwrap(),
    {
        match &self.previous_entity {
            Some(e) => Some(e),
            None => None,
        }
    }

    /// Returns the change kind.
    pub fn kind(&self) -> (r: &FileChangeKind)
        ensures
            *r == self@.kind,
    {
        &self.kind
    }
}

/// The views of a sequence of File Changes.
pub open spec fn file_change_views(s: Seq<FileChange>) -> Seq<FileChangeView> {
    s.map_values(|c: FileChange| c@)
}

/// Copies a vector of File Changes.
pub fn clone_file_changes(v: &Vec<FileChange>) -> (r: Vec<FileChange>)
    ensures
        file_change_views(r@) == file_change_views(v@),
{
    let mut r: Vec<FileChange> = Vec::new();
    for i in 0..v.len()
        invariant
            r@.len() == i,
            forall|k: int| 0 <= k < i ==> #[trigger] r@[k]@ == v@[k]@,
    {
        r.push(v[i].clone());
    }
    assert(file_change_views(r@) =~= file_change_views(v@));
    r
}

/// Classification for a Contributor.
#[derive(Debug, Clone, Copy, PartialEq, Eq)]
pub enum ContributorKind {
    /// A person identity.
    Human,
    /// A bot, script, dependency service, or other non-human identity.
    Automation,
}

/// What a Contributor is: display name, identity key and kind.
pub struct ContributorView {
    pub display_name: Seq<char>,
    pub identity_key: Seq<char>,
    pub kind: ContributorKind,
}

/// A normalized person or service identity.
#[derive(Debug, PartialEq, Eq)]
pub struct Contributor {
    display_name: String,
    identity_key: String,
    kind: ContributorKind,
}

impl View for Contributor {
    type V = ContributorView;

    closed spec fn view(&self) -> ContributorView {
        ContributorView {
            display_name: self.display_name@,
            identity_key: self.identity_key@,
            kind: self.kind,
        }
    }
}

impl Clone for Contributor {
    fn clone(&self) -> (r: Self)
        ensures
            r@ == self@,
    {
        Contributor {
            display_name: self.display_name.clone(),
            identity_key: self.identity_key.clone(),
            kind: self.kind,
        }
    }
}

impl Contributor {
    /// Creates a human Contributor whose identity key is its display name.
    pub fn human(display_name: &str) -> (r: Self)
        ensures
            r@ == (ContributorView {
                display_name: display_name@,
                identity_key: display_name@,
                kind: ContributorKind::Human,
            }),
    {
        Contributor {
            display_name: owned(display_name),
            identity_key: owned(display_name),
            kind: ContributorKind::Human,
        }
    }

    /// Creates a human Contributor with a stable normalized identity key.
    pub fn normalized_human(display_name: &str, identity_key: &str) -> (r: Self)
        ensures
            r@ == (ContributorView {
                display_name: display_name@,
                identity_key: identity_key@,
                kind: ContributorKind::Human,
            }),
    {
        Contributor {
            display_name: owned(display_name),
            identity_key: owned(identity_key),
            kind: ContributorKind::Human,
        }
    }

    /// Creates an Automation Contributor whose identity key is its display name.
    pub fn automation(display_name: &str) -> (r: Self)
        ensures
            r@ == (ContributorView {
                display_name: display_name@,
                identity_key: display_name@,
                kind: ContributorKind::Automation,
            }),
    {
        Contributor {
            display_name: owned(display_name),
            identity_key: owned(display_name),
            kind: ContributorKind::Automation,
        }
    }

    /// Creates an Automation Contributor with a stable normalized identity key.
    pub fn normalized_automation(display_name: &str, identity_key: &str) -> (r: Self)
        ensures
            r@ == (ContributorView {
                display_name: display_name@,
                identity_key: identity_key@,
                kind: ContributorKind::Automation,
            }),
    {
        Contributor {
            display_name: owned(display_name),
            identity_key: owned(identity_key),
            kind: ContributorKind::Automation,
        }
    }

    /// Returns the display name.
    pub fn display_name(&self) -> (r: &str)
        ensures
            r@ == self@.display_name,
    {
        self.display_name.as_str()
    }

    /// Returns the stable normalized identity key.
    pub fn identity_key(&self) -> (r: &str)
        ensures
            r@ == self@.identity_key,
    {
        self.identity_key.as_str()
    }

    /// Returns the Contributor kind.
    pub fn kind(&self) -> (r: ContributorKind)
        ensures
            r == self@.kind,
    {
        self.kind
    }
}

/// A Git timestamp with UTC seconds and timezone offset evidence.
#[derive(Debug, Clone, Copy, PartialEq, Eq)]
pub struct GitTimestamp {
    seconds: i64,
    offset_minutes: i32,
}

impl View for GitTimestamp {
    type V = (i64, i32);

    closed spec fn view(&self) -> (i64, i32) {
        (self.seconds, self.offset_minutes)
    }
}

impl GitTimestamp {
    /// Creates a Git timestamp.
    pub fn new(seconds: i64, offset_minutes: i32) -> (r: Self)
        ensures
            r@ == (seconds, offset_minutes),
    {
        GitTimestamp { seconds, offset_minutes }
    }

    /// Returns seconds since the Unix epoch.
    pub fn seconds(self) -> (r: i64)
        ensures
            r == self@.0,
    {
        self.seconds
    }

    /// Returns the timezone offset in minutes.
    pub fn offset_minutes(self) -> (r: i32)
        ensures
            r == self@.1,
    {
        self.offset_minutes
    }
}

/// What raw Contributor evidence records: signature name, email and time.
pub struct ContributorEvidenceView {
    pub name: Seq<char>,
    pub email: Seq<char>,
    pub timestamp: (i64, i32),
}

/// Raw Contributor evidence recorded on a Git commit.
#[derive(Debug, PartialEq, Eq)]
pub struct ContributorEvidence {
    name: String,
    email: String,
    timestamp: GitTimestamp,
}

impl View for ContributorEvidence {
    type V = ContributorEvidenceView;

    closed spec fn view(&self) -> ContributorEvidenceView {
        ContributorEvidenceView { name: self.name@, email: self.email@, timestamp: self.timestamp@ }
    }
}

impl Clone for ContributorEvidence {
    fn clone(&self) -> (r: Self)
        ensures
            r@ == self@,
    {
        ContributorEvidence {
            name: self.name.clone(),
            email: self.email.clone(),
            timestamp: self.timestamp,
        }
    }
}

impl ContributorEvidence {
    /// Creates raw Contributor evidence from Git signature data.
    pub fn new(name: &str, email: &str, timestamp: GitTimestamp) -> (r: Self)
        ensures
            r@ == (ContributorEvidenceView {
                name: name@,
                email: email@,
                timestamp: timestamp@,
            }),
    {
        ContributorEvidence { name: owned(name), email: owned(email), timestamp }
    }

    /// Returns the raw Git signature name.
    pub fn name(&self) -> (r: &str)
        ensures
            r@ == self@.name,
    {
        self.name.as_str()
    }

    /// Returns the raw Git signature email.
    pub fn email(&self) -> (r: &str)
        ensures
            r@ == self@.email,
    {
        self.email.as_str()
    }

    /// Returns the Git signature timestamp.
    pub fn timestamp(&self) -> (r: GitTimestamp)
        ensures
            r@ == self@.timestamp,
    {
        self.timestamp
    }
}

/// What a Merge Settlement records.
pub struct MergeSettlementView {
    pub branch: Seq<char>,
    pub mainline: Seq<char>,
    pub settled_commit_ids: Seq<Seq<char>>,
}

/// Branch work settled into the Mainline by a merge Commit Event.
#[derive(Debug, PartialEq, Eq)]
pub struct MergeSettlement {
    branch: String,
    mainline: Mainline,
    settled_commit_ids: Vec<CommitId>,
}

impl View for MergeSettlement {
    type V = MergeSettlementView;

    closed spec fn view(&self) -> MergeSettlementView {
        MergeSettlementView {
            branch: self.branch@,
            mainline: self.mainline@,
            settled_commit_ids: commit_id_texts(self.settled_commit_ids@),
        }
    }
}

/// Copies a vector of commit identifiers.
pub fn clone_commit_ids(v: &Vec<CommitId>) -> (r: Vec<CommitId>)
    ensures
        commit_id_texts(r@) == commit_id_texts(v@),
{
    let mut r: Vec<CommitId> = Vec::new();
    for i in 0..v.len()
        invariant
            r@.len() == i,
            forall|k: int| 0 <= k < i ==> #[trigger] r@[k]@ == v@[k]@,
    {
        r.push(v[i].clone());
    }
    assert(commit_id_texts(r@) =~= commit_id_texts(v@));
    r
}

impl Clone for MergeSettlement {
    fn clone(&self) -> (r: Self)
        ensures
            r@ == self@,
    {
        MergeSettlement {
            branch: self.branch.clone(),
            mainline: self.mainline.clone(),
            settled_commit_ids: clone_commit_ids(&self.settled_commit_ids),
        }
    }
}

impl MergeSettlement {
    /// Creates Merge Settlement evidence.
    pub fn new(branch: &str, mainline: Mainline, settled_commit_ids: Vec<CommitId>) -> (r: Self)
        ensures
            r@ == (MergeSettlementView {
                branch: branch@,
                mainline: mainline@,
                settled_commit_ids: commit_id_texts(settled_commit_ids@),
            }),
    {
        MergeSettlement { branch: owned(branch), mainline, settled_commit_ids }
    }

    /// Returns the local branch whose provisional work is settled.
    pub fn branch(&self) -> (r: &str)
        ensures
            r@ == self@.branch,
    {
        self.branch.as_str()
    }

    /// Returns the Mainline receiving the settled work.
    pub fn mainline(&self) -> (r: &Mainline)
        ensures
            r@ == self@.mainline,
    {
        &self.mainline
    }

    /// Returns the Commit Events settled by this merge.
    pub fn settled_commit_ids(&self) -> (r: &[CommitId])
        ensures
            commit_id_texts(r@) == self@.settled_commit_ids,
    {
        self.settled_commit_ids.as_slice()
    }
}

/// The views of a sequence of Merge Settlements.
pub open spec fn settlement_views(s: Seq<MergeSettlement>) -> Seq<MergeSettlementView> {
    s.map_values(|m: MergeSettlement| m@)
}

/// What a branch-flow classification says.
pub enum BranchFlowView {
    Mainline,
    BranchSuperposition { branch: Seq<char>, mainline: Seq<char> },
    MergeSettlements(Seq<MergeSettlementView>),
}

/// Branch-flow classification for a Commit Event in Repository Replay.
#[derive(Debug, PartialEq, Eq)]
pub enum BranchFlow {
    /// The Commit Event is on the selected Mainline.
    Mainline,
    /// The Commit Event is provisional work from a branch relative to the Mainline.
    BranchSuperposition {
        /// Local branch name carrying the provisional work.
        branch: String,
        /// Mainline the branch is provisional against.
        mainline: Mainline,
    },
    /// One or more branch settlements attached to a merge Commit Event.
    MergeSettlements(Vec<MergeSettlement>),
}

impl View for BranchFlow {
    type V = BranchFlowView;

    open spec fn view(&self) -> BranchFlowView {
        match self {
            BranchFlow::Mainline => BranchFlowView::Mainline,
            BranchFlow::BranchSuperposition { branch, mainline } => {
                BranchFlowView::BranchSuperposition { branch: branch@, mainline: mainline@ }
            },
            BranchFlow::MergeSettlements(settlements) => BranchFlowView::MergeSettlements(
                settlement_views(settlements@),
            ),
        }
    }
}

impl Clone for BranchFlow {
    fn clone(&self) -> (r: Self)
        ensures
            r@ == self@,
    {
        match self {
            BranchFlow::Mainline => BranchFlow::Mainline,
            BranchFlow::BranchSuperposition { branch, mainline } => BranchFlow::BranchSuperposition {
                branch: branch.clone(),
                mainline: mainline.clone(),
            },
            BranchFlow::MergeSettlements(settlements) => {
                let mut r: Vec<MergeSettlement> = Vec::new();
                for i in 0..settlements.len()
                    invariant
                        r@.len() == i,
                        forall|k: int| 0 <= k < i ==> #[trigger] r@[k]@ == settlements@[k]@,
                {
                    r.push(settlements[i].clone());
                }
                assert(settlement_views(r@) =~= settlement_views(settlements@));
                BranchFlow::MergeSettlements(r)
            },
        }
    }
}

/// Evidence source used to detect a Competing Change.
#[derive(Debug, Clone, Copy, PartialEq, Eq)]
pub enum CompetingChangeSource {
    /// Repository-relative file path overlap across Branch Superpositions.
    FileLevelOverlap,
}

/// Confidence assigned to a Competing Change source.
#[derive(Debug, Clone, Copy, PartialEq, Eq)]
pub enum CompetingChangeConfidence {
    /// Medium confidence: overlapping files, without line-range or symbol proof.
    Medium,
}

/// What one piece of Competing Change evidence records.
pub struct CompetingChangeEvidenceView {
    pub branch: Seq<char>,
    pub commit_id: Seq<char>,
}

/// Branch Superposition evidence for a Competing Change.
#[derive(Debug, Clone, PartialEq, Eq)]
pub struct CompetingChangeEvidence {
    branch: String,
    commit_id: CommitId,
}

impl View for CompetingChangeEvidence {
    type V = CompetingChangeEvidenceView;

    closed spec fn view(&self) -> CompetingChangeEvidenceView {
        CompetingChangeEvidenceView { branch: self.branch@, commit_id: self.commit_id@ }
    }
}

impl CompetingChangeEvidence {
    /// Creates branch and Commit Event evidence for a Competing Change.
    pub fn new(branch: &str, commit_id: CommitId) -> (r: Self)
        ensures
            r@ == (CompetingChangeEvidenceView { branch: branch@, commit_id: commit_id@ }),
    {
        CompetingChangeEvidence { branch: owned(branch), commit_id }
    }

    /// Returns the branch carrying provisional work.
    pub fn branch(&self) -> (r: &str)
        ensures
            r@ == self@.branch,
    {
        self.branch.as_str()
    }

    /// Returns the Commit Event identifier for this evidence.
    pub fn commit_id(&self) -> (r: &CommitId)
        ensures
            r@ == self@.commit_id,
    {
        &self.commit_id
    }
}

/// The views of a sequence of Competing Change evidence.
pub open spec fn competing_evidence_views(s: Seq<CompetingChangeEvidence>) -> Seq<
    CompetingChangeEvidenceView,
> {
    s.map_values(|e: CompetingChangeEvidence| e@)
}

/// What a Competing Change records.
pub struct CompetingChangeView {
    pub entity: Seq<char>,
    pub source: CompetingChangeSource,
    pub confidence: CompetingChangeConfidence,
    pub evidence: Seq<CompetingChangeEvidenceView>,
}

/// Provisional overlap between branch changes before Merge Settlement.
#[derive(Debug, Clone, PartialEq, Eq)]
pub struct CompetingChange {
    entity: RepositoryEntity,
    source: CompetingChangeSource,
    confidence: CompetingChangeConfidence,
    evidence: Vec<CompetingChangeEvidence>,
}

impl View for CompetingChange {
    type V = CompetingChangeView;

    closed spec fn view(&self) -> CompetingChangeView {
        CompetingChangeView {
            entity: self.entity@,
            source: self.source,
            confidence: self.confidence,
            evidence: competing_evidence_views(self.evidence@),
        }
    }
}

impl CompetingChange {
    /// Creates a Competing Change with typed source and confidence.
    pub fn new(
        entity: RepositoryEntity,
        source: CompetingChangeSource,
        confidence: CompetingChangeConfidence,
        evidence: Vec<CompetingChangeEvidence>,
    ) -> (r: Self)
        ensures
            r@ == (CompetingChangeView {
                entity: entity@,
                source,
                confidence,
                evidence: competing_evidence_views(evidence@),
            }),
    {
        CompetingChange { entity, source, confidence, evidence }
    }

    /// Returns the Repository Entity with overlapping provisional changes.
    pub fn entity(&self) -> (r: &RepositoryEntity)
        ensures
            r@ == self@.entity,
    {
        &self.entity
    }

    /// Returns the detection source for this Competing Change.
    pub fn source(&self) -> (r: CompetingChangeSource)
        ensures
            r == self@.source,
    {
        self.source
    }

    /// Returns the confidence level for this Competing Change.
    pub fn confidence(&self) -> (r: CompetingChangeConfidence)
        ensures
            r == self@.confidence,
    {
        self.confidence
    }

    /// Returns the branch and commit evidence behind this Competing Change.
    pub fn evidence(&self) -> (r: &[CompetingChangeEvidence])
        ensures
            competing_evidence_views(r@) == self@.evidence,
    {
        self.evidence.as_slice()
    }
}

/// The views of a sequence of Competing Changes.
pub open spec fn competing_change_views(s: Seq<CompetingChange>) -> Seq<CompetingChangeView> {
    s.map_values(|c: CompetingChange| c@)
}

/// What a Commit Event (or the evidence it is built from) records.
pub struct CommitEventView {
    pub id: Seq<char>,
    pub parent_ids: Seq<Seq<char>>,
    pub branch_flow: BranchFlowView,
    pub subject: Seq<char>,
    pub authored_at: (i64, i32),
    pub committed_at: (i64, i32),
    pub author: ContributorEvidenceView,
    pub committer: ContributorEvidenceView,
    pub contributor: ContributorView,
    pub file_changes: Seq<FileChangeView>,
}

/// Semantic evidence used to build a Commit Event from Repository Ingestion.
#[derive(Debug, Clone, PartialEq, Eq)]
pub struct CommitEvidence {
    id: CommitId,
    parent_ids: Vec<CommitId>,
    branch_flow: BranchFlow,
    subject: CommitSubject,
    authored_at: GitTimestamp,
    committed_at: GitTimestamp,
    author: ContributorEvidence,
    committer: ContributorEvidence,
    contributor: Contributor,
    file_changes: Vec<FileChange>,
}

impl View for CommitEvidence {
    type V = CommitEventView;

    closed spec fn view(&self) -> CommitEventView {
        CommitEventView {
            id: self.id@,
            parent_ids: commit_id_texts(self.parent_ids@),
            branch_flow: self.branch_flow@,
            subject: self.subject@,
            authored_at: self.authored_at@,
            committed_at: self.committed_at@,
            author: self.author@,
            committer: self.committer@,
            contributor: self.contributor@,
            file_changes: file_change_views(self.file_changes@),
        }
    }
}

impl CommitEvidence {
    /// Creates semantic Commit Event evidence: no parents, on the Mainline,
    /// no File Changes, with author and committer times taken from the
    /// signatures.
    pub fn new(
        id: CommitId,
        subject: CommitSubject,
        author: ContributorEvidence,
        committer: ContributorEvidence,
        contributor: Contributor,
    ) -> (r: Self)
        ensures
            r@ == (CommitEventView {
                id: id@,
                parent_ids: Seq::empty(),
                branch_flow: BranchFlowView::Mainline,
                subject: subject@,
                authored_at: author@.timestamp,
                committed_at: committer@.timestamp,
                author: author@,
                committer: committer@,
                contributor: contributor@,
                file_changes: Seq::empty(),
            }),
    {
        let authored_at = author.timestamp();
        let committed_at = committer.timestamp();
        let r = CommitEvidence {
            id,
            parent_ids: Vec::new(),
            branch_flow: BranchFlow::Mainline,
            subject,
            authored_at,
            committed_at,
            author,
            committer,
            contributor,
            file_changes: Vec::new(),
        };
        assert(commit_id_texts(r.parent_ids@) =~= Seq::empty());
        assert(file_change_views(r.file_changes@) =~= Seq::empty());
        r
    }

    /// Sets parent Commit Event identifiers.
    pub fn with_parent_ids(self, parent_ids: Vec<CommitId>) -> (r: Self)
        ensures
            r@ == (CommitEventView { parent_ids: commit_id_texts(parent_ids@), ..self@ }),
    {
        CommitEvidence { parent_ids, ..self }
    }

    /// Sets the branch-flow state for this Commit Event.
    pub fn with_branch_flow(self, branch_flow: BranchFlow) -> (r: Self)
        ensures
            r@ == (CommitEventView { branch_flow: branch_flow@, ..self@ }),
    {
        CommitEvidence { branch_flow, ..self }
    }

    /// Sets visible File Changes.
    pub fn with_file_changes(self, file_changes: Vec<FileChange>) -> (r: Self)
        ensures
            r@ == (CommitEventView { file_changes: file_change_views(file_changes@), ..self@ }),
    {
        CommitEvidence { file_changes, ..self }
    }
}

/// A timeline unit in a Repository Replay.
#[derive(Debug, Clone, PartialEq, Eq)]
pub struct CommitEvent {
    id: CommitId,
    parent_ids: Vec<CommitId>,
    branch_flow: BranchFlow,
    subject: CommitSubject,
    authored_at: GitTimestamp,
    committed_at: GitTimestamp,
    author: ContributorEvidence,
    committer: ContributorEvidence,
    contributor: Contributor,
    file_changes: Vec<FileChange>,
}

impl View for CommitEvent {
    type V = CommitEventView;

    closed spec fn view(&self) -> CommitEventView {
        CommitEventView {
            id: self.id@,
            parent_ids: commit_id_texts(self.parent_ids@),
            branch_flow: self.branch_flow@,
            subject: self.subject@,
            authored_at: self.authored_at@,
            committed_at: self.committed_at@,
            author: self.author@,
            committer: self.committer@,
            contributor: self.contributor@,
            file_changes: file_change_views(self.file_changes@),
        }
    }
}

impl CommitEvent {
    /// Creates a Commit Event on the Mainline with an empty subject, no
    /// parents, zero timestamps, and author and committer evidence that carry
    /// the Contributor's display name and an empty email.
    pub fn new(id: CommitId, contributor: Contributor, file_changes: Vec<FileChange>) -> (r: Self)
        ensures
            r@ == (CommitEventView {
                id: id@,
                parent_ids: Seq::empty(),
                branch_flow: BranchFlowView::Mainline,
                subject: Seq::empty(),
                authored_at: (0, 0),
                committed_at: (0, 0),
                author: ContributorEvidenceView {
                    name: contributor@.display_name,
                    email: Seq::empty(),
                    timestamp: (0, 0),
                },
                committer: ContributorEvidenceView {
                    name: contributor@.display_name,
                    email: Seq::empty(),
                    timestamp: (0, 0),
                },
                contributor: contributor@,
                file_changes: file_change_views(file_changes@),
            }),
    {
        let author = ContributorEvidence::new(contributor.display_name(), "", GitTimestamp::new(0, 0));
        let committer = ContributorEvidence::new(
            contributor.display_name(),
            "",
            GitTimestamp::new(0, 0),
        );
        let subject = CommitSubject::new("");
        proof {
            reveal_strlit("");
            assert(""@ =~= Seq::<char>::empty());
        }
        let r = CommitEvent {
            id,
            parent_ids: Vec::new(),
            branch_flow: BranchFlow::Mainline,
            subject,
            authored_at: GitTimestamp::new(0, 0),
            committed_at: GitTimestamp::new(0, 0),
            author,
            committer,
            contributor,
            file_changes,
        };
        assert(commit_id_texts(r.parent_ids@) =~= Seq::empty());
        r
    }

    /// Creates a Commit Event from Repository Ingestion evidence.
    pub fn from_evidence(evidence: CommitEvidence) -> (r: Self)
        ensures
            r@ == evidence@,
    {
        CommitEvent {
            id: evidence.id,
            parent_ids: evidence.parent_ids,
            branch_flow: evidence.branch_flow,
            subject: evidence.subject,
            authored_at: evidence.authored_at,
            committed_at: evidence.committed_at,
            author: evidence.author,
            committer: evidence.committer,
            contributor: evidence.contributor,
            file_changes: evidence.file_changes,
        }
    }

    /// Returns the Commit Event identifier.
    pub fn id(&self) -> (r: &CommitId)
        ensures
            r@ == self@.id,
    {
        &self.id
    }

    /// Returns the parent Commit Event identifiers.
    pub fn parent_ids(&self) -> (r: &[CommitId])
        ensures
            commit_id_texts(r@) == self@.parent_ids,
    {
        self.parent_ids.as_slice()
    }

    /// Returns the branch-flow state for this Commit Event.
    pub fn branch_flow(&self) -> (r: &BranchFlow)
        ensures
            r@ == self@.branch_flow,
    {
        &self.branch_flow
    }

    /// Returns the commit subject.
    pub fn subject(&self) -> (r: &CommitSubject)
        ensures
            r@ == self@.subject,
    {
        &self.subject
    }

    /// Returns the author timestamp.
    pub fn authored_at(&self) -> (r: GitTimestamp)
        ensures
            r@ == self@.authored_at,
    {
        self.authored_at
    }

    /// Returns the committer timestamp.
    pub fn committed_at(&self) -> (r: GitTimestamp)
        ensures
            r@ == self@.committed_at,
    {
        self.committed_at
    }

    /// Returns raw author evidence.
    pub fn author(&self) -> (r: &ContributorEvidence)
        ensures
            r@ == self@.author,
    {
        &self.author
    }

    /// Returns raw committer evidence.
    pub fn committer(&self) -> (r: &ContributorEvidence)
        ensures
            r@ == self@.committer,
    {
        &self.committer
    }

    /// Returns the Contributor for this Commit Event.
    pub fn contributor(&self) -> (r: &Contributor)
        ensures
            r@ == self@.contributor,
    {
        &self.contributor
    }

    /// Returns the visible File Changes in this Commit Event.
    pub fn file_changes(&self) -> (r: &[FileChange])
        ensures
            file_change_views(r@) == self@.file_changes,
    {
        self.file_changes.as_slice()
    }
}

/// The views of a sequence of Commit Events.
pub open spec fn commit_event_views(s: Seq<CommitEvent>) -> Seq<CommitEventView> {
    s.map_values(|e: CommitEvent| e@)
}

/// What a Repository Replay holds: its Mainline, its Commit Events in
/// playback order, and its Competing Changes.
pub struct RepositoryReplayView {
    pub mainline: Seq<char>,
    pub commit_events: Seq<CommitEventView>,
    pub competing_changes: Seq<CompetingChangeView>,
}

/// A deterministic playback model for a repository's history.
#[derive(Debug, Clone, PartialEq, Eq)]
pub struct RepositoryReplay {
    mainline: Mainline,
    commit_events: Vec<CommitEvent>,
    competing_changes: Vec<CompetingChange>,
}

impl View for RepositoryReplay {
    type V = RepositoryReplayView;

    closed spec fn view(&self) -> RepositoryReplayView {
        RepositoryReplayView {
            mainline: self.mainline@,
            commit_events: commit_event_views(self.commit_events@),
            competing_changes: competing_change_views(self.competing_changes@),
        }
    }
}

impl RepositoryReplay {
    /// Creates an empty Repository Replay for the given Mainline.
    pub fn new(mainline: Mainline) -> (r: Self)
        ensures
            r@ == (RepositoryReplayView {
                mainline: mainline@,
                commit_events: Seq::empty(),
                competing_changes: Seq::empty(),
            }),
    {
        let r = RepositoryReplay {
            mainline,
            commit_events: Vec::new(),
            competing_changes: Vec::new(),
        };
        assert(commit_event_views(r.commit_events@) =~= Seq::empty());
        assert(competing_change_views(r.competing_changes@) =~= Seq::empty());
        r
    }

    /// Returns the Mainline used for replay settlement.
    pub fn mainline(&self) -> (r: &Mainline)
        ensures
            r@ == self@.mainline,
    {
        &self.mainline
    }

    /// Returns the Commit Events in playback order.
    pub fn commit_events(&self) -> (r: &[CommitEvent])
        ensures
            commit_event_views(r@) == self@.commit_events,
    {
        self.commit_events.as_slice()
    }

    /// Returns provisional Competing Changes detected before Merge Settlement.
    pub fn competing_changes(&self) -> (r: &[CompetingChange])
        ensures
            competing_change_views(r@) == self@.competing_changes,
    {
        self.competing_changes.as_slice()
    }

    /// Appends a Commit Event to the Repository Replay timeline.
    pub fn push_commit_event(&mut self, commit_event: CommitEvent)
        ensures
            final(self)@ == (RepositoryReplayView {
                commit_events: old(self)@.commit_events.push(commit_event@),
                ..old(self)@
            }),
    {
        self.commit_events.push(commit_event);
        assert(commit_event_views(self.commit_events@) =~= commit_event_views(
            old(self).commit_events@,
        ).push(commit_event@));
    }

    /// Appends a Competing Change to the Repository Replay.
    pub fn push_competing_change(&mut self, competing_change: CompetingChange)
        ensures
            final(self)@ == (RepositoryReplayView {
                competing_changes: old(self)@.competing_changes.push(competing_change@),
                ..old(self)@
            }),
    {
        self.competing_changes.push(competing_change);
        assert(competing_change_views(self.competing_changes@) =~= competing_change_views(
            old(self).competing_changes@,
        ).push(competing_change@));
    }
}

} // verus!
