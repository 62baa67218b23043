//! Repository Ingestion: turning the commits read from a Git repository into
//! Repository Replay events.
//!
//! Reading the repository is the caller's part; it hands over, for each
//! commit of the Mainline walk (newest first), the plain record of what the
//! commit holds.

use vstd::prelude::*;

use crate::domain::{
    BranchFlowView, CommitEvent, CommitEventView, CommitEvidence, CommitId, CommitSubject,
    Contributor, ContributorEvidence, ContributorEvidenceView, ContributorKind, ContributorView,
    FileChange, FileChangeKind, FileChangeView, GitTimestamp, Mainline, RepositoryEntity,
    RepositoryReplay, RepositoryReplayView,
};
use crate::text::{concat, owned, push_text, texts};

verus! {

/// Input for preparing Git history into a Repository Replay.
#[derive(Debug, Clone, PartialEq, Eq)]
pub struct RepositoryIngestionRequest {
    repository_path: String,
    mainline: Mainline,
}

impl View for RepositoryIngestionRequest {
    type V = (Seq<char>, Seq<char>);

    closed spec fn view(&self) -> (Seq<char>, Seq<char>) {
        (self.repository_path@, self.mainline@)
    }
}

impl RepositoryIngestionRequest {
    /// Creates a Repository Ingestion request.
    pub fn new(repository_path: &str, mainline: Mainline) -> (r: Self)
        ensures
            r@ == (repository_path@, mainline@),
    {
        RepositoryIngestionRequest { repository_path: owned(repository_path), mainline }
    }

    /// Returns the repository path to ingest.
    pub fn repository_path(&self) -> (r: &str)
        ensures
            r@ == self@.0,
    {
        self.repository_path.as_str()
    }

    /// Returns the Mainline for replay settlement.
    pub fn mainline(&self) -> (r: &Mainline)
        ensures
            r@ == self@.1,
    {
        &self.mainline
    }
}

/// Minimal Repository Ingestion result.
#[derive(Debug, Clone, PartialEq, Eq)]
pub struct RepositoryIngestionSummary {
    replay: RepositoryReplay,
}

impl View for RepositoryIngestionSummary {
    type V = RepositoryReplayView;

    closed spec fn view(&self) -> RepositoryReplayView {
        self.replay@
    }
}

impl RepositoryIngestionSummary {
    /// Creates a Repository Ingestion summary.
    pub fn new(replay: RepositoryReplay) -> (r: Self)
        ensures
            r@ == replay@,
    {
        RepositoryIngestionSummary { replay }
    }

    /// Returns the prepared Repository Replay.
    pub fn replay(&self) -> (r: &RepositoryReplay)
        ensures
            r@ == self@,
    {
        &self.replay
    }
}

/// Builds an empty Repository Replay shell for the requested Mainline.
pub fn scaffold_repository_replay(request: &RepositoryIngestionRequest) -> (r: RepositoryIngestionSummary)
    ensures
        r@ == (RepositoryReplayView {
            mainline: request@.1,
            commit_events: Seq::empty(),
            competing_changes: Seq::empty(),
        }),
{
    RepositoryIngestionSummary::new(RepositoryReplay::new(request.mainline().clone()))
}

/// Error produced while preparing Repository Replay data.
#[derive(Debug, Clone, PartialEq, Eq)]
pub struct RepositoryIngestionError {
    message: String,
}

impl View for RepositoryIngestionError {
    type V = Seq<char>;

    closed spec fn view(&self) -> Seq<char> {
        self.message@
    }
}

impl RepositoryIngestionError {
    /// Creates an error with a message.
    pub fn new(message: &str) -> (r: Self)
        ensures
            r@ == message@,
    {
        RepositoryIngestionError { message: owned(message) }
    }

    /// Returns the message.
    pub fn message(&self) -> (r: &str)
        ensures
            r@ == self@,
    {
        self.message.as_str()
    }
}

/// The error for a Mainline that names no local branch.
pub fn missing_mainline_error(mainline: &Mainline) -> (r: RepositoryIngestionError)
    ensures
        r@ == "requested Mainline '"@ + mainline@ + "' was not found in local repository"@,
{
    let mut s = owned("requested Mainline '");
    push_text(&mut s, mainline.as_str());
    push_text(&mut s, "' was not found in local repository");
    RepositoryIngestionError { message: s }
}

/// The status git reports for one path of a commit's diff.
#[derive(Debug, Clone, Copy, PartialEq, Eq)]
pub enum DeltaStatus {
    /// No change.
    Unmodified,
    /// Added.
    Added,
    /// Deleted.
    Deleted,
    /// Modified.
    Modified,
    /// Renamed.
    Renamed,
    /// Copied.
    Copied,
    /// Ignored.
    Ignored,
    /// Untracked.
    Untracked,
    /// Its type changed.
    Typechange,
    /// Unreadable.
    Unreadable,
    /// In conflict.
    Conflicted,
}

/// One path of a commit's diff against its first parent.
#[derive(Debug, Clone, PartialEq, Eq)]
pub struct DeltaRecord {
    /// What happened to the path.
    pub status: DeltaStatus,
    /// The path before the commit, when git reports one.
    pub old_path: Option<String>,
    /// The path after the commit, when git reports one.
    pub new_path: Option<String>,
}

/// A commit signature: who, and when.
#[derive(Debug, Clone, PartialEq, Eq)]
pub struct SignatureRecord {
    /// The name, or empty when git has none.
    pub name: String,
    /// The email, or empty when git has none.
    pub email: String,
    /// Seconds since the Unix epoch.
    pub seconds: i64,
    /// Timezone offset in minutes.
    pub offset_minutes: i32,
}

/// What a commit holds.
#[derive(Debug, Clone, PartialEq, Eq)]
pub struct CommitRecord {
    /// The commit's identifier.
    pub id: String,
    /// Its parents' identifiers, in order.
    pub parent_ids: Vec<String>,
    /// Its summary line, or empty when it has none.
    pub summary: String,
    /// Its author.
    pub author: SignatureRecord,
    /// Its committer.
    pub committer: SignatureRecord,
    /// Its diff against its first parent (or the empty tree), renames found.
    pub deltas: Vec<DeltaRecord>,
}

/// The name git's debug output gives a status.
pub open spec fn status_name(s: DeltaStatus) -> Seq<char> {
    match s {
        DeltaStatus::Unmodified => "Unmodified"@,
        DeltaStatus::Added => "Added"@,
        DeltaStatus::Deleted => "Deleted"@,
        DeltaStatus::Modified => "Modified"@,
        DeltaStatus::Renamed => "Renamed"@,
        DeltaStatus::Copied => "Copied"@,
        DeltaStatus::Ignored => "Ignored"@,
        DeltaStatus::Untracked => "Untracked"@,
        DeltaStatus::Typechange => "Typechange"@,
        DeltaStatus::Unreadable => "Unreadable"@,
        DeltaStatus::Conflicted => "Conflicted"@,
    }
}

/// The File Change kind of a status other than a rename, if it is one the
/// replay shows: additions (also untracked and copied paths), deletions,
/// and modifications (also type changes).
pub open spec fn delta_kind(s: DeltaStatus) -> Option<FileChangeKind> {
    match s {
        DeltaStatus::Added | DeltaStatus::Untracked | DeltaStatus::Copied => Some(FileChangeKind::Added),
        DeltaStatus::Deleted => Some(FileChangeKind::Deleted),
        DeltaStatus::Modified | DeltaStatus::Typechange => Some(FileChangeKind::Modified),
        _ => None,
    }
}

/// The view of an optional path.
pub open spec fn opt_path(p: Option<String>) -> Option<Seq<char>> {
    match p {
        Some(s) => Some(s@),
        None => None,
    }
}

/// The File Change a diff path becomes, or the message of why it cannot.
pub open spec fn delta_change(d: DeltaRecord) -> Result<FileChangeView, Seq<char>> {
    if d.status is Renamed {
        match (opt_path(d.old_path), opt_path(d.new_path)) {
            (None, _) => Err("rename is missing source path"@),
            (Some(_), None) => Err("rename is missing destination path"@),
            (Some(from), Some(to)) => Ok(
                FileChangeView { entity: to, previous_entity: Some(from), kind: FileChangeKind::Moved },
            ),
        }
    } else {
        match delta_kind(d.status) {
            None => Err("unsupported file change status "@ + status_name(d.status)),
            Some(kind) => {
                let path = if kind is Deleted {
                    opt_path(d.old_path)
                } else {
                    opt_path(d.new_path)
                };
                match path {
                    None => Err("file change is missing path evidence"@),
                    Some(p) => Ok(FileChangeView { entity: p, previous_entity: None, kind }),
                }
            },
        }
    }
}

/// The File Changes of a commit's diff paths, in order, or the message of
/// the first path that cannot become one.
pub open spec fn delta_changes(ds: Seq<DeltaRecord>) -> Result<Seq<FileChangeView>, Seq<char>>
    decreases ds.len(),
{
    if ds.len() == 0 {
        Ok(Seq::empty())
    } else {
        match delta_changes(ds.drop_last()) {
            Err(e) => Err(e),
            Ok(cs) => match delta_change(ds.last()) {
                Err(e) => Err(e),
                Ok(c) => Ok(cs.push(c)),
            },
        }
    }
}

/// The debug name of a status.
fn status_text(s: DeltaStatus) -> (r: String)
    ensures
        r@ == status_name(s),
{
    match s {
        DeltaStatus::Unmodified => owned("Unmodified"),
        DeltaStatus::Added => owned("Added"),
        DeltaStatus::Deleted => owned("Deleted"),
        DeltaStatus::Modified => owned("Modified"),
        DeltaStatus::Renamed => owned("Renamed"),
        DeltaStatus::Copied => owned("Copied"),
        DeltaStatus::Ignored => owned("Ignored"),
        DeltaStatus::Untracked => owned("Untracked"),
        DeltaStatus::Typechange => owned("Typechange"),
        DeltaStatus::Unreadable => owned("Unreadable"),
        DeltaStatus::Conflicted => owned("Conflicted"),
    }
}

/// The File Change of one diff path: a move for a rename, an addition,
/// deletion or modification otherwise; an error for statuses the replay
/// does not show and for missing path evidence.
pub fn file_change_from_delta(delta: &DeltaRecord) -> (r: Result<FileChange, RepositoryIngestionError>)
    ensures
        match delta_change(*delta) {
            Ok(c) => r matches Ok(f) && f@ == c,
            Err(m) => r matches Err(e) && e@ == m,
        },
{
    if let DeltaStatus::Renamed = delta.status {
        let from = match &delta.old_path {
            Some(p) => p,
            None => {
                return Err(RepositoryIngestionError::new("rename is missing source path"));
            },
        };
        let to = match &delta.new_path {
            Some(p) => p,
            None => {
                return Err(RepositoryIngestionError::new("rename is missing destination path"));
            },
        };
        return Ok(FileChange::moved(RepositoryEntity::new(from.as_str()), RepositoryEntity::new(to.as_str())));
    }
    let kind = match delta.status {
        DeltaStatus::Added | DeltaStatus::Untracked | DeltaStatus::Copied => FileChangeKind::Added,
        DeltaStatus::Deleted => FileChangeKind::Deleted,
        DeltaStatus::Modified | DeltaStatus::Typechange => FileChangeKind::Modified,
        _ => {
            let name = status_text(delta.status);
            let message = concat("unsupported file change status ", name.as_str());
            return Err(RepositoryIngestionError { message });
        },
    };
    let path = match kind {
        FileChangeKind::Deleted => &delta.old_path,
        _ => &delta.new_path,
    };
    match path {
        Some(p) => Ok(FileChange::new(RepositoryEntity::new(p.as_str()), kind)),
        None => Err(RepositoryIngestionError::new("file change is missing path evidence")),
    }
}

/// The evidence a signature gives of a Contributor.
pub open spec fn signature_evidence(s: SignatureRecord) -> ContributorEvidenceView {
    ContributorEvidenceView { name: s.name@, email: s.email@, timestamp: (s.seconds, s.offset_minutes) }
}

/// The Commit Event of a commit with the given File Changes: its author
/// is the Contributor, as a human known by the author's name.
pub open spec fn record_event(c: CommitRecord, changes: Seq<FileChangeView>) -> CommitEventView {
    CommitEventView {
        id: c.id@,
        parent_ids: texts(c.parent_ids@),
        branch_flow: BranchFlowView::Mainline,
        subject: c.summary@,
        authored_at: (c.author.seconds, c.author.offset_minutes),
        committed_at: (c.committer.seconds, c.committer.offset_minutes),
        author: signature_evidence(c.author),
        committer: signature_evidence(c.committer),
        contributor: ContributorView {
            display_name: c.author.name@,
            identity_key: c.author.name@,
            kind: ContributorKind::Human,
        },
        file_changes: changes,
    }
}

/// The Commit Event of a commit, or the message of its first diff path that
/// cannot become a File Change.
pub open spec fn commit_event_of(c: CommitRecord) -> Result<CommitEventView, Seq<char>> {
    match delta_changes(c.deltas@) {
        Ok(changes) => Ok(record_event(c, changes)),
        Err(e) => Err(e),
    }
}

/// Contributor evidence from a signature.
fn evidence_from_signature(signature: &SignatureRecord) -> (r: ContributorEvidence)
    ensures
        r@ == signature_evidence(*signature),
{
    ContributorEvidence::new(
        signature.name.as_str(),
        signature.email.as_str(),
        GitTimestamp::new(signature.seconds, signature.offset_minutes),
    )
}

/// The Commit Event of one commit record.
pub fn commit_event_from_record(record: &CommitRecord) -> (r: Result<CommitEvent, RepositoryIngestionError>)
    ensures
        match commit_event_of(*record) {
            Ok(e) => r matches Ok(v) && v@ == e,
            Err(m) => r matches Err(err) && err@ == m,
        },
        r matches Ok(v) ==> v@.contributor.display_name == record.author.name@
            && v@.contributor.identity_key == record.author.name@ && v@.contributor.kind == ContributorKind::Human,
{
    let ghost ds = record.deltas@;
    let mut changes: Vec<FileChange> = Vec::new();
    let mut i: usize = 0;
    proof {
        assert(ds.take(0) =~= Seq::<DeltaRecord>::empty());
        assert(crate::domain::file_change_views(changes@) =~= Seq::<FileChangeView>::empty());
    }
    while i < record.deltas.len()
        invariant
            i <= ds.len(),
            ds == record.deltas@,
            delta_changes(ds.take(i as int)) == Ok::<Seq<FileChangeView>, Seq<char>>(
                crate::domain::file_change_views(changes@),
            ),
        decreases ds.len() - i,
    {
        assert(ds.take(i + 1).drop_last() =~= ds.take(i as int));
        assert(ds.take(i + 1).last() == ds[i as int]);
        let change = match file_change_from_delta(&record.deltas[i]) {
            Ok(c) => c,
            Err(e) => {
                proof {
                    lemma_delta_changes_error_prefix(ds, i as int + 1);
                }
                return Err(e);
            },
        };
        let ghost before = changes@;
        changes.push(change);
        assert(crate::domain::file_change_views(changes@) =~= crate::domain::file_change_views(before).push(
            change@,
        ));
        i = i + 1;
    }
    assert(ds.take(ds.len() as int) =~= ds);
    let mut parent_ids: Vec<CommitId> = Vec::new();
    let mut j: usize = 0;
    while j < record.parent_ids.len()
        invariant
            j <= record.parent_ids@.len(),
            parent_ids@.len() == j,
            forall|k: int| 0 <= k < j ==> #[trigger] parent_ids@[k]@ == record.parent_ids@[k]@,
        decreases record.parent_ids@.len() - j,
    {
        parent_ids.push(CommitId::new(record.parent_ids[j].as_str()));
        j = j + 1;
    }
    assert(crate::domain::commit_id_texts(parent_ids@) =~= texts(record.parent_ids@));
    let author = evidence_from_signature(&record.author);
    let committer = evidence_from_signature(&record.committer);
    let contributor = Contributor::human(record.author.name.as_str());
    let evidence = CommitEvidence::new(
        CommitId::new(record.id.as_str()),
        CommitSubject::new(record.summary.as_str()),
        author,
        committer,
        contributor,
    ).with_parent_ids(parent_ids).with_file_changes(changes);
    Ok(CommitEvent::from_evidence(evidence))
}

/// Once a prefix of the diff paths fails, every longer prefix fails with
/// the same message.
proof fn lemma_delta_changes_error_prefix(ds: Seq<DeltaRecord>, n: int)
    requires
        0 <= n <= ds.len(),
        delta_changes(ds.take(n)) is Err,
    ensures
        delta_changes(ds) == delta_changes(ds.take(n)),
    decreases ds.len() - n,
{
    if n < ds.len() {
        assert(ds.take(n + 1).drop_last() =~= ds.take(n));
        lemma_delta_changes_error_prefix(ds, n + 1);
    } else {
        assert(ds.take(n) =~= ds);
    }
}

/// The Commit Events of commits given newest first, in playback order
/// (oldest first), or the message of the first commit, in playback order,
/// that cannot become one.
pub open spec fn replay_events(walk: Seq<CommitRecord>) -> Result<Seq<CommitEventView>, Seq<char>>
    decreases walk.len(),
{
    if walk.len() == 0 {
        Ok(Seq::empty())
    } else {
        match commit_event_of(walk.last()) {
            Err(e) => Err(e),
            Ok(first) => match replay_events(walk.drop_last()) {
                Err(e) => Err(e),
                Ok(rest) => Ok(seq![first] + rest),
            },
        }
    }
}

/// Builds the Repository Replay of a Mainline from its commits, given in
/// walk order (newest first): one Commit Event per commit, oldest first.
pub fn ingest_repository(request: &RepositoryIngestionRequest, walk: &Vec<CommitRecord>) -> (r: Result<RepositoryIngestionSummary, RepositoryIngestionError>)
    ensures
        match replay_events(walk@) {
            Ok(events) => r matches Ok(s) && s@ == (RepositoryReplayView {
                mainline: request@.1,
                commit_events: events,
                competing_changes: Seq::empty(),
            }),
            Err(m) => r matches Err(e) && e@ == m,
        },
{
    let mut replay = RepositoryReplay::new(request.mainline().clone());
    let mut i: usize = walk.len();
    proof {
        assert(walk@.subrange(walk@.len() as int, walk@.len() as int) =~= Seq::<CommitRecord>::empty());
    }
    while i > 0
        invariant
            i <= walk@.len(),
            replay@.mainline == request@.1,
            replay@.competing_changes == Seq::<crate::domain::CompetingChangeView>::empty(),
            replay_prefix_ok(walk@, i as int, replay@.commit_events),
        decreases i,
    {
        let event = match commit_event_from_record(&walk[i - 1]) {
            Ok(e) => e,
            Err(e) => {
                proof {
                    lemma_replay_error(walk@, i as int, replay@.commit_events);
                }
                return Err(e);
            },
        };
        let ghost pushed = replay@.commit_events;
        replay.push_commit_event(event);
        proof {
            lemma_replay_step(walk@, i as int, pushed, event@);
        }
        i = i - 1;
    }
    proof {
        lemma_replay_done(walk@, replay@.commit_events);
    }
    Ok(RepositoryIngestionSummary::new(replay))
}

/// The events pushed so far are the playback of the commits after `i` in
/// walk order, and those all convert.
pub open spec fn replay_prefix_ok(walk: Seq<CommitRecord>, i: int, pushed: Seq<CommitEventView>) -> bool {
    replay_events(walk.subrange(i, walk.len() as int)) == Ok::<Seq<CommitEventView>, Seq<char>>(pushed)
}

/// Replaying `a + b` (walk order) plays `b`'s events first.
proof fn lemma_replay_concat(a: Seq<CommitRecord>, b: Seq<CommitRecord>)
    ensures
        replay_events(a + b) == match replay_events(b) {
            Err(e) => Err(e),
            Ok(eb) => match replay_events(a) {
                Err(e) => Err(e),
                Ok(ea) => Ok::<Seq<CommitEventView>, Seq<char>>(eb + ea),
            },
        },
    decreases b.len(),
{
    if b.len() == 0 {
        assert(a + b =~= a);
        match replay_events(a) {
            Err(e) => {},
            Ok(ea) => {
                assert(Seq::<CommitEventView>::empty() + ea =~= ea);
            },
        }
    } else {
        assert((a + b).drop_last() =~= a + b.drop_last());
        assert((a + b).last() == b.last());
        lemma_replay_concat(a, b.drop_last());
        match commit_event_of(b.last()) {
            Err(e) => {},
            Ok(first) => match replay_events(b.drop_last()) {
                Err(e) => {},
                Ok(rest) => match replay_events(a) {
                    Err(e) => {},
                    Ok(ea) => {
                        assert(seq![first] + (rest + ea) =~= (seq![first] + rest) + ea);
                    },
                },
            },
        }
    }
}

/// One more commit converts: it is appended after the pushed events.
proof fn lemma_replay_step(walk: Seq<CommitRecord>, i: int, pushed: Seq<CommitEventView>, next: CommitEventView)
    requires
        0 < i <= walk.len(),
        replay_prefix_ok(walk, i, pushed),
        commit_event_of(walk[i - 1]) == Ok::<CommitEventView, Seq<char>>(next),
    ensures
        replay_prefix_ok(walk, i - 1, pushed.push(next)),
{
    let tail = walk.subrange(i, walk.len() as int);
    assert(walk.subrange(i - 1, walk.len() as int) =~= seq![walk[i - 1]] + tail);
    lemma_replay_concat(seq![walk[i - 1]], tail);
    let single = seq![walk[i - 1]];
    assert(single.drop_last() =~= Seq::<CommitRecord>::empty());
    assert(single.last() == walk[i - 1]);
    assert(replay_events(single.drop_last()) == Ok::<Seq<CommitEventView>, Seq<char>>(Seq::empty()));
    assert(replay_events(single) == Ok::<Seq<CommitEventView>, Seq<char>>(seq![next] + Seq::<CommitEventView>::empty()));
    assert(seq![next] + Seq::<CommitEventView>::empty() =~= seq![next]);
    assert(pushed + seq![next] =~= pushed.push(next));
}

/// A commit that does not convert makes the whole replay fail with its
/// message.
proof fn lemma_replay_error(walk: Seq<CommitRecord>, i: int, pushed: Seq<CommitEventView>)
    requires
        0 < i <= walk.len(),
        replay_prefix_ok(walk, i, pushed),
        commit_event_of(walk[i - 1]) is Err,
    ensures
        replay_events(walk) == Err::<Seq<CommitEventView>, Seq<char>>(commit_event_of(walk[i - 1])->Err_0),
{
    let head = walk.subrange(0, i);
    let tail = walk.subrange(i, walk.len() as int);
    assert(walk =~= head + tail);
    lemma_replay_concat(head, tail);
    assert(head.last() == walk[i - 1]);
}

/// When every commit converted, the pushed events are the replay.
proof fn lemma_replay_done(walk: Seq<CommitRecord>, pushed: Seq<CommitEventView>)
    requires
        replay_prefix_ok(walk, 0, pushed),
    ensures
        replay_events(walk) == Ok::<Seq<CommitEventView>, Seq<char>>(pushed),
{
    assert(walk.subrange(0, walk.len() as int) =~= walk);
}

/// An ingested commit is credited to its author: the Contributor of its
/// Commit Event is the human named and keyed by the author signature's name,
/// while the committer only appears as the committer evidence.
pub proof fn lemma_contributor_is_author(c: CommitRecord)
    requires
        commit_event_of(c) is Ok,
    ensures
        commit_event_of(c)->Ok_0.contributor.display_name == c.author.name@,
        commit_event_of(c)->Ok_0.contributor.identity_key == c.author.name@,
        commit_event_of(c)->Ok_0.contributor.kind == ContributorKind::Human,
        commit_event_of(c)->Ok_0.author.name == c.author.name@,
        commit_event_of(c)->Ok_0.committer.name == c.committer.name@,
{
}

/// Who committed a commit does not change whom it is credited to: two
/// commits with the same author and the same diff paths are ingested alike,
/// with the same Contributor, whatever their committers.
pub proof fn lemma_committer_does_not_change_contributor(a: CommitRecord, b: CommitRecord)
    requires
        a.author == b.author,
        a.deltas@ == b.deltas@,
    ensures
        commit_event_of(a) is Ok <==> commit_event_of(b) is Ok,
        commit_event_of(a) is Ok ==> commit_event_of(a)->Ok_0.contributor == commit_event_of(b)->Ok_0.contributor,
{
}

/// Ingestion gives one Commit Event per commit, in playback order: the
/// k-th event is the event of the k-th oldest commit.
pub proof fn lemma_one_event_per_commit(walk: Seq<CommitRecord>)
    requires
        replay_events(walk) is Ok,
    ensures
        replay_events(walk)->Ok_0.len() == walk.len(),
        forall|k: int|
            0 <= k < walk.len() ==> commit_event_of(walk[walk.len() - 1 - k]) == Ok::<CommitEventView, Seq<char>>(
                #[trigger] replay_events(walk)->Ok_0[k],
            ),
    decreases walk.len(),
{
    if walk.len() > 0 {
        let rest = walk.drop_last();
        lemma_one_event_per_commit(rest);
        let events = replay_events(walk)->Ok_0;
        let first = commit_event_of(walk.last())->Ok_0;
        let tail = replay_events(rest)->Ok_0;
        assert(events == seq![first] + tail);
        assert forall|k: int| 0 <= k < walk.len() implies commit_event_of(walk[walk.len() - 1 - k]) == Ok::<
            CommitEventView,
            Seq<char>,
        >(#[trigger] replay_events(walk)->Ok_0[k]) by {
            if k > 0 {
                assert(events[k] == tail[k - 1]);
                assert(rest[rest.len() - 1 - (k - 1)] == walk[walk.len() - 1 - k]);
            }
        }
    }
}

/// A replay credits each commit to its author: the k-th Commit Event of the
/// replay is the commit k-th oldest in the walk, and its Contributor is
/// named and keyed by that commit's author.
pub proof fn lemma_replay_credits_authors(walk: Seq<CommitRecord>)
    requires
        replay_events(walk) is Ok,
    ensures
        forall|k: int|
            0 <= k < walk.len() ==> {
                &&& (#[trigger] replay_events(walk)->Ok_0[k]).contributor.display_name == walk[walk.len() - 1
                    - k].author.name@
                &&& replay_events(walk)->Ok_0[k].contributor.identity_key == walk[walk.len() - 1 - k].author.name@
                &&& replay_events(walk)->Ok_0[k].id == walk[walk.len() - 1 - k].id@
            },
{
    lemma_one_event_per_commit(walk);
    assert forall|k: int| 0 <= k < walk.len() implies {
        &&& (#[trigger] replay_events(walk)->Ok_0[k]).contributor.display_name == walk[walk.len() - 1
            - k].author.name@
        &&& replay_events(walk)->Ok_0[k].contributor.identity_key == walk[walk.len() - 1 - k].author.name@
        &&& replay_events(walk)->Ok_0[k].id == walk[walk.len() - 1 - k].id@
    } by {
        let c = walk[walk.len() - 1 - k];
        assert(commit_event_of(c) == Ok::<CommitEventView, Seq<char>>(replay_events(walk)->Ok_0[k]));
        lemma_contributor_is_author(c);
    }
}

} // verus!
