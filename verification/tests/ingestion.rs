use gitflux::{
    commit_event_from_record, file_change_from_delta, ingest_repository, missing_mainline_error,
    scaffold_repository_replay, CommitRecord, DeltaRecord, DeltaStatus, FileChangeKind, Mainline,
    RepositoryIngestionRequest, SignatureRecord,
};

fn delta(status: DeltaStatus, old: Option<&str>, new: Option<&str>) -> DeltaRecord {
    DeltaRecord {
        status,
        old_path: old.map(str::to_owned),
        new_path: new.map(str::to_owned),
    }
}

fn commit(id: &str, author: &str, deltas: Vec<DeltaRecord>) -> CommitRecord {
    let signature = SignatureRecord {
        name: author.to_owned(),
        email: format!("{author}@example.com"),
        seconds: 100,
        offset_minutes: -60,
    };
    CommitRecord {
        id: id.to_owned(),
        parent_ids: Vec::new(),
        summary: format!("commit {id}"),
        author: signature.clone(),
        committer: signature,
        deltas,
    }
}

#[test]
fn scaffold_uses_requested_mainline() {
    let request = RepositoryIngestionRequest::new(".", Mainline::new("trunk"));

    let summary = scaffold_repository_replay(&request);

    assert_eq!(summary.replay().mainline().as_str(), "trunk");
    assert!(summary.replay().commit_events().is_empty());
}

#[test]
fn deltas_become_file_changes_with_path_evidence() {
    let added = file_change_from_delta(&delta(DeltaStatus::Untracked, None, Some("a.rs"))).expect("added");
    assert_eq!(*added.kind(), FileChangeKind::Added);
    assert_eq!(added.entity().path(), "a.rs");
    let deleted = file_change_from_delta(&delta(DeltaStatus::Deleted, Some("gone.rs"), None)).expect("deleted");
    assert_eq!(*deleted.kind(), FileChangeKind::Deleted);
    assert_eq!(deleted.entity().path(), "gone.rs");
    let typed = file_change_from_delta(&delta(DeltaStatus::Typechange, Some("x"), Some("x"))).expect("modified");
    assert_eq!(*typed.kind(), FileChangeKind::Modified);
    let moved = file_change_from_delta(&delta(DeltaStatus::Renamed, Some("old.rs"), Some("new.rs"))).expect("moved");
    assert_eq!(*moved.kind(), FileChangeKind::Moved);
    assert_eq!(moved.entity().path(), "new.rs");
    assert_eq!(moved.previous_entity().expect("source").path(), "old.rs");
}

#[test]
fn unsupported_or_incomplete_deltas_are_errors() {
    let cases = [
        (delta(DeltaStatus::Conflicted, Some("a"), Some("a")), "unsupported file change status Conflicted"),
        (delta(DeltaStatus::Renamed, None, Some("b")), "rename is missing source path"),
        (delta(DeltaStatus::Renamed, Some("a"), None), "rename is missing destination path"),
        (delta(DeltaStatus::Added, Some("a"), None), "file change is missing path evidence"),
    ];
    for (record, message) in cases {
        let error = file_change_from_delta(&record).expect_err("should fail");
        assert_eq!(error.message(), message);
    }
}

#[test]
fn ingestion_plays_the_walk_oldest_first() {
    let request = RepositoryIngestionRequest::new("repo", Mainline::new("main"));
    let walk = vec![
        commit("c2", "Grace", vec![delta(DeltaStatus::Modified, Some("a.rs"), Some("a.rs"))]),
        commit("c1", "Ada", vec![delta(DeltaStatus::Added, None, Some("a.rs"))]),
    ];

    let summary = ingest_repository(&request, &walk).expect("ingests");
    let events = summary.replay().commit_events();

    assert_eq!(events.len(), 2);
    assert_eq!(events[0].id().as_str(), "c1");
    assert_eq!(events[1].id().as_str(), "c2");
    assert_eq!(events[0].contributor().display_name(), "Ada");
    assert_eq!(events[0].author().email(), "Ada@example.com");
    assert_eq!(events[0].authored_at().offset_minutes(), -60);
    assert_eq!(events[1].subject().as_str(), "commit c2");
}

#[test]
fn ingestion_stops_at_the_oldest_bad_commit() {
    let request = RepositoryIngestionRequest::new("repo", Mainline::new("main"));
    let walk = vec![
        commit("c3", "Ada", vec![delta(DeltaStatus::Ignored, None, Some("x"))]),
        commit("c2", "Ada", vec![delta(DeltaStatus::Unreadable, None, Some("y"))]),
        commit("c1", "Ada", Vec::new()),
    ];

    let error = ingest_repository(&request, &walk).expect_err("fails");
    assert_eq!(error.message(), "unsupported file change status Unreadable");
    assert!(commit_event_from_record(&walk[2]).is_ok());
}

#[test]
fn missing_mainline_is_named() {
    assert_eq!(
        missing_mainline_error(&Mainline::new("trunk")).message(),
        "requested Mainline 'trunk' was not found in local repository"
    );
}

fn fixture_commit(
    id: &str,
    parent: Option<&str>,
    subject: &str,
    name: &str,
    email: &str,
    deltas: Vec<DeltaRecord>,
) -> CommitRecord {
    let signature = SignatureRecord {
        name: name.to_owned(),
        email: email.to_owned(),
        seconds: 1_704_164_645,
        offset_minutes: 0,
    };
    CommitRecord {
        id: id.to_owned(),
        parent_ids: parent.map(|p| vec![p.to_owned()]).unwrap_or_default(),
        summary: subject.to_owned(),
        author: signature.clone(),
        committer: signature,
        deltas,
    }
}

#[test]
fn ingests_linear_create_modify_history_into_commit_events() {
    let first_commit = "1111111111111111111111111111111111111111";
    let second_commit = "2222222222222222222222222222222222222222";
    let walk = vec![
        fixture_commit(
            second_commit,
            Some(first_commit),
            "Update answer",
            "Grace Hopper",
            "grace@example.test",
            vec![delta(DeltaStatus::Modified, Some("src/lib.rs"), Some("src/lib.rs"))],
        ),
        fixture_commit(
            first_commit,
            None,
            "Add library",
            "Ada Lovelace",
            "ada@example.test",
            vec![delta(DeltaStatus::Added, Some("src/lib.rs"), Some("src/lib.rs"))],
        ),
    ];
    let request = RepositoryIngestionRequest::new("fixture", Mainline::new("main"));

    let summary = ingest_repository(&request, &walk).expect("fixture repository should ingest");
    let events = summary.replay().commit_events();

    assert_eq!(events.len(), 2);
    assert_eq!(events[0].id().as_str(), first_commit);
    assert!(events[0].parent_ids().is_empty());
    assert_eq!(events[0].subject().as_str(), "Add library");
    assert_eq!(events[0].author().name(), "Ada Lovelace");
    assert_eq!(events[0].author().email(), "ada@example.test");
    assert_eq!(events[0].committer().name(), "Ada Lovelace");
    assert_eq!(events[0].committer().email(), "ada@example.test");
    assert_eq!(events[0].authored_at().seconds(), 1_704_164_645);
    assert_eq!(events[0].authored_at().offset_minutes(), 0);
    assert_eq!(events[0].committed_at().seconds(), 1_704_164_645);
    assert_eq!(events[0].committed_at().offset_minutes(), 0);
    assert_eq!(events[0].file_changes().len(), 1);
    assert_eq!(events[0].file_changes()[0].entity().path(), "src/lib.rs");
    assert_eq!(*events[0].file_changes()[0].kind(), FileChangeKind::Added);

    assert_eq!(events[1].id().as_str(), second_commit);
    assert_eq!(events[1].parent_ids()[0].as_str(), first_commit);
    assert_eq!(events[1].subject().as_str(), "Update answer");
    assert_eq!(events[1].author().name(), "Grace Hopper");
    assert_eq!(events[1].author().email(), "grace@example.test");
    assert_eq!(events[1].file_changes().len(), 1);
    assert_eq!(events[1].file_changes()[0].entity().path(), "src/lib.rs");
    assert_eq!(*events[1].file_changes()[0].kind(), FileChangeKind::Modified);
}

#[test]
fn ingests_rename_and_delete_file_changes_with_path_evidence() {
    let add_commit = "aaaa000000000000000000000000000000000001";
    let rename_commit = "aaaa000000000000000000000000000000000002";
    let delete_commit = "aaaa000000000000000000000000000000000003";
    let walk = vec![
        fixture_commit(
            delete_commit,
            Some(rename_commit),
            "Delete readme",
            "Ada Lovelace",
            "ada@example.test",
            vec![delta(DeltaStatus::Deleted, Some("docs/README.md"), Some("docs/README.md"))],
        ),
        fixture_commit(
            rename_commit,
            Some(add_commit),
            "Move readme",
            "Ada Lovelace",
            "ada@example.test",
            vec![delta(DeltaStatus::Renamed, Some("README.md"), Some("docs/README.md"))],
        ),
        fixture_commit(
            add_commit,
            None,
            "Add readme",
            "Ada Lovelace",
            "ada@example.test",
            vec![delta(DeltaStatus::Added, Some("README.md"), Some("README.md"))],
        ),
    ];
    let request = RepositoryIngestionRequest::new("fixture", Mainline::new("main"));

    let summary = ingest_repository(&request, &walk).expect("fixture repository should ingest");
    let events = summary.replay().commit_events();

    assert_eq!(events.len(), 3);
    assert_eq!(events[1].id().as_str(), rename_commit);
    assert_eq!(events[1].file_changes().len(), 1);
    let rename = &events[1].file_changes()[0];
    assert_eq!(*rename.kind(), FileChangeKind::Moved);
    assert_eq!(
        rename
            .previous_entity()
            .expect("rename should preserve source path")
            .path(),
        "README.md"
    );
    assert_eq!(rename.entity().path(), "docs/README.md");

    assert_eq!(events[2].id().as_str(), delete_commit);
    assert_eq!(events[2].file_changes().len(), 1);
    assert_eq!(*events[2].file_changes()[0].kind(), FileChangeKind::Deleted);
    assert_eq!(events[2].file_changes()[0].entity().path(), "docs/README.md");
}

#[test]
fn missing_requested_mainline_returns_clear_error_without_falling_back_to_head() {
    let error = missing_mainline_error(&Mainline::new("release"));

    assert_eq!(
        error.message(),
        "requested Mainline 'release' was not found in local repository"
    );
}
