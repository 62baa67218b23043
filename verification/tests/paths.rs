use gitflux::{
    parent_directory_path, CommitEvent, CommitId, Contributor, FileChange, FileChangeKind,
    Mainline, RenderConfiguration, RepositoryEntity, RepositoryGraphScene, RepositoryReplay,
};
use std::path::Path;

/// The non-empty parent `std::path::Path` gives.
fn std_parent(path: &str) -> Option<String> {
    Path::new(path)
        .parent()
        .map(|parent| parent.to_string_lossy().into_owned())
        .filter(|parent| !parent.is_empty())
}

#[test]
fn parent_directories_follow_std_path() {
    let cases = [
        ("src/lib.rs", Some("src")),
        ("a/b/c.rs", Some("a/b")),
        ("lib.rs", None),
        ("", None),
        ("/abs", Some("/")),
        ("/x/y", Some("/x")),
        ("//a", Some("/")),
        ("a//b", Some("a")),
        ("a/b/", Some("a")),
        ("a/b/.", Some("a")),
        ("a/./b", Some("a")),
        ("./a", Some(".")),
        (".", None),
        ("./", None),
        ("/", None),
        ("a/..", Some("a")),
        ("../a", Some("..")),
        (".hidden/file", Some(".hidden")),
    ];
    for (path, expected) in cases {
        assert_eq!(parent_directory_path(path).as_deref(), expected, "{path}");
        assert_eq!(std_parent(path).as_deref(), expected, "std {path}");
    }
}

#[test]
fn scene_directories_are_the_std_ancestors_of_each_file() {
    let mut replay = RepositoryReplay::new(Mainline::new("main"));
    replay.push_commit_event(CommitEvent::new(
        CommitId::new("c1"),
        Contributor::human("Ada"),
        vec![
            FileChange::new(RepositoryEntity::new("a//b/c.rs"), FileChangeKind::Added),
            FileChange::new(RepositoryEntity::new("/abs/x.rs"), FileChangeKind::Added),
        ],
    ));
    let scene = RepositoryGraphScene::from_replay(&replay, &RenderConfiguration::default());
    let directories: Vec<&str> = scene.directories().iter().map(|d| d.path()).collect();
    assert_eq!(directories, vec!["/", "/abs", "a", "a//b"]);
    let file = scene
        .files()
        .iter()
        .find(|file| file.path() == "a//b/c.rs")
        .expect("file is in the scene");
    assert_eq!(
        file.parent_directory_id().map(|parent| parent.as_str()),
        Some("a//b")
    );
}
