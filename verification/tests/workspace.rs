use openfang_core::path::{rel_path_to_string, PathComponent, WorkspacePath};
use openfang_core::workspace::{
    canonical_dir, canonical_optional, download_candidate, download_failure, has_hidden_component,
    is_private_state_path, list_files, list_item, listing_start, matches_ext_filter,
    mime_type_for_path, normalize_rel_path, read_file_for_download, should_visit, FileMetadata,
    FileTime, FsFailure, WalkEntry, WalkItem, WorkspaceFileError,
};

fn names(text: &str) -> WorkspacePath {
    WorkspacePath {
        components: text
            .split('/')
            .filter(|s| !s.is_empty())
            .map(|s| PathComponent::Normal(s.as_bytes().to_vec()))
            .collect(),
    }
}

fn absolute(text: &str) -> WorkspacePath {
    let mut path = names(text);
    path.components.insert(0, PathComponent::RootDir);
    path
}

fn file(len: u64) -> FileMetadata {
    FileMetadata {
        is_file: true,
        len,
        modified_at: None,
    }
}

fn walked(path: &str, is_file: bool, len: u64) -> WalkItem {
    WalkItem::Entry(WalkEntry {
        path: absolute(path),
        is_file,
        canonical: Some(absolute(path)),
        metadata: Ok(file(len)),
    })
}

#[test]
fn list_filters_hidden_state_and_ext() {
    let root = absolute("/ws");
    let walk = vec![
        walked("/ws", false, 0),
        walked("/ws/report.md", true, 8),
        walked("/ws/notes.txt", true, 5),
        walked("/ws/.hidden/secret.md", true, 6),
        walked("/ws/sessions", false, 0),
        walked("/ws/sessions/session.md", true, 6),
    ];

    let files = list_files(
        &root,
        Some(&root),
        Some(&["md".to_string()]),
        &Ok(absolute("/ws")),
        &walk,
    )
    .unwrap();

    assert_eq!(files.len(), 1);
    assert_eq!(files[0].rel_path, "report.md");
    assert_eq!(files[0].size_bytes, 8);
    assert_eq!(files[0].mime_type, "text/markdown; charset=utf-8");
}

#[test]
fn rejects_path_traversal() {
    let err = read_file_for_download(
        &absolute("/ws"),
        None,
        "../report.md",
        &Ok(absolute("/report.md")),
        &Ok(file(8)),
    )
    .unwrap_err();

    assert_eq!(err, WorkspaceFileError::Forbidden);
}

#[test]
fn rejects_symlink_escape() {
    let err = read_file_for_download(
        &absolute("/ws"),
        None,
        "link.md",
        &Ok(absolute("/outside/secret.md")),
        &Ok(file(6)),
    )
    .unwrap_err();

    assert_eq!(err, WorkspaceFileError::Forbidden);
}

#[test]
fn listing_is_sorted_by_bytes_and_stable() {
    let root = absolute("/ws");
    let walk = vec![
        walked("/ws/b.txt", true, 1),
        walked("/ws/a/z.txt", true, 2),
        walked("/ws/a.txt", true, 3),
        walked("/ws/B.txt", true, 4),
        walked("/ws/b.txt", true, 5),
        walked("/ws/\u{e9}.txt", true, 6),
    ];
    let files = list_files(&root, None, None, &Ok(root.copied()), &walk).unwrap();
    let listed: Vec<(String, u64)> = files
        .iter()
        .map(|f| (f.rel_path.clone(), f.size_bytes))
        .collect();
    assert_eq!(
        listed,
        vec![
            ("B.txt".to_string(), 4),
            ("a.txt".to_string(), 3),
            ("a/z.txt".to_string(), 2),
            ("b.txt".to_string(), 1),
            ("b.txt".to_string(), 5),
            ("\u{e9}.txt".to_string(), 6),
        ]
    );
}

#[test]
fn listing_needs_its_start() {
    let root = absolute("/ws");
    let walk = vec![walked("/ws/a.txt", true, 1)];
    assert!(list_files(&root, None, None, &Err(FsFailure::NotFound), &walk)
        .unwrap()
        .is_empty());
    assert_eq!(
        list_files(
            &root,
            None,
            None,
            &Err(FsFailure::Other("denied".to_string())),
            &walk
        )
        .unwrap_err(),
        WorkspaceFileError::Io("denied".to_string())
    );
    assert_eq!(
        list_files(&root, None, None, &Ok(absolute("/other")), &walk).unwrap_err(),
        WorkspaceFileError::Forbidden
    );
}

#[test]
fn listing_fails_with_the_first_failure() {
    let root = absolute("/ws");
    let walk = vec![
        walked("/ws/a.txt", true, 1),
        WalkItem::Failed("first".to_string()),
        WalkItem::Failed("second".to_string()),
    ];
    assert_eq!(
        list_files(&root, None, None, &Ok(root.copied()), &walk).unwrap_err(),
        WorkspaceFileError::Io("first".to_string())
    );
}

#[test]
fn listing_passes_over_what_is_no_public_file() {
    let root = absolute("/ws");
    let state = absolute("/ws/state");
    assert!(list_item(&root, None, None, &walked("/ws/dir", false, 0))
        .unwrap()
        .is_none());
    assert!(
        list_item(&root, Some(&state), None, &walked("/ws/state/x", true, 1))
            .unwrap()
            .is_none()
    );
    for private in ["sessions/x", "memory/x", "logs/x", "AGENT.json"] {
        let item = walked(&format!("/ws/{private}"), true, 1);
        assert!(list_item(&root, None, None, &item).unwrap().is_none());
    }
    let lost = WalkItem::Entry(WalkEntry {
        path: absolute("/ws/lost"),
        is_file: true,
        canonical: None,
        metadata: Ok(file(1)),
    });
    assert!(list_item(&root, None, None, &lost).unwrap().is_none());
    let outside = WalkItem::Entry(WalkEntry {
        path: absolute("/ws/link"),
        is_file: true,
        canonical: Some(absolute("/etc/x")),
        metadata: Ok(file(1)),
    });
    assert!(list_item(&root, None, None, &outside).unwrap().is_none());
    let broken = WalkItem::Entry(WalkEntry {
        path: absolute("/ws/a"),
        is_file: true,
        canonical: Some(absolute("/ws/a")),
        metadata: Err("gone".to_string()),
    });
    assert_eq!(
        list_item(&root, None, None, &broken).unwrap_err(),
        WorkspaceFileError::Io("gone".to_string())
    );
    assert!(
        list_item(&root, None, Some(&["md".to_string()]), &broken)
            .unwrap()
            .is_none()
    );
}

#[test]
fn listed_file_keeps_its_time() {
    let time = FileTime {
        secs: 1_700_000_000,
        nanos: 5,
    };
    let item = WalkItem::Entry(WalkEntry {
        path: absolute("/ws/a/b.json"),
        is_file: true,
        canonical: Some(absolute("/ws/a/b.json")),
        metadata: Ok(FileMetadata {
            is_file: true,
            len: 7,
            modified_at: Some(time),
        }),
    });
    let entry = list_item(&absolute("/ws"), None, None, &item)
        .unwrap()
        .unwrap();
    assert_eq!(entry.rel_path, "a/b.json");
    assert_eq!(entry.size_bytes, 7);
    assert_eq!(entry.modified_at, Some(time));
    assert_eq!(entry.mime_type, "application/json");
}

#[test]
fn requested_paths_are_normalized() {
    let path = normalize_rel_path("/a//./b/").unwrap();
    assert_eq!(path, names("a/b"));
    assert_eq!(normalize_rel_path("").unwrap(), names(""));
    assert_eq!(normalize_rel_path("//").unwrap(), names(""));
    assert_eq!(normalize_rel_path("...").unwrap(), names("..."));
    for raw in ["..", "a/..", "../a", "a/../b", "/../"] {
        assert_eq!(
            normalize_rel_path(raw).unwrap_err(),
            WorkspaceFileError::Forbidden
        );
    }
}

#[test]
fn path_text_names_the_path() {
    let path = names("reports/2024/\u{fc}bersicht.md");
    let text = rel_path_to_string(&path);
    assert_eq!(text, "reports/2024/\u{fc}bersicht.md");
    assert_eq!(normalize_rel_path(&text).unwrap(), path);
}

#[test]
fn path_text_replaces_what_is_no_text() {
    let path = WorkspacePath {
        components: vec![
            PathComponent::RootDir,
            PathComponent::Normal(vec![b'a', 0xff]),
            PathComponent::CurDir,
            PathComponent::Normal(b"b".to_vec()),
        ],
    };
    assert_eq!(rel_path_to_string(&path), "a\u{fffd}/b");
}

#[test]
fn hidden_names_begin_with_a_dot_and_are_text() {
    assert!(has_hidden_component(&names("a/.b/c")));
    assert!(!has_hidden_component(&names("a/b.c")));
    assert!(!has_hidden_component(&WorkspacePath {
        components: vec![PathComponent::Normal(vec![b'.', 0xff])],
    }));
    assert!(!has_hidden_component(&WorkspacePath {
        components: vec![PathComponent::CurDir, PathComponent::ParentDir],
    }));
}

#[test]
fn walk_enters_the_root_whatever_it_is_called() {
    let root = absolute("/home/.ws");
    assert!(should_visit(&root, &root));
    assert!(should_visit(&root, &absolute("/home/.ws/a")));
    assert!(!should_visit(&root, &absolute("/home/.ws/.a")));
    assert!(!should_visit(&root, &absolute("/home/.other")));
    assert!(should_visit(&root, &absolute("/home/other")));
}

#[test]
fn private_state_is_told_by_place() {
    let root = absolute("/ws");
    let state = absolute("/ws/state");
    assert!(is_private_state_path(
        &absolute("/ws/state/a"),
        &root,
        Some(&state)
    ));
    assert!(!is_private_state_path(&absolute("/ws/a"), &root, Some(&root)));
    assert!(is_private_state_path(&absolute("/other"), &root, None));
    assert!(is_private_state_path(&absolute("/ws/logs"), &root, None));
    assert!(!is_private_state_path(&absolute("/ws/a/logs"), &root, None));
    assert!(!is_private_state_path(&root, &root, None));
}

#[test]
fn extension_filter_ignores_dots_and_case() {
    let md = names("a.md");
    assert!(matches_ext_filter(&md, None));
    assert!(matches_ext_filter(&md, Some(&[])));
    assert!(matches_ext_filter(&md, Some(&["..MD".to_string()])));
    assert!(matches_ext_filter(
        &md,
        Some(&["txt".to_string(), "md".to_string()])
    ));
    assert!(!matches_ext_filter(&md, Some(&["m".to_string()])));
    assert!(!matches_ext_filter(&names("md"), Some(&["md".to_string()])));
    assert!(!matches_ext_filter(&names(".md"), Some(&["md".to_string()])));
    assert!(matches_ext_filter(
        &names("a.tar.gz"),
        Some(&["gz".to_string()])
    ));
    let not_text = WorkspacePath {
        components: vec![PathComponent::Normal(vec![b'a', b'.', 0xff])],
    };
    assert!(!matches_ext_filter(&not_text, Some(&["".to_string()])));
}

#[test]
fn mime_types_follow_the_extension() {
    let cases = [
        ("a.md", "text/markdown; charset=utf-8"),
        ("a.markdown", "text/markdown; charset=utf-8"),
        ("a.txt", "text/plain; charset=utf-8"),
        ("a.log", "text/plain; charset=utf-8"),
        ("a.json", "application/json"),
        ("a.csv", "text/csv; charset=utf-8"),
        ("a.html", "text/html; charset=utf-8"),
        ("a.htm", "text/html; charset=utf-8"),
        ("a.pdf", "application/pdf"),
        ("a.png", "image/png"),
        ("a.jpg", "image/jpeg"),
        ("a.jpeg", "image/jpeg"),
        ("a.gif", "image/gif"),
        ("a.webp", "image/webp"),
        ("a.svg", "image/svg+xml"),
        ("a.zip", "application/zip"),
        ("a.MD", "application/octet-stream"),
        ("a", "application/octet-stream"),
        ("a.", "application/octet-stream"),
    ];
    for (path, mime) in cases {
        assert_eq!(mime_type_for_path(&names(path)), mime);
    }
}

#[test]
fn listing_starts_at_the_prefix() {
    let root = absolute("/ws");
    assert_eq!(listing_start(&root, None).unwrap(), root);
    assert_eq!(listing_start(&root, Some("/")).unwrap(), root);
    assert_eq!(
        listing_start(&root, Some("a/b")).unwrap(),
        absolute("/ws/a/b")
    );
    assert_eq!(
        listing_start(&root, Some("../b")).unwrap_err(),
        WorkspaceFileError::Forbidden
    );
}

#[test]
fn workspace_root_must_be_a_directory() {
    assert_eq!(
        canonical_dir(Ok(absolute("/ws")), true).unwrap(),
        absolute("/ws")
    );
    assert_eq!(
        canonical_dir(Ok(absolute("/ws")), false).unwrap_err(),
        WorkspaceFileError::NoWorkspace
    );
    assert_eq!(
        canonical_dir(Err("no such file".to_string()), true).unwrap_err(),
        WorkspaceFileError::Io("no such file".to_string())
    );
    assert_eq!(
        canonical_optional(Some(Ok(absolute("/s")))),
        Some(absolute("/s"))
    );
    assert_eq!(canonical_optional(Some(Err("x".to_string()))), None);
    assert_eq!(canonical_optional(None), None);
}

#[test]
fn download_resolves_what_was_asked_for() {
    let root = absolute("/ws");
    assert_eq!(
        download_candidate(&root, "a/link").unwrap(),
        absolute("/ws/a/link")
    );
    let download = read_file_for_download(
        &root,
        None,
        "a/link",
        &Ok(absolute("/ws/b/real.md")),
        &Ok(file(12)),
    )
    .unwrap();
    assert_eq!(download.path, absolute("/ws/b/real.md"));
    assert_eq!(download.rel_path, "b/real.md");
    assert_eq!(download.size_bytes, 12);
    assert_eq!(download.mime_type, "application/octet-stream");
}

#[test]
fn download_refusals() {
    let root = absolute("/ws");
    let state = absolute("/ws/state");
    let place = Ok(absolute("/ws/a.md"));
    let read = |rel: &str, canonical, metadata| {
        read_file_for_download(&root, Some(&state), rel, &canonical, &metadata).unwrap_err()
    };
    for rel in ["", "/", ".", ".hidden/a.md", "a/.b"] {
        assert_eq!(
            download_candidate(&root, rel).unwrap_err(),
            WorkspaceFileError::Forbidden
        );
        assert_eq!(
            read(rel, place.clone(), Ok(file(1))),
            WorkspaceFileError::Forbidden
        );
    }
    assert_eq!(
        read("a.md", Err(FsFailure::NotFound), Ok(file(1))),
        WorkspaceFileError::NotFound
    );
    assert_eq!(
        read(
            "a.md",
            Err(FsFailure::Other("loop".to_string())),
            Ok(file(1))
        ),
        WorkspaceFileError::Io("loop".to_string())
    );
    assert_eq!(
        read("s", Ok(absolute("/ws/state/a")), Ok(file(1))),
        WorkspaceFileError::Forbidden
    );
    assert_eq!(
        read("sessions/a", Ok(absolute("/ws/sessions/a")), Ok(file(1))),
        WorkspaceFileError::Forbidden
    );
    assert_eq!(
        read("a.md", place.clone(), Err(FsFailure::NotFound)),
        WorkspaceFileError::NotFound
    );
    assert_eq!(
        read(
            "a.md",
            place.clone(),
            Err(FsFailure::Other("denied".to_string()))
        ),
        WorkspaceFileError::Io("denied".to_string())
    );
    assert_eq!(
        read(
            "a.md",
            place,
            Ok(FileMetadata {
                is_file: false,
                len: 1,
                modified_at: None
            })
        ),
        WorkspaceFileError::NotFound
    );
    assert_eq!(
        download_failure(&FsFailure::NotFound),
        WorkspaceFileError::NotFound
    );
}

#[test]
fn listed_file_can_be_downloaded() {
    let root = absolute("/ws");
    let item = walked("/ws/reports/a.csv", true, 9);
    let entry = list_item(&root, None, None, &item).unwrap().unwrap();
    let download = read_file_for_download(
        &root,
        None,
        &entry.rel_path,
        &Ok(absolute("/ws/reports/a.csv")),
        &Ok(file(9)),
    )
    .unwrap();
    assert_eq!(download.rel_path, entry.rel_path);
    assert_eq!(download.mime_type, entry.mime_type);
    assert_eq!(download.size_bytes, entry.size_bytes);
}

#[test]
fn error_messages() {
    assert_eq!(
        WorkspaceFileError::NoWorkspace.message(),
        "Workspace not configured"
    );
    assert_eq!(WorkspaceFileError::NotFound.message(), "File not found");
    assert_eq!(
        WorkspaceFileError::Forbidden.message(),
        "Path is outside the workspace"
    );
    assert_eq!(WorkspaceFileError::Io("disk".to_string()).message(), "disk");
}

#[test]
fn no_path_is_listed_twice() {
    let root = absolute("/ws");
    let walk = vec![
        walked("/ws", false, 0),
        walked("/ws/a", false, 0),
        walked("/ws/a/b.txt", true, 1),
        walked("/ws/b.txt", true, 2),
        walked("/ws/a/c/b.txt", true, 3),
    ];
    let files = list_files(&root, None, None, &Ok(root.copied()), &walk).unwrap();
    let paths: Vec<&str> = files.iter().map(|f| f.rel_path.as_str()).collect();
    assert_eq!(paths, vec!["a/b.txt", "a/c/b.txt", "b.txt"]);
}
