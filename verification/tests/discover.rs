use dir_kill::discover::{
    check_search, find_directories, find_directories_current, find_directories_with_ignore,
    stream_directories, stream_directories_with_ignore, visit, DiscoveryError, Entry, EntryKind,
    Snapshot, Visit,
};
use dir_kill::entry::DiscoveryMessage;
use dir_kill::ignore::IgnorePatterns;

fn join(parent: &str, name: &str) -> String {
    if parent.ends_with('/') {
        format!("{}{}", parent, name)
    } else {
        format!("{}/{}", parent, name)
    }
}

/// A directory `name` under `parent` that holds what `fill` makes for its
/// path.
fn dir(parent: &str, name: &str, fill: &dyn Fn(&str) -> Vec<Entry>) -> Entry {
    let path = join(parent, name);
    let children = fill(&path);
    Entry { name: name.to_string(), path, modified: None, kind: EntryKind::Directory(children) }
}

fn empty_dir(parent: &str, name: &str) -> Entry {
    dir(parent, name, &|_| vec![])
}

fn file(parent: &str, name: &str, length: u64) -> Entry {
    Entry {
        name: name.to_string(),
        path: join(parent, name),
        modified: None,
        kind: EntryKind::File(length),
    }
}

fn root(path: &str, entries: Vec<Entry>) -> Snapshot {
    Snapshot { path: path.to_string(), modified: None, kind: Some(EntryKind::Directory(entries)) }
}

/// The snapshot of a working directory that looks like a small project.
fn project() -> Snapshot {
    root(
        ".",
        vec![
            file(".", "Cargo.toml", 120),
            dir(".", "src", &|p| vec![file(p, "lib.rs", 900), empty_dir(p, "ui")]),
            dir(".", "tests", &|p| vec![file(p, "all.rs", 300)]),
            dir(".", "docs", &|p| vec![dir(p, "src", &|q| vec![file(q, "index.md", 10)])]),
        ],
    )
}

fn missing(path: &str) -> Snapshot {
    Snapshot { path: path.to_string(), modified: None, kind: None }
}

#[test]
fn test_find_directories_empty_result() {
    // Test that non-existent pattern returns empty result
    let result = find_directories(&project(), "non_existent_pattern");
    assert!(result.is_ok());
    assert_eq!(result.unwrap(), vec![] as Vec<String>);
}

#[test]
fn test_find_directories_invalid_path() {
    // Test that invalid path returns error
    let result = find_directories(&missing("/non/existent/path"), "pattern");
    assert!(result.is_err());
    assert!(result.unwrap_err().to_string().contains("does not exist"));
}

#[test]
fn test_find_directories_current_directory() {
    // Test finding directories in current directory
    let result = find_directories_current(&project(), "src");
    assert!(result.is_ok());
    let paths = result.unwrap();
    assert!(!paths.is_empty());
    assert!(paths.iter().any(|p| p.contains("src")));
}

#[test]
fn test_find_directories_exact_match() {
    // Test exact pattern matching
    let result = find_directories(&project(), "src");
    assert!(result.is_ok());
    let paths = result.unwrap();
    assert!(!paths.is_empty());
    assert!(paths.iter().all(|p| p.ends_with("src")));
}

#[test]
fn test_find_directories_case_sensitive() {
    // Test that matching is case sensitive
    let result_lower = find_directories(&project(), "src");
    let result_upper = find_directories(&project(), "SRC");

    assert_ne!(result_lower.unwrap(), result_upper.unwrap());
}

#[test]
fn test_find_directories_with_temp_dirs() {
    let temp = "/tmp/t1";
    let snapshot = root(
        temp,
        vec![
            empty_dir(temp, "node_modules"),
            dir(temp, "project1", &|p| vec![empty_dir(p, "node_modules")]),
            empty_dir(temp, "other"),
        ],
    );

    let result = find_directories(&snapshot, "node_modules");
    assert!(result.is_ok());
    let paths = result.unwrap();

    assert_eq!(paths.len(), 2);
    assert!(paths.iter().any(|p| p.ends_with("node_modules")));
    assert!(paths.iter().any(|p| p.contains("project1/node_modules")));
    assert_eq!(paths, vec!["/tmp/t1/node_modules", "/tmp/t1/project1/node_modules"]);
}

#[test]
fn test_find_directories_ignores_files() {
    // Test that only directories are returned, not files
    let temp = "/tmp/t2";
    let snapshot =
        root(temp, vec![empty_dir(temp, "test_pattern"), file(temp, "test_pattern_file", 7)]);

    let result = find_directories(&snapshot, "test_pattern");
    assert!(result.is_ok());
    let paths = result.unwrap();

    assert_eq!(paths.len(), 1);
    assert!(paths[0].ends_with("test_pattern"));
}

#[test]
fn a_file_named_like_the_pattern_is_no_match() {
    let temp = "/tmp/t2b";
    let snapshot = root(
        temp,
        vec![
            file(temp, "target", 7),
            Entry {
                name: "target".to_string(),
                path: "/tmp/t2b/link/target".to_string(),
                modified: None,
                kind: EntryKind::Other,
            },
        ],
    );
    assert_eq!(find_directories(&snapshot, "target").unwrap(), Vec::<String>::new());
}

#[test]
fn test_find_directories_empty_pattern() {
    // Test that empty pattern returns error
    let result = find_directories(&project(), "");
    assert!(result.is_err());
    assert!(result.unwrap_err().to_string().contains("empty"));
}

#[test]
fn empty_pattern_is_told_before_a_missing_root() {
    let result = find_directories(&missing("/nowhere"), "");
    assert_eq!(result, Err(DiscoveryError::PatternEmpty));
    assert_eq!(DiscoveryError::PatternEmpty.to_string(), "Pattern cannot be empty");
}

#[test]
fn root_that_is_a_file_is_no_directory() {
    let snapshot = Snapshot {
        path: "/etc/hosts".to_string(),
        modified: None,
        kind: Some(EntryKind::File(12)),
    };
    let error = find_directories(&snapshot, "x").unwrap_err();
    assert_eq!(error, DiscoveryError::RootNotDirectory("/etc/hosts".to_string()));
    assert_eq!(error.to_string(), "Path '/etc/hosts' is not a directory");
    let gone = find_directories(&missing("/a b"), "x").unwrap_err();
    assert_eq!(gone.to_string(), "Path '/a b' does not exist");
}

#[test]
fn unreadable_root_fails_the_search_and_is_told_in_the_stream() {
    let snapshot = Snapshot {
        path: "/root".to_string(),
        modified: None,
        kind: Some(EntryKind::Unreadable("Permission denied (os error 13)".to_string())),
    };
    let error = find_directories(&snapshot, "x").unwrap_err();
    assert_eq!(error, DiscoveryError::RootUnreadable("Permission denied (os error 13)".to_string()));
    assert_eq!(error.to_string(), "Permission denied (os error 13)");
    let messages = stream_directories(&snapshot, "x").unwrap();
    assert_eq!(messages.len(), 1);
    assert!(matches!(&messages[0], DiscoveryMessage::DiscoveryError(m) if m == "Permission denied (os error 13)"));
}

#[test]
fn unreadable_subtree_is_passed_over() {
    let temp = "/tmp/t3";
    let snapshot = root(
        temp,
        vec![
            Entry {
                name: "locked".to_string(),
                path: "/tmp/t3/locked".to_string(),
                modified: None,
                kind: EntryKind::Unreadable("Permission denied".to_string()),
            },
            Entry {
                name: "target".to_string(),
                path: "/tmp/t3/target".to_string(),
                modified: None,
                kind: EntryKind::Unreadable("Permission denied".to_string()),
            },
            dir(temp, "b", &|p| vec![empty_dir(p, "target")]),
        ],
    );
    assert_eq!(
        find_directories(&snapshot, "target").unwrap(),
        vec!["/tmp/t3/target", "/tmp/t3/b/target"]
    );
}

fn found_paths(messages: &[DiscoveryMessage]) -> Vec<String> {
    messages
        .iter()
        .filter_map(|m| match m {
            DiscoveryMessage::DirectoryFound(path) => Some(path.clone()),
            _ => None,
        })
        .collect()
}

#[test]
fn test_stream_directories_basic() {
    let temp = "/tmp/s1";
    let snapshot = root(
        temp,
        vec![
            empty_dir(temp, "test_pattern"),
            dir(temp, "subdir", &|p| vec![empty_dir(p, "test_pattern")]),
            empty_dir(temp, "other"),
        ],
    );

    let messages = stream_directories(&snapshot, "test_pattern").unwrap();
    let discovered_paths = found_paths(&messages);

    assert_eq!(discovered_paths.len(), 2);
    assert!(discovered_paths.iter().any(|p| p.ends_with("test_pattern")));
    assert!(discovered_paths.iter().any(|p| p.contains("subdir/test_pattern")));
    assert!(messages.iter().any(|m| matches!(m, DiscoveryMessage::DiscoveryComplete)));
    assert!(matches!(messages.last(), Some(DiscoveryMessage::DiscoveryComplete)));
    assert_eq!(messages.len(), 3);
}

#[test]
fn test_stream_directories_empty_result() {
    let temp = "/tmp/s2";
    let snapshot = root(temp, vec![empty_dir(temp, "other1"), empty_dir(temp, "other2")]);

    let messages = stream_directories(&snapshot, "nonexistent_pattern").unwrap();

    // Should only get completion message, no directory found messages
    assert_eq!(messages.len(), 1);
    assert!(matches!(messages[0], DiscoveryMessage::DiscoveryComplete));
}

#[test]
fn test_stream_directories_error_handling() {
    let result = stream_directories(&missing("/non/existent/path"), "pattern");
    assert!(result.is_err());
}

#[test]
fn test_stream_directories_progressive_discovery() {
    let temp = "/tmp/s3";
    let snapshot = root(
        temp,
        vec![
            empty_dir(temp, "test_pattern"),
            dir(temp, "level1", &|p| {
                vec![
                    empty_dir(p, "test_pattern"),
                    dir(p, "level2", &|q| {
                        vec![
                            empty_dir(q, "test_pattern"),
                            dir(q, "level3", &|r| vec![empty_dir(r, "test_pattern")]),
                        ]
                    }),
                ]
            }),
        ],
    );
    let dirs = vec![
        "/tmp/s3/test_pattern",
        "/tmp/s3/level1/test_pattern",
        "/tmp/s3/level1/level2/test_pattern",
        "/tmp/s3/level1/level2/level3/test_pattern",
    ];

    let messages = stream_directories(&snapshot, "test_pattern").unwrap();
    let discovered_paths = found_paths(&messages);

    // Should find all 4 directories
    assert_eq!(discovered_paths.len(), 4);
    assert_eq!(messages.len(), 5); // 4 directories + 1 completion message

    for dir in &dirs {
        assert!(discovered_paths.iter().any(|p| p == dir));
    }
    assert_eq!(discovered_paths, dirs);
}

fn nested(temp: &str, name: &'static str, inner: &'static str) -> Snapshot {
    root(
        temp,
        vec![
            empty_dir(temp, name),
            dir(temp, "project1", &|p| {
                vec![dir(p, name, &|q| vec![dir(q, inner, &|r| vec![empty_dir(r, name)])])]
            }),
        ],
    )
}

#[test]
fn test_stream_directories_nested_node_modules() {
    let snapshot = nested("/tmp/s4", "node_modules", "subpackage");
    let messages = stream_directories(&snapshot, "node_modules").unwrap();
    let discovered_paths = found_paths(&messages);

    // Should find exactly 2 node_modules (not 3, because nested ones are ignored)
    assert_eq!(discovered_paths.len(), 2);
    assert!(discovered_paths.iter().any(|p| p.ends_with("node_modules")));
    assert!(discovered_paths.iter().any(|p| p.contains("project1/node_modules")));
    assert!(!discovered_paths.iter().any(|p| p.contains("subpackage/node_modules")));
}

#[test]
fn test_nested_pattern_avoidance_general() {
    let snapshot = nested("/tmp/n1", "dist", "build");
    let result = find_directories(&snapshot, "dist");
    assert!(result.is_ok());
    let paths = result.unwrap();

    assert_eq!(paths.len(), 2);
    assert!(paths.iter().any(|p| p.ends_with("dist")));
    assert!(paths.iter().any(|p| p.contains("project1/dist")));
    assert!(!paths.iter().any(|p| p.contains("build/dist")));
}

#[test]
fn test_nested_pattern_avoidance_target() {
    let snapshot = nested("/tmp/n2", "target", "debug");
    let result = find_directories(&snapshot, "target");
    assert!(result.is_ok());
    let paths = result.unwrap();

    assert_eq!(paths.len(), 2);
    assert!(paths.iter().any(|p| p.ends_with("target")));
    assert!(paths.iter().any(|p| p.contains("project1/target")));
    assert!(!paths.iter().any(|p| p.contains("debug/target")));
}

#[test]
fn test_nested_pattern_avoidance_with_ignore() {
    let temp = "/tmp/n3";
    let snapshot = root(
        temp,
        vec![
            empty_dir(temp, "node_modules"),
            dir(temp, "project1", &|p| {
                vec![dir(p, "node_modules", &|q| {
                    vec![
                        dir(q, "subpackage", &|r| vec![empty_dir(r, "node_modules")]),
                        empty_dir(q, "temp"),
                    ]
                })]
            }),
        ],
    );

    let ignore_patterns = IgnorePatterns::new("temp").unwrap();
    let result = find_directories_with_ignore(&snapshot, "node_modules", &ignore_patterns);
    assert!(result.is_ok());
    let paths = result.unwrap();

    assert_eq!(paths.len(), 2);
    assert!(paths.iter().any(|p| p.ends_with("node_modules")));
    assert!(paths.iter().any(|p| p.contains("project1/node_modules")));
    assert!(!paths.iter().any(|p| p.contains("subpackage/node_modules")));
}

#[test]
fn test_performance_optimization() {
    let temp = "/tmp/perf";
    let snapshot = root(
        temp,
        vec![dir(temp, "project", &|p| {
            vec![dir(p, "target", &|q| vec![dir(q, "debug", &|r| vec![empty_dir(r, "target")])])]
        })],
    );

    let result = find_directories(&snapshot, "target");
    assert!(result.is_ok());
    let paths = result.unwrap();
    assert_eq!(paths.len(), 1); // Only the top-level target, not the nested one

    let ignore_patterns = IgnorePatterns::new("temp").unwrap();
    let result_with_ignore = find_directories_with_ignore(&snapshot, "target", &ignore_patterns);
    assert!(result_with_ignore.is_ok());
    let paths_with_ignore = result_with_ignore.unwrap();
    assert_eq!(paths_with_ignore.len(), 1); // Same result
}

#[test]
fn test_find_directories_with_ignore() {
    let temp = "/tmp/i1";
    let snapshot = root(
        temp,
        vec![
            empty_dir(temp, "node_modules"),
            empty_dir(temp, ".git"),
            empty_dir(temp, "target"),
            empty_dir(temp, "other"),
        ],
    );

    let ignore_patterns = IgnorePatterns::new("node_modules,.git").unwrap();
    let result = find_directories_with_ignore(&snapshot, "other", &ignore_patterns);

    assert!(result.is_ok());
    let paths = result.unwrap();
    assert_eq!(paths.len(), 1);
    assert!(paths[0].ends_with("other"));
}

#[test]
fn test_find_directories_with_ignore_regex() {
    let temp = "/tmp/i2";
    let snapshot = root(
        temp,
        vec![empty_dir(temp, "cache"), empty_dir(temp, "temp_dir"), empty_dir(temp, "other")],
    );

    let ignore_patterns = IgnorePatterns::new(".*cache$,^temp.*").unwrap();
    let result = find_directories_with_ignore(&snapshot, "other", &ignore_patterns);

    assert!(result.is_ok());
    let paths = result.unwrap();
    assert_eq!(paths.len(), 1);
    assert!(paths[0].ends_with("other"));
    assert_eq!(paths, vec!["/tmp/i2/other"]);
}

#[test]
fn test_stream_directories_with_ignore() {
    let temp = "/tmp/i3";
    let snapshot = root(temp, vec![empty_dir(temp, "node_modules"), empty_dir(temp, "other")]);

    let ignore_patterns = IgnorePatterns::new("node_modules").unwrap();
    let messages =
        stream_directories_with_ignore(&snapshot, "other", &ignore_patterns).unwrap();

    // Should find the "other" directory but not "node_modules"
    let found_dirs = found_paths(&messages);
    assert_eq!(found_dirs.len(), 1);
    assert!(found_dirs[0].ends_with("other"));
}

#[test]
fn an_ignored_directory_is_neither_reported_nor_entered() {
    let temp = "/tmp/i4";
    let snapshot = root(
        temp,
        vec![
            dir(temp, "vendor", &|p| vec![empty_dir(p, "target"), empty_dir(p, "deep")]),
            dir(temp, "target", &|p| vec![empty_dir(p, "x")]),
            dir(temp, "app", &|p| vec![empty_dir(p, "target")]),
        ],
    );
    let none = IgnorePatterns::new("").unwrap();
    assert_eq!(
        find_directories_with_ignore(&snapshot, "target", &none).unwrap(),
        vec!["/tmp/i4/vendor/target", "/tmp/i4/target", "/tmp/i4/app/target"]
    );
    let vendor = IgnorePatterns::new("^vendor$").unwrap();
    assert_eq!(
        find_directories_with_ignore(&snapshot, "target", &vendor).unwrap(),
        vec!["/tmp/i4/target", "/tmp/i4/app/target"]
    );
    // The pattern itself may be ignored: then nothing is reported.
    let all = IgnorePatterns::new("targ").unwrap();
    assert_eq!(
        find_directories_with_ignore(&snapshot, "target", &all).unwrap(),
        Vec::<String>::new()
    );
}

#[test]
fn no_reported_path_lies_inside_another() {
    let snapshot = nested("/tmp/n4", "node_modules", "node_modules");
    let paths = find_directories(&snapshot, "node_modules").unwrap();
    for a in &paths {
        for b in &paths {
            assert!(!b.starts_with(&format!("{}/", a)), "{} lies inside {}", b, a);
        }
    }
    let chain = root(
        "root",
        vec![dir("root", "node_modules", &|p| {
            vec![dir(p, "node_modules", &|q| vec![empty_dir(q, "node_modules")])]
        })],
    );
    assert_eq!(find_directories(&chain, "node_modules").unwrap(), vec!["root/node_modules"]);
    let messages = stream_directories(&chain, "node_modules").unwrap();
    assert_eq!(messages.len(), 2);
}

#[test]
fn matches_are_streamed_in_walk_order() {
    let snapshot = root(
        "root",
        vec![
            empty_dir("root", "node_modules"),
            dir("root", "project1", &|p| vec![empty_dir(p, "node_modules")]),
            empty_dir("root", "other"),
        ],
    );
    let messages = stream_directories(&snapshot, "node_modules").unwrap();
    assert_eq!(found_paths(&messages), vec!["root/node_modules", "root/project1/node_modules"]);
    assert!(matches!(messages[2], DiscoveryMessage::DiscoveryComplete));
    assert_eq!(messages.len(), 3);
}

#[test]
fn ignored_names_are_not_streamed() {
    let snapshot = root(
        "root",
        vec![empty_dir("root", "cache"), empty_dir("root", "temp_dir"), empty_dir("root", "other")],
    );
    let ignore = IgnorePatterns::new(".*cache$,^temp.*").unwrap();
    let messages = stream_directories_with_ignore(&snapshot, "other", &ignore).unwrap();
    assert_eq!(found_paths(&messages), vec!["root/other"]);
    assert!(matches!(messages[1], DiscoveryMessage::DiscoveryComplete));
    assert_eq!(messages.len(), 2);
}

#[test]
fn visit_decides_by_name() {
    let ignore = IgnorePatterns::new("^\\.git$, cache").unwrap();
    assert_eq!(visit(".git", "target", &ignore), Visit::Skip);
    assert_eq!(visit("my_cache_dir", "target", &ignore), Visit::Skip);
    assert_eq!(visit("target", "target", &ignore), Visit::Report);
    assert_eq!(visit("Target", "target", &ignore), Visit::Descend);
    assert_eq!(visit("src", "target", &ignore), Visit::Descend);
    assert_eq!(visit("cache", "cache", &ignore), Visit::Skip);
}

#[test]
fn a_walk_needs_a_pattern_and_a_root() {
    assert_eq!(check_search("", "/gone", false, false), Err(DiscoveryError::PatternEmpty));
    assert_eq!(
        check_search("x", "/gone", false, false),
        Err(DiscoveryError::RootMissing("/gone".to_string()))
    );
    assert_eq!(
        check_search("x", "/etc/hosts", true, false),
        Err(DiscoveryError::RootNotDirectory("/etc/hosts".to_string()))
    );
    assert_eq!(check_search("x", "/etc", true, true), Ok(()));
}
