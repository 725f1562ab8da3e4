use dir_kill::discover::{DiscoveryError, Entry, EntryKind, Snapshot};
use dir_kill::entry::{CalculationStatus, DeletionStatus, DirectoryInfo};
use dir_kill::format::Timestamp;
use dir_kill::ignore::IgnorePatterns;
use dir_kill::list::DirectoryList;
use dir_kill::report::{report_header, report_lines, text_report, ReportError};
use dir_kill::size::{
    calculate_directory_size, find_directories_with_size, find_directories_with_size_and_ignore,
};
use dir_kill::style::{Style, Tone};

/// The moment at which the searches of these tests are made.
const NOW: Timestamp = Timestamp { secs: 1_700_000_000, nanos: 0 };

fn file(name: &str, length: u64) -> Entry {
    Entry {
        name: name.to_string(),
        path: format!("?/{}", name),
        modified: None,
        kind: EntryKind::File(length),
    }
}

fn dir_at(path: &str, modified: Option<i64>, children: Vec<Entry>) -> Entry {
    Entry {
        name: path.rsplit('/').next().unwrap().to_string(),
        path: path.to_string(),
        modified: modified.map(|secs| Timestamp { secs, nanos: 0 }),
        kind: EntryKind::Directory(children),
    }
}

fn other(name: &str) -> Entry {
    Entry { name: name.to_string(), path: name.to_string(), modified: None, kind: EntryKind::Other }
}

fn unreadable(path: &str) -> Entry {
    Entry {
        name: path.rsplit('/').next().unwrap().to_string(),
        path: path.to_string(),
        modified: None,
        kind: EntryKind::Unreadable("Permission denied".to_string()),
    }
}

fn root(path: &str, modified: Option<i64>, entries: Vec<Entry>) -> Snapshot {
    Snapshot {
        path: path.to_string(),
        modified: modified.map(|secs| Timestamp { secs, nanos: 0 }),
        kind: Some(EntryKind::Directory(entries)),
    }
}

#[test]
fn test_calculate_directory_size() {
    let tree = EntryKind::Directory(vec![
        file("file1.txt", 13),
        file("file2.txt", 12),
        dir_at("t/subdir", None, vec![file("file3.txt", 17)]),
    ]);
    let size = calculate_directory_size(&tree).unwrap();
    assert!(size > 0);
    assert_eq!(size, 42);
}

#[test]
fn sizes_count_regular_files_only() {
    let tree = EntryKind::Directory(vec![
        file("a", 5),
        other("link-to-big-file"),
        unreadable("t/locked"),
        dir_at(
            "t/deep",
            None,
            vec![dir_at("t/deep/er", None, vec![file("b", 7), file("c", 0)]), file("d", 100)],
        ),
        dir_at("t/empty", None, vec![]),
    ]);
    assert_eq!(calculate_directory_size(&tree), Ok(112));
    assert_eq!(calculate_directory_size(&EntryKind::Directory(vec![])), Ok(0));
    assert_eq!(calculate_directory_size(&EntryKind::File(9)), Ok(0));
    assert_eq!(calculate_directory_size(&EntryKind::Other), Ok(0));
    assert_eq!(
        calculate_directory_size(&EntryKind::Unreadable("Permission denied".to_string())),
        Err("Permission denied".to_string())
    );
    let huge = EntryKind::Directory(vec![file("x", u64::MAX - 1), file("y", 1), file("z", 1)]);
    assert_eq!(calculate_directory_size(&huge), Ok(u64::MAX));
}

#[test]
fn test_find_directories_with_size() {
    let snapshot = root(
        "/t",
        None,
        vec![
            dir_at("/t/node_modules", None, vec![file("file1.txt", 19)]),
            dir_at(
                "/t/subdir",
                None,
                vec![dir_at("/t/subdir/node_modules", None, vec![file("file2.txt", 40)])],
            ),
        ],
    );

    let directories = find_directories_with_size(&snapshot, "node_modules", &NOW).unwrap();

    assert_eq!(directories.len(), 2);
    assert!(directories[0].size >= directories[1].size); // Sorted by size, largest first
    assert_eq!(directories[0].path, "/t/subdir/node_modules");
    assert_eq!(directories[0].size, 40);
    assert_eq!(directories[1].size, 19);
}

#[test]
fn test_last_modified_from_parent_directory() {
    let snapshot = root(
        "/t",
        Some(10),
        vec![dir_at(
            "/t/project",
            Some(1_000),
            vec![
                file("package.json", 2),
                dir_at("/t/project/node_modules", Some(2_000), vec![file("some_file.txt", 7)]),
            ],
        )],
    );

    let directories = find_directories_with_size(&snapshot, "node_modules", &NOW).unwrap();

    assert_eq!(directories.len(), 1);

    let dir_info = &directories[0];
    assert!(dir_info.path.contains("node_modules"));

    // The last modified time should be from the project directory, not node_modules
    assert!(dir_info.last_modified.is_some());
    let project_modified = Timestamp { secs: 1_000, nanos: 0 };
    let node_modules_modified = Timestamp { secs: 2_000, nanos: 0 };
    assert_eq!(dir_info.last_modified.unwrap(), project_modified);
    assert_ne!(dir_info.last_modified.unwrap(), node_modules_modified);
    assert_eq!(dir_info.formatted_last_modified, "53 years ago");
}

#[test]
fn test_find_directories_with_size_and_ignore() {
    let snapshot = root(
        "/t",
        None,
        vec![
            dir_at("/t/node_modules", None, vec![]),
            dir_at("/t/other", None, vec![file("test.txt", 7)]),
        ],
    );

    let ignore_patterns = IgnorePatterns::new("node_modules").unwrap();
    let result = find_directories_with_size_and_ignore(&snapshot, "other", &ignore_patterns, &NOW);

    assert!(result.is_ok());
    let directories = result.unwrap();
    assert_eq!(directories.len(), 1);
    assert!(directories[0].path.ends_with("other"));
    assert!(directories[0].size > 0);
}

fn sized(path: &str, size: u64) -> Entry {
    dir_at(path, None, vec![file("blob", size)])
}

#[test]
fn matches_are_listed_largest_first_and_ties_keep_their_order() {
    let snapshot = root(
        ".",
        Some(5),
        vec![
            sized("./a/target", 10),
            dir_at("./b", None, vec![sized("./b/target", 2048), sized("./b/x", 1)]),
            sized("./c/target", 10),
            dir_at("./d", Some(7), vec![unreadable("./d/target")]),
            sized("./e/target", 3000),
            dir_at("./f", None, vec![dir_at("./f/target", None, vec![])]),
        ],
    );
    // The top entries are named by their last component.
    let listing = find_directories_with_size(&snapshot, "target", &NOW).unwrap();
    let seen: Vec<(String, u64, String)> = listing
        .iter()
        .map(|d| (d.path.clone(), d.size, d.formatted_size.clone()))
        .collect();
    assert_eq!(
        seen,
        vec![
            ("./e/target".to_string(), 3000, "2.9 KB".to_string()),
            ("./b/target".to_string(), 2048, "2.0 KB".to_string()),
            ("./a/target".to_string(), 10, "10 B".to_string()),
            ("./c/target".to_string(), 10, "10 B".to_string()),
            ("./d/target".to_string(), 0, "0 B".to_string()),
            ("./f/target".to_string(), 0, "0 B".to_string()),
        ]
    );
    for info in &listing {
        assert!(!info.selected);
        assert_eq!(info.deletion_status, DeletionStatus::Normal);
        assert_eq!(info.calculation_status, CalculationStatus::Completed);
        assert_eq!(info.calculation_time, None);
    }
    // Top-level matches stand in the root, the others in their own directory.
    assert_eq!(listing[2].last_modified, Some(Timestamp { secs: 5, nanos: 0 }));
    assert_eq!(listing[1].last_modified, None);
    assert_eq!(listing[1].formatted_last_modified, "Unknown");
    assert_eq!(listing[4].last_modified, Some(Timestamp { secs: 7, nanos: 0 }));

    assert_eq!(
        find_directories_with_size(&snapshot, "", &NOW).unwrap_err(),
        DiscoveryError::PatternEmpty
    );
    let missing = Snapshot { path: "/x".to_string(), modified: None, kind: None };
    assert_eq!(
        find_directories_with_size(&missing, "t", &NOW).unwrap_err(),
        DiscoveryError::RootMissing("/x".to_string())
    );
}

fn listed(path: &str, size: u64, text: &str, time: Option<u64>) -> DirectoryInfo {
    DirectoryInfo {
        path: path.to_string(),
        size,
        formatted_size: text.to_string(),
        last_modified: None,
        formatted_last_modified: "Unknown".to_string(),
        selected: false,
        deletion_status: DeletionStatus::Normal,
        calculation_status: CalculationStatus::Completed,
        calculation_time: time,
    }
}

#[test]
fn a_report_opens_with_the_search() {
    assert_eq!(
        report_header("target", "/work", ""),
        vec![
            "🔍 Directory Search Results",
            "Pattern: 'target' in '/work'",
            "⏳ Scanning directories...",
            "",
        ]
    );
    assert_eq!(report_header("t", ".", "  \t ").len(), 4);
    assert_eq!(
        report_header("t", ".", " a, b"),
        vec![
            "🔍 Directory Search Results",
            "Pattern: 't' in '.'",
            "Ignore patterns: ' a, b'",
            "⏳ Scanning directories...",
            "",
        ]
    );
}

#[test]
fn a_report_lists_what_was_found() {
    assert_eq!(
        report_lines("dist", &vec![]),
        vec!["❌ No directories found matching pattern 'dist'"]
    );
    let found =
        vec![listed("./a/dist", 2048, "2.0 KB", Some(1500)), listed("b/dist", 10, "10 B", None)];
    assert_eq!(
        report_lines("dist", &found),
        vec![
            "✅ Found 2 directories:",
            "",
            "📁 a/dist (2.0 KB) (calculated in 1.5s)",
            "📁 b/dist (10 B)",
            "",
            "📊 Total: 2 directories found, 2.0 KB total size",
            "💡 Tip: Use a terminal that supports TUI for a better experience",
        ]
    );
}

#[test]
fn a_report_marks_its_pages() {
    let many: Vec<DirectoryInfo> =
        (0..45).map(|i| listed(&format!("d{}", i), 1, "1 B", None)).collect();
    let lines = report_lines("d", &many);
    assert_eq!(lines.len(), 2 + 45 + 2 * 3 + 3);
    assert_eq!(lines[0], "✅ Found 45 directories:");
    assert_eq!(lines[21], "📁 d19 (1 B)");
    assert_eq!(&lines[22..25], &["", "--- Page 1 of 3 ---", ""]);
    assert_eq!(lines[25], "📁 d20 (1 B)");
    assert_eq!(&lines[45..48], &["", "--- Page 2 of 3 ---", ""]);
    assert_eq!(lines[52], "📁 d44 (1 B)");
    assert_eq!(lines[54], "📊 Total: 45 directories found, 45 B total size");

    // No mark behind the last directory.
    let full: Vec<DirectoryInfo> =
        (0..40).map(|i| listed(&format!("d{}", i), 1, "1 B", None)).collect();
    let lines = report_lines("d", &full);
    assert_eq!(lines.len(), 2 + 40 + 3 + 3);
    assert_eq!(&lines[22..25], &["", "--- Page 1 of 2 ---", ""]);
    assert_eq!(lines[44], "📁 d39 (1 B)");
    assert_eq!(lines[45], "");
}

#[test]
fn a_text_report_searches_and_lists() {
    let snapshot = root(
        "/w",
        None,
        vec![sized("/w/a/target", 10), sized("/w/b/target", 2000), sized("/w/tmp/target", 5)],
    );
    let lines = text_report(&snapshot, "target", "", &NOW).unwrap();
    assert_eq!(
        lines,
        vec![
            "✅ Found 3 directories:",
            "",
            "📁 /w/b/target (2.0 KB)",
            "📁 /w/a/target (10 B)",
            "📁 /w/tmp/target (5 B)",
            "",
            "📊 Total: 3 directories found, 2.0 KB total size",
            "💡 Tip: Use a terminal that supports TUI for a better experience",
        ]
    );
    let bad = text_report(&snapshot, "target", "ok,[", &NOW).unwrap_err();
    assert_eq!(bad.to_string(), "Invalid regex pattern: '['");
    assert!(matches!(bad, ReportError::Ignore(_)));
    let empty = text_report(&snapshot, "", "", &NOW).unwrap_err();
    assert_eq!(empty.to_string(), "Pattern cannot be empty");
    assert!(matches!(empty, ReportError::Discovery(DiscoveryError::PatternEmpty)));
}

#[test]
fn the_list_widget_has_a_row_for_each_item() {
    let mut list = DirectoryList::new(vec!["one".to_string(), "two".to_string()]);
    list.set_selected(1);
    let rows = list.rows();
    assert_eq!(rows.len(), 2);
    assert_eq!(rows[0][0].text, "📁 ");
    assert_eq!(rows[0][0].style, Style::fg(Tone::Yellow));
    assert_eq!(rows[0][1].text, "one");
    assert_eq!(rows[0][1].style, Style::fg(Tone::White));
    assert_eq!(rows[1][1].text, "two");
    assert_eq!(
        rows[1][1].style,
        Style { fg: Some(Tone::Black), bg: Some(Tone::White), bold: false, underlined: false }
    );
    assert!(DirectoryList::new(vec![]).rows().is_empty());
}
