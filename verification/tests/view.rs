use dir_kill::app::{App, DiscoveryStatus};
use dir_kill::entry::{CalculationStatus, DeletionStatus, DirectoryInfo};
use dir_kill::format::{format_size, Timestamp};
use dir_kill::panels::{
    build_details, build_empty_state, build_footer, build_frame, build_header, timing_summary, Body,
};
use dir_kill::style::{Span, Style, Tone};
use dir_kill::text::clean_path;
use dir_kill::view::{
    build_row, build_rows, calculated_count, format_duration, get_calculation_status_icon,
    get_directory_icon, get_loading_frame, get_selection_indicator_color, list_title, page_size,
    selection_summary, total_size,
};

// Helper function to create DirectoryInfo for tests
fn create_test_dir(path: &str, size: u64, formatted_size: &str) -> DirectoryInfo {
    DirectoryInfo {
        path: path.to_string(),
        size,
        formatted_size: formatted_size.to_string(),
        last_modified: None,
        formatted_last_modified: "Unknown".to_string(),
        selected: false,
        deletion_status: DeletionStatus::Normal,
        calculation_status: CalculationStatus::Completed,
        calculation_time: None,
    }
}

// Helper function to create DirectoryInfo with calculating state
fn create_calculating_dir(path: &str) -> DirectoryInfo {
    DirectoryInfo {
        path: path.to_string(),
        size: 0,
        formatted_size: "Calculating…".to_string(),
        last_modified: None,
        formatted_last_modified: "Unknown".to_string(),
        selected: false,
        deletion_status: DeletionStatus::Normal,
        calculation_status: CalculationStatus::Calculating,
        calculation_time: None,
    }
}

fn not_started(path: &str) -> DirectoryInfo {
    DirectoryInfo {
        calculation_status: CalculationStatus::NotStarted,
        ..create_calculating_dir(path)
    }
}

#[test]
fn mod_test_app_creation() {
    let directories =
        vec![create_test_dir("dir1", 100, "100 B"), create_test_dir("dir2", 200, "200 B")];
    let app = App::new(directories.clone(), "test".to_string(), ".".to_string());
    assert_eq!(app.directories.len(), directories.len());
    assert_eq!(app.selected, 0);
}

#[test]
fn test_app_navigation() {
    let directories = vec![
        create_test_dir("dir1", 100, "100 B"),
        create_test_dir("dir2", 200, "200 B"),
        create_test_dir("dir3", 300, "300 B"),
    ];
    let mut app = App::new(directories, "test".to_string(), ".".to_string());
    let items_per_page = 20;

    // Test next
    app.next(items_per_page);
    assert_eq!(app.selected, 1);

    app.next(items_per_page);
    assert_eq!(app.selected, 2);

    // Test wrapping
    app.next(items_per_page);
    assert_eq!(app.selected, 0);

    // Test previous
    app.previous(items_per_page);
    assert_eq!(app.selected, 2);
}

#[test]
fn test_app_empty_list() {
    let app = App::new(vec![], "test".to_string(), ".".to_string());
    assert_eq!(app.directories.len(), 0);
    assert_eq!(app.selected, 0);
}

#[test]
fn test_clean_path() {
    assert_eq!(clean_path("./test/path"), "test/path");
    assert_eq!(clean_path("test/path"), "test/path");
    assert_eq!(clean_path("./"), "");
    assert_eq!(clean_path(""), "");
    assert_eq!(clean_path("./node_modules"), "node_modules");
}

#[test]
fn clean_path_takes_one_prefix_only() {
    assert_eq!(clean_path("././x"), "./x");
    assert_eq!(clean_path("."), ".");
    assert_eq!(clean_path(".x/"), ".x/");
    assert_eq!(clean_path("/./x"), "/./x");
    assert_eq!(clean_path("./žluťoučký/📁"), "žluťoučký/📁");
}

#[test]
fn test_loading_frame() {
    let frame = get_loading_frame();
    assert!(!frame.is_empty());
    assert!(frame.len() <= 3); // Braille characters are typically 1-3 bytes
}

#[test]
fn test_scanning_state_transition() {
    // Test that scanning state properly transitions from loading to results
    let mut app = App::new(vec![], "test".to_string(), ".".to_string());
    let mut is_scanning = true;

    // Initially should show loading state
    assert!(is_scanning);
    assert!(app.directories.is_empty());

    // Simulate receiving first directory
    app.directories.push(DirectoryInfo {
        last_modified: None,
        formatted_last_modified: "Unknown".to_string(),
        path: "test_dir".to_string(),
        size: 100,
        formatted_size: "100 B".to_string(),
        selected: false,
        deletion_status: DeletionStatus::Normal,
        calculation_status: CalculationStatus::Completed,
        calculation_time: None,
    });

    // Should still be scanning after receiving first item
    assert!(is_scanning);
    assert!(!app.directories.is_empty());

    // Simulate time passing without new data and transition to not scanning
    is_scanning = false;

    assert!(!is_scanning);
    assert!(!app.directories.is_empty());
}

#[test]
fn test_scanning_state_with_multiple_items() {
    // Test that scanning continues while receiving multiple items
    let mut app = App::new(vec![], "test".to_string(), ".".to_string());
    let mut is_scanning = true;

    // Add multiple directories
    for i in 0..5 {
        app.directories.push(create_test_dir(
            &format!("dir{i}"),
            i as u64 * 100,
            &format!("{} B", i * 100),
        ));
    }

    // Should still be scanning since we just received data
    assert!(is_scanning);
    assert_eq!(app.directories.len(), 5);

    // Simulate time passing without new data and transition to not scanning
    is_scanning = false;

    assert!(!is_scanning);
    assert_eq!(app.directories.len(), 5);
}

#[test]
fn test_ui_rendering_race_condition() {
    // Test the actual UI rendering logic that causes the race condition
    let mut app = App::new(vec![], "test".to_string(), ".".to_string());
    let mut is_scanning = true;

    // Simulate the UI rendering condition: is_scanning
    let should_show_loading = is_scanning;
    assert!(should_show_loading); // Should show loading initially

    // Simulate receiving first directory but still scanning
    app.directories.push(create_test_dir("test_dir", 100, "100 B"));

    // Should still show loading while scanning
    assert!(is_scanning);
    let should_show_loading = is_scanning;
    assert!(should_show_loading); // Should show loading while scanning

    // Only when scanning is false should we show the list
    is_scanning = false;
    let should_show_loading = is_scanning;
    assert!(!should_show_loading); // Should show list when not scanning

    // Test the complete logic: if scanning show loading, else if not empty show list, else show no results
    let should_show_list = !is_scanning && !app.directories.is_empty();
    assert!(should_show_list); // Should show list when not scanning and not empty

    // Test empty case
    let empty_app = App::new(vec![], "test".to_string(), ".".to_string());
    let empty_is_scanning = false;
    let should_show_no_results = !empty_is_scanning && empty_app.directories.is_empty();
    assert!(should_show_no_results); // Should show no results when not scanning and empty
}

#[test]
fn test_scanning_complete_no_results() {
    // Scanning completes but no directories are found
    let app = App::new(vec![], "test".to_string(), ".".to_string());
    let is_scanning = false;
    let has_received_any_data = true; // Scanning completed, we know there are no results

    // Should show "no results" message, not loading
    let should_show_loading = is_scanning || !has_received_any_data;
    assert!(!should_show_loading); // Should NOT show loading

    let should_show_no_results = has_received_any_data && app.directories.is_empty();
    assert!(should_show_no_results); // Should show no results message
}

#[test]
fn test_lazy_size_calculation_initial_state() {
    // Test that directories start with the "Calculating…" placeholder
    let mut app = App::new(vec![], "test".to_string(), ".".to_string());

    // Add a directory with initial state (no size calculated yet)
    app.directories.push(create_calculating_dir("test_dir"));

    assert_eq!(app.directories[0].size, 0);
    assert_eq!(app.directories[0].formatted_size, "Calculating…");
}

#[test]
fn test_lazy_size_calculation_update() {
    // Test that size updates work correctly
    let mut app = App::new(vec![], "test".to_string(), ".".to_string());

    // Add directories with initial state
    app.directories.push(create_calculating_dir("dir1"));
    app.directories.push(create_calculating_dir("dir2"));

    // Simulate size update for first directory
    let index = 0;
    let size = 1024;
    let formatted_size = "1.0 KB".to_string();

    if index < app.directories.len() {
        app.directories[index].size = size;
        app.directories[index].formatted_size = formatted_size.clone();
    }

    // Verify the update
    assert_eq!(app.directories[0].size, 1024);
    assert_eq!(app.directories[0].formatted_size, "1.0 KB");

    // Verify second directory still has placeholder
    assert_eq!(app.directories[1].size, 0);
    assert_eq!(app.directories[1].formatted_size, "Calculating…");
}

#[test]
fn test_lazy_size_calculation_multiple_updates() {
    // Test multiple size updates in sequence
    let mut app = App::new(vec![], "test".to_string(), ".".to_string());

    // Add multiple directories
    for i in 0..3 {
        app.directories.push(create_calculating_dir(&format!("dir{i}")));
    }

    // Simulate size updates in different order
    let updates = vec![(1, 2048, "2.0 KB"), (0, 1024, "1.0 KB"), (2, 3072, "3.0 KB")];

    for (index, size, formatted_size) in updates {
        if index < app.directories.len() {
            app.directories[index].size = size;
            app.directories[index].formatted_size = formatted_size.to_string();
        }
    }

    // Verify all updates were applied correctly
    assert_eq!(app.directories[0].size, 1024);
    assert_eq!(app.directories[0].formatted_size, "1.0 KB");
    assert_eq!(app.directories[1].size, 2048);
    assert_eq!(app.directories[1].formatted_size, "2.0 KB");
    assert_eq!(app.directories[2].size, 3072);
    assert_eq!(app.directories[2].formatted_size, "3.0 KB");
}

#[test]
fn test_lazy_size_calculation_out_of_bounds() {
    // Test that out-of-bounds updates are handled safely
    let mut app = App::new(vec![], "test".to_string(), ".".to_string());

    // Add one directory
    app.directories.push(not_started("test_dir"));

    // Try to update an index that doesn't exist
    let invalid_index = 5;
    let size = 1024;
    let formatted_size = "1.0 KB".to_string();

    if invalid_index < app.directories.len() {
        app.directories[invalid_index].size = size;
        app.directories[invalid_index].formatted_size = formatted_size;
    }

    // Verify the directory wasn't modified (since index was out of bounds)
    assert_eq!(app.directories[0].size, 0);
    assert_eq!(app.directories[0].formatted_size, "Calculating…");
}

fn completed_count(app: &App) -> usize {
    app.directories
        .iter()
        .filter(|dir| matches!(dir.calculation_status, CalculationStatus::Completed))
        .count()
}

#[test]
fn test_total_size_calculation_empty_list() {
    let app = App::new(vec![], "test".to_string(), ".".to_string());

    // Total size should be 0 for empty list
    let total_size_sum: u64 = app.directories.iter().map(|dir| dir.size).sum();
    assert_eq!(total_size_sum, 0);
    assert_eq!(total_size(&app), 0);

    assert_eq!(completed_count(&app), 0);
    assert_eq!(calculated_count(&app), 0);
}

#[test]
fn test_total_size_calculation_with_initial_sizes() {
    let directories = vec![
        create_test_dir("dir1", 1024, "1.0 KB"),
        create_test_dir("dir2", 2048, "2.0 KB"),
        create_test_dir("dir3", 3072, "3.0 KB"),
    ];

    let app = App::new(directories, "test".to_string(), ".".to_string());

    // Total size should be sum of all sizes
    let total_size_sum: u64 = app.directories.iter().map(|dir| dir.size).sum();
    assert_eq!(total_size_sum, 6144); // 1024 + 2048 + 3072
    assert_eq!(total_size(&app), 6144);

    assert_eq!(completed_count(&app), 3);
    assert_eq!(calculated_count(&app), 3);
}

#[test]
fn test_total_size_calculation_with_lazy_updates() {
    let directories = vec![not_started("dir1"), not_started("dir2"), not_started("dir3")];

    let mut app = App::new(directories, "test".to_string(), ".".to_string());

    // Initially all sizes are 0
    let initial_total: u64 = app.directories.iter().map(|dir| dir.size).sum();
    assert_eq!(initial_total, 0);

    let initial_calculated = app.directories.iter().filter(|dir| dir.size > 0).count();
    assert_eq!(initial_calculated, 0);

    // Update first directory size
    if !app.directories.is_empty() {
        app.directories[0].size = 1024;
        app.directories[0].formatted_size = "1.0 KB".to_string();
    }
    let total_after_first: u64 = app.directories.iter().map(|dir| dir.size).sum();
    assert_eq!(total_after_first, 1024);

    let calculated_after_first = app.directories.iter().filter(|dir| dir.size > 0).count();
    assert_eq!(calculated_after_first, 1);

    // Update second directory size
    if 1 < app.directories.len() {
        app.directories[1].size = 2048;
        app.directories[1].formatted_size = "2.0 KB".to_string();
    }
    let total_after_second: u64 = app.directories.iter().map(|dir| dir.size).sum();
    assert_eq!(total_after_second, 3072); // 1024 + 2048

    let calculated_after_second = app.directories.iter().filter(|dir| dir.size > 0).count();
    assert_eq!(calculated_after_second, 2);

    // Update third directory size
    if 2 < app.directories.len() {
        app.directories[2].size = 3072;
        app.directories[2].formatted_size = "3.0 KB".to_string();
    }
    let total_after_third: u64 = app.directories.iter().map(|dir| dir.size).sum();
    assert_eq!(total_after_third, 6144); // 1024 + 2048 + 3072
    assert_eq!(total_size(&app), 6144);

    let calculated_after_third = app.directories.iter().filter(|dir| dir.size > 0).count();
    assert_eq!(calculated_after_third, 3);
    assert_eq!(calculated_count(&app), 0);
}

#[test]
fn test_total_size_calculation_mixed_states() {
    let directories = vec![
        create_test_dir("dir1", 1024, "1.0 KB"),
        not_started("dir2"),
        create_test_dir("dir3", 2048, "2.0 KB"),
    ];

    let mut app = App::new(directories, "test".to_string(), ".".to_string());

    // Initial state: 2 calculated, 1 not calculated
    let initial_total: u64 = app.directories.iter().map(|dir| dir.size).sum();
    assert_eq!(initial_total, 3072); // 1024 + 2048

    let initial_calculated = app.directories.iter().filter(|dir| dir.size > 0).count();
    assert_eq!(initial_calculated, 2);
    assert_eq!(calculated_count(&app), 2);

    // Update the uncounted directory
    if 1 < app.directories.len() {
        app.directories[1].size = 4096;
        app.directories[1].formatted_size = "4.0 KB".to_string();
    }
    let final_total: u64 = app.directories.iter().map(|dir| dir.size).sum();
    assert_eq!(final_total, 7168); // 1024 + 4096 + 2048
    assert_eq!(total_size(&app), 7168);

    let final_calculated = app.directories.iter().filter(|dir| dir.size > 0).count();
    assert_eq!(final_calculated, 3);
}

#[test]
fn test_total_size_calculation_large_numbers() {
    let directories = vec![
        create_test_dir("large_dir1", 1024 * 1024 * 1024, "1.0 GB"),
        create_test_dir("large_dir2", 2 * 1024 * 1024 * 1024, "2.0 GB"),
    ];

    let app = App::new(directories, "test".to_string(), ".".to_string());

    let total_size_sum: u64 = app.directories.iter().map(|dir| dir.size).sum();
    assert_eq!(total_size_sum, 3 * 1024 * 1024 * 1024); // 3 GB
    assert_eq!(total_size(&app), 3 * 1024 * 1024 * 1024);

    assert_eq!(completed_count(&app), 2);
}

#[test]
fn test_total_size_calculation_with_zero_sizes() {
    let directories = vec![
        create_test_dir("empty_dir1", 0, "0 B"),
        create_test_dir("empty_dir2", 0, "0 B"),
        create_test_dir("non_empty_dir", 1024, "1.0 KB"),
    ];

    let app = App::new(directories, "test".to_string(), ".".to_string());

    let total_size_sum: u64 = app.directories.iter().map(|dir| dir.size).sum();
    assert_eq!(total_size_sum, 1024); // Only the non-empty directory contributes
    assert_eq!(total_size(&app), 1024);

    assert_eq!(completed_count(&app), 3); // All directories have completed calculations
    assert_eq!(calculated_count(&app), 3);
}

#[test]
fn test_selection_indicator_logic() {
    fn indicator(dir: &DirectoryInfo) -> &'static str {
        if dir.selected {
            "☑"
        } else {
            "☐"
        }
    }
    let mut dir = create_test_dir("foo", 0, "0 B");
    assert_eq!(indicator(&dir), "☐");
    dir.selected = true;
    assert_eq!(indicator(&dir), "☑");
}

#[test]
fn test_selection_summary_string() {
    let mut app = App::new(
        vec![create_test_dir("a", 100, "100 B"), create_test_dir("b", 200, "200 B")],
        "test".to_string(),
        ".".to_string(),
    );
    // No selection
    let summary = if app.get_selected_count() > 0 {
        format!(
            " | Selected: {} ({})",
            app.get_selected_count(),
            format_size(app.get_selected_total_size())
        )
    } else {
        String::new()
    };
    assert_eq!(summary, "");
    assert_eq!(selection_summary(&app), "");
    // One selected
    app.directories[0].selected = true;
    let summary = if app.get_selected_count() > 0 {
        format!(
            " | Selected: {} ({})",
            app.get_selected_count(),
            format_size(app.get_selected_total_size())
        )
    } else {
        String::new()
    };
    assert_eq!(summary, " | Selected: 1 (100 B)");
    assert_eq!(selection_summary(&app), " | Selected: 1 (100 B)");
    // Both selected
    app.directories[1].selected = true;
    let summary = if app.get_selected_count() > 0 {
        format!(
            " | Selected: {} ({})",
            app.get_selected_count(),
            format_size(app.get_selected_total_size())
        )
    } else {
        String::new()
    };
    assert_eq!(summary, " | Selected: 2 (300 B)");
    assert_eq!(selection_summary(&app), " | Selected: 2 (300 B)");
}

#[test]
fn test_animated_directory_icon() {
    // Test that the animated directory icon returns the correct symbols
    assert_eq!(get_directory_icon(false, false), "📁");
    assert!(
        get_directory_icon(true, false).contains("📂")
            || get_directory_icon(true, false).contains("📁")
    );
    assert!(
        get_directory_icon(false, true).contains("📂")
            || get_directory_icon(false, true).contains("📁")
    );

    // Test that the color function returns different colors for selected vs unselected
    let selected_color = get_selection_indicator_color(true);
    let unselected_color = get_selection_indicator_color(false);
    assert_ne!(selected_color, unselected_color);
    assert_ne!(selected_color.rgb(), unselected_color.rgb());

    // Test animation consistency
    let icon1 = get_directory_icon(true, false);
    let icon2 = get_directory_icon(true, false);
    assert!(icon1 == "📂" || icon1 == "📁");
    assert!(icon2 == "📂" || icon2 == "📁");
}

#[test]
fn test_deletion_status_display() {
    let normal_dir = create_test_dir("test_dir", 100, "100 B");
    let deleting_dir =
        DirectoryInfo { deletion_status: DeletionStatus::Deleting, ..normal_dir.clone() };
    let deleted_dir =
        DirectoryInfo { deletion_status: DeletionStatus::Deleted, ..normal_dir.clone() };
    let error_dir = DirectoryInfo {
        deletion_status: DeletionStatus::Error("Permission denied".to_string()),
        ..normal_dir.clone()
    };

    // Verify the status variants exist and work correctly
    assert!(matches!(normal_dir.deletion_status, DeletionStatus::Normal));
    assert!(matches!(deleting_dir.deletion_status, DeletionStatus::Deleting));
    assert!(matches!(deleted_dir.deletion_status, DeletionStatus::Deleted));
    assert!(matches!(error_dir.deletion_status, DeletionStatus::Error(_)));

    // Test that the UI rendering logic can handle all status types
    let app = App::new(
        vec![normal_dir, deleting_dir, deleted_dir, error_dir],
        "test".to_string(),
        ".".to_string(),
    );
    assert_eq!(app.directories.len(), 4);
    assert!(matches!(app.directories[0].deletion_status, DeletionStatus::Normal));
    assert!(matches!(app.directories[1].deletion_status, DeletionStatus::Deleting));
    assert!(matches!(app.directories[2].deletion_status, DeletionStatus::Deleted));
    assert!(matches!(app.directories[3].deletion_status, DeletionStatus::Error(_)));

    let icons: Vec<String> =
        build_rows(&app, 10).iter().map(|row| row[5].text.clone()).collect();
    assert_eq!(icons, vec!["  ", "🔄", "🗑️", "⚠️"]);
}

#[test]
fn test_complete_selection_and_deletion_workflow() {
    let directories = vec![
        create_test_dir("dir1", 100, "100 B"),
        create_test_dir("dir2", 200, "200 B"),
        create_test_dir("dir3", 300, "300 B"),
    ];

    let mut app = App::new(directories, "test".to_string(), ".".to_string());

    // 1. User navigates to first directory (already selected by default)
    assert_eq!(app.selected, 0);

    // 2. User presses Space to select the first directory
    app.toggle_current_selection();
    assert!(app.directories[0].selected);
    assert_eq!(app.get_selected_count(), 1);

    // 3. User navigates to second directory
    app.selected = 1;
    assert_eq!(app.selected, 1);

    // 4. User presses Space to select the second directory
    app.toggle_current_selection();
    assert!(app.directories[1].selected);
    assert_eq!(app.get_selected_count(), 2);

    // 5. User navigates to third directory
    app.selected = 2;
    assert_eq!(app.selected, 2);

    // 6. User presses Space to select the third directory
    app.toggle_current_selection();
    assert!(app.directories[2].selected);
    assert_eq!(app.get_selected_count(), 3);

    // 7. Now all three directories should be selected
    assert!(app.directories[0].selected);
    assert!(app.directories[1].selected);
    assert!(app.directories[2].selected);

    // 8. Verify the selected directories list
    let selected_dirs = app.get_selected_directories();
    assert_eq!(selected_dirs.len(), 3);
    let selected_paths: Vec<&str> = selected_dirs.iter().map(|d| d.path.as_str()).collect();
    assert!(selected_paths.contains(&"dir1"));
    assert!(selected_paths.contains(&"dir2"));
    assert!(selected_paths.contains(&"dir3"));

    // 9. Verify total size calculation
    assert_eq!(app.get_selected_total_size(), 600); // 100 + 200 + 300

    // 10. Now the deletion of the selected directories is requested
    let result = app.start_delete_selected_directories();
    assert!(result.is_some());

    // 11. Verify that the deletion progress is initialized
    assert!(app.deletion_progress.is_some());
    if let Some(progress) = &app.deletion_progress {
        assert_eq!(progress.total_items, 3);
        assert_eq!(progress.completed_items, 0);
    }
}

#[test]
fn test_selection_and_deletion_logic() {
    let directories = vec![
        create_test_dir("dir1", 100, "100 B"),
        create_test_dir("dir2", 200, "200 B"),
        create_test_dir("dir3", 300, "300 B"),
    ];

    let mut app = App::new(directories, "test".to_string(), ".".to_string());

    // Initially no directories should be selected
    assert_eq!(app.get_selected_count(), 0);
    assert_eq!(app.get_selected_directories().len(), 0);

    // Select first directory
    app.directories[0].selected = true;
    assert_eq!(app.get_selected_count(), 1);
    assert_eq!(app.get_selected_directories().len(), 1);
    assert_eq!(app.get_selected_directories()[0].path, "dir1");

    // Select second directory
    app.directories[1].selected = true;
    assert_eq!(app.get_selected_count(), 2);
    assert_eq!(app.get_selected_directories().len(), 2);

    // Verify both selected directories are in the list
    let selected_paths: Vec<&str> =
        app.get_selected_directories().iter().map(|d| d.path.as_str()).collect();
    assert!(selected_paths.contains(&"dir1"));
    assert!(selected_paths.contains(&"dir2"));

    // Verify total size calculation
    assert_eq!(app.get_selected_total_size(), 300); // 100 + 200

    // Test that the selection state is properly tracked
    assert!(app.directories[0].selected);
    assert!(app.directories[1].selected);
    assert!(!app.directories[2].selected);

    // Test toggle functionality
    app.toggle_current_selection(); // This should toggle the currently selected item (index 0)
    assert!(!app.directories[0].selected); // Should now be false
    assert_eq!(app.get_selected_count(), 1); // Only dir2 should be selected

    // Test select all
    app.select_all();
    assert_eq!(app.get_selected_count(), 3);
    assert!(app.directories[0].selected);
    assert!(app.directories[1].selected);
    assert!(app.directories[2].selected);

    // Test deselect all
    app.deselect_all();
    assert_eq!(app.get_selected_count(), 0);
    assert!(!app.directories[0].selected);
    assert!(!app.directories[1].selected);
    assert!(!app.directories[2].selected);
}

#[test]
fn test_concurrency_fix_size_calculation() {
    let mut app = App::new(vec![], "test".to_string(), ".".to_string());

    // Add first batch of directories
    for i in 0..3 {
        app.directories.push(not_started(&format!("dir{i}")));
    }

    // Simulate size updates coming back out of order
    let updates = vec![
        ("dir1".to_string(), 2048, "2.0 KB".to_string()),
        ("dir0".to_string(), 1024, "1.0 KB".to_string()),
        ("dir2".to_string(), 3072, "3.0 KB".to_string()),
    ];

    // Apply updates using the path-based lookup
    for (path, size, formatted_size) in updates {
        if let Some(dir) = app.directories.iter_mut().find(|d| d.path == path) {
            dir.size = size;
            dir.formatted_size = formatted_size;
            dir.calculation_status = CalculationStatus::Completed;
        }
    }

    // Verify all updates were applied correctly
    assert_eq!(app.directories[0].size, 1024);
    assert_eq!(app.directories[0].formatted_size, "1.0 KB");
    assert_eq!(app.directories[1].size, 2048);
    assert_eq!(app.directories[1].formatted_size, "2.0 KB");
    assert_eq!(app.directories[2].size, 3072);
    assert_eq!(app.directories[2].formatted_size, "3.0 KB");

    // Now simulate adding more directories while size calculations are still in progress
    for i in 3..6 {
        app.directories.push(not_started(&format!("dir{i}")));
    }

    // Simulate more size updates (including some for the new directories)
    let more_updates = vec![
        ("dir4".to_string(), 4096, "4.0 KB".to_string()),
        ("dir3".to_string(), 5120, "5.0 KB".to_string()),
        ("dir5".to_string(), 6144, "6.0 KB".to_string()),
    ];

    // Apply updates - this should work correctly even though the vector has grown
    for (path, size, formatted_size) in more_updates {
        if let Some(dir) = app.directories.iter_mut().find(|d| d.path == path) {
            dir.size = size;
            dir.formatted_size = formatted_size;
            dir.calculation_status = CalculationStatus::Completed;
        }
    }

    // Verify all updates were applied correctly
    assert_eq!(app.directories[3].size, 5120);
    assert_eq!(app.directories[3].formatted_size, "5.0 KB");
    assert_eq!(app.directories[4].size, 4096);
    assert_eq!(app.directories[4].formatted_size, "4.0 KB");
    assert_eq!(app.directories[5].size, 6144);
    assert_eq!(app.directories[5].formatted_size, "6.0 KB");

    // Verify the total size calculation is correct
    let total_size_sum: u64 = app.directories.iter().map(|dir| dir.size).sum();
    assert_eq!(total_size_sum, 21504); // 1024 + 2048 + 3072 + 5120 + 4096 + 6144

    assert_eq!(completed_count(&app), 6);
}

#[test]
fn mod_test_ui_layout_changes() {
    // Create a test directory with last modified time
    let test_dir = DirectoryInfo {
        path: "test/directory".to_string(),
        size: 1024,
        formatted_size: "1.0 KB".to_string(),
        last_modified: Some(Timestamp { secs: 1_700_000_000, nanos: 0 }),
        formatted_last_modified: "Just now".to_string(),
        selected: false,
        deletion_status: DeletionStatus::Normal,
        calculation_status: CalculationStatus::Completed,
        calculation_time: None,
    };

    // Verify that the directory has proper last modified time
    assert!(test_dir.last_modified.is_some());
    assert_eq!(test_dir.formatted_last_modified, "Just now");

    // Test that the path is clean (no ./ prefix)
    let clean_path = clean_path(&test_dir.path);
    assert_eq!(clean_path, "test/directory");

    // Test that the directory icon works
    let icon = get_directory_icon(false, false);
    assert_eq!(icon, "📁");

    // Test that selection indicator works
    let indicator = if test_dir.selected { "✓" } else { " " };
    assert_eq!(indicator, " ");
}

#[test]
fn tests_test_ui_layout_changes() {
    // Create a test directory with last modified time
    let test_dir = DirectoryInfo {
        path: "test/directory".to_string(),
        size: 1024,
        formatted_size: "1.0 KB".to_string(),
        last_modified: Some(Timestamp { secs: 1_700_000_000, nanos: 0 }),
        formatted_last_modified: "Just now".to_string(),
        selected: false,
        deletion_status: DeletionStatus::Normal,
        calculation_status: CalculationStatus::Completed,
        calculation_time: None,
    };

    // Verify that the directory has proper last modified time
    assert!(test_dir.last_modified.is_some());
    assert_eq!(test_dir.formatted_last_modified, "Just now");

    // Test that the path is clean (no ./ prefix)
    let clean_path = clean_path(&test_dir.path);
    assert_eq!(clean_path, "test/directory");

    // Test that the directory icon works
    let icon = get_directory_icon(false, false);
    assert_eq!(icon, "📁");

    // Test that selection indicator works
    let indicator = if test_dir.selected { "✓" } else { " " };
    assert_eq!(indicator, " ");
}

#[test]
fn test_ui_shows_directories_during_discovery() {
    // Test that the UI shows directories in the list even during discovery
    let mut app = App::new(vec![], "test".to_string(), ".".to_string());

    // Set discovery status to discovering
    app.set_discovery_status(DiscoveryStatus::Discovering);

    // Initially empty
    assert!(app.directories.is_empty());
    assert!(app.is_discovering());

    // Add some directories
    app.add_discovered_directory("dir1".to_string());
    app.add_discovered_directory("dir2".to_string());
    app.add_discovered_directory("dir3".to_string());

    // Process the batch (less than batch size, so they should be processed)
    app.process_remaining_pending();

    // Should now have directories in the list
    assert_eq!(app.directories.len(), 3);
    assert!(app.is_discovering()); // Still discovering

    // Verify the directories are accessible
    assert_eq!(app.directories[0].path, "dir1");
    assert_eq!(app.directories[1].path, "dir2");
    assert_eq!(app.directories[2].path, "dir3");

    // Verify they have the correct initial state
    for dir in &app.directories {
        assert_eq!(dir.size, 0);
        assert_eq!(dir.formatted_size, "Calculating…");
        assert!(matches!(dir.calculation_status, CalculationStatus::NotStarted));
    }
}

#[test]
fn test_ui_progressive_display_with_batches() {
    // Test that directories are displayed progressively in batches
    let mut app = App::new(vec![], "test".to_string(), ".".to_string());
    app.batch_size = 3; // Set smaller batch size for testing

    app.set_discovery_status(DiscoveryStatus::Discovering);

    // Add 7 directories (more than 2 batches of 3)
    for i in 1..=7 {
        app.add_discovered_directory(format!("dir{i}"));
    }

    // Should have processed first batch of 3 and second batch of 3
    assert_eq!(app.directories.len(), 6);
    assert_eq!(app.pending_directories.len(), 1);

    // Process remaining
    app.process_remaining_pending();

    // Should have all 7 directories
    assert_eq!(app.directories.len(), 7);
    assert_eq!(app.pending_directories.len(), 0);

    // Verify all directories are in the list
    for i in 1..=7 {
        assert_eq!(app.directories[i - 1].path, format!("dir{i}"));
    }
}

#[test]
fn test_performance_optimizations() {
    // Test that performance optimizations work correctly
    let mut app = App::new(vec![], "test".to_string(), ".".to_string());

    // Set discovery status to discovering
    app.set_discovery_status(DiscoveryStatus::Discovering);

    // Add many directories quickly to simulate discovery
    for i in 1..=50 {
        app.add_discovered_directory(format!("dir{i}"));
    }

    // Should have processed directories in batches
    assert!(!app.directories.is_empty());
    assert!(app.directories.len() <= 50);

    // Verify that directories are accessible and have correct initial state
    for dir in &app.directories {
        assert_eq!(dir.size, 0);
        assert_eq!(dir.formatted_size, "Calculating…");
        assert!(matches!(dir.calculation_status, CalculationStatus::NotStarted));
    }

    // Verify discovery is still in progress
    assert!(app.is_discovering());
}

#[test]
fn test_loading_frame_performance_optimization() {
    let start_time = std::time::Instant::now();

    // Call the function many times to simulate frame rendering
    for _ in 0..1000 {
        let _frame = get_loading_frame();
    }

    let elapsed = start_time.elapsed();

    // 1000 calls should take less than 1ms
    assert!(
        elapsed.as_micros() < 1000,
        "Loading frame function should be fast: {}μs",
        elapsed.as_micros()
    );

    // Verify it returns a consistent static value
    let frame1 = get_loading_frame();
    let frame2 = get_loading_frame();
    assert_eq!(frame1, frame2, "Should return consistent static value");
    assert_eq!(frame1, "⠋", "Should return the expected static loading indicator");
}

#[test]
fn test_loading_frame_benchmark_comparison() {
    let start_optimized = std::time::Instant::now();
    for _ in 0..10000 {
        let _frame = std::hint::black_box(get_loading_frame());
    }
    let optimized_time = start_optimized.elapsed();

    let start_expensive = std::time::Instant::now();
    for _ in 0..10000 {
        let _frame = std::hint::black_box({
            let frames = ["⠋", "⠙", "⠹", "⠸", "⠼", "⠴", "⠦", "⠧", "⠇", "⠏"];
            let index =
                (std::time::Instant::now().elapsed().as_millis() / 100) as usize % frames.len();
            frames[index]
        });
    }
    let expensive_time = start_expensive.elapsed();

    // The static sign should be significantly faster
    assert!(
        optimized_time < expensive_time,
        "Optimized version should be faster: {}μs vs {}μs",
        optimized_time.as_micros(),
        expensive_time.as_micros()
    );

    println!(
        "Performance improvement: {}μs vs {}μs ({}x faster)",
        optimized_time.as_micros(),
        expensive_time.as_micros(),
        expensive_time.as_micros() / optimized_time.as_micros().max(1)
    );
}

#[test]
fn test_all_animations_performance_optimization() {
    let start_time = std::time::Instant::now();

    // Simulate rendering 50 visible directories every frame for 100 frames
    for _frame in 0..100 {
        for dir_index in 0..50 {
            let _icon =
                std::hint::black_box(get_directory_icon(dir_index % 3 == 0, dir_index % 5 == 0));
            let _color = std::hint::black_box(get_selection_indicator_color(dir_index % 3 == 0));
            let _status_icon =
                std::hint::black_box(get_calculation_status_icon(&CalculationStatus::Calculating));
            let _loading_frame = std::hint::black_box(get_loading_frame());
        }
    }

    let optimized_time = start_time.elapsed();

    // Simulate the time-based signs for comparison
    let start_expensive = std::time::Instant::now();

    for _frame in 0..100 {
        for dir_index in 0..50 {
            let _icon = std::hint::black_box({
                let time = std::time::Instant::now().elapsed().as_millis();
                if dir_index % 3 == 0 {
                    let open_frames = ["📂", "📁", "📂", "📁", "📂", "📁", "📂", "📁", "📂", "📁"];
                    let index = (time / 120) as usize % open_frames.len();
                    open_frames[index]
                } else if dir_index % 5 == 0 {
                    let closed_frames =
                        ["📁", "📂", "📁", "📂", "📁", "📂", "📁", "📂", "📁", "📂"];
                    let index = (time / 250) as usize % closed_frames.len();
                    closed_frames[index]
                } else {
                    "📁"
                }
            });

            let _color = std::hint::black_box({
                let time = std::time::Instant::now().elapsed().as_millis();
                if dir_index % 3 == 0 {
                    let index = (time / 300) as usize % 2;
                    if index == 0 {
                        Tone::SelectionIndicator
                    } else {
                        Tone::Success
                    }
                } else {
                    Tone::TextSecondary
                }
            });

            let _status_icon = std::hint::black_box({
                let frames = ["⠋", "⠙", "⠹", "⠸", "⠼", "⠴", "⠦", "⠧", "⠇", "⠏"];
                let time = std::time::Instant::now().elapsed().as_millis();
                let index = (time / 100) as usize % frames.len();
                frames[index]
            });

            let _loading_frame = std::hint::black_box({
                let frames = ["⠋", "⠙", "⠹", "⠸", "⠼", "⠴", "⠦", "⠧", "⠇", "⠏"];
                let time = std::time::Instant::now().elapsed().as_millis();
                let index = (time / 100) as usize % frames.len();
                frames[index]
            });
        }
    }

    let expensive_time = start_expensive.elapsed();

    assert!(
        optimized_time < expensive_time,
        "Optimized version should be faster: {}μs vs {}μs",
        optimized_time.as_micros(),
        expensive_time.as_micros()
    );

    // Verify the functions still work correctly
    assert_eq!(get_directory_icon(true, false), "📂");
    assert_eq!(get_directory_icon(false, true), "📁");
    assert_eq!(get_directory_icon(false, false), "📁");
    assert_eq!(get_loading_frame(), "⠋");
    assert_eq!(get_calculation_status_icon(&CalculationStatus::Calculating), "⠋");
}

fn texts(line: &[Span]) -> Vec<&str> {
    line.iter().map(|span| span.text.as_str()).collect()
}

fn joined(line: &[Span]) -> String {
    line.iter().map(|span| span.text.as_str()).collect()
}

#[test]
fn status_icons_by_state() {
    assert_eq!(get_calculation_status_icon(&CalculationStatus::NotStarted), "⏳");
    assert_eq!(get_calculation_status_icon(&CalculationStatus::Completed), "");
    assert_eq!(get_calculation_status_icon(&CalculationStatus::Error("x".to_string())), "❌");
    assert_eq!(get_selection_indicator_color(true), Tone::SelectionIndicator);
    assert_eq!(get_selection_indicator_color(false), Tone::TextSecondary);
    assert_eq!(Tone::SelectionIndicator.rgb(), Some((184, 187, 38)));
    assert_eq!(Tone::Primary.rgb(), Some((131, 165, 152)));
    assert_eq!(Tone::Error.rgb(), Some((251, 73, 52)));
    assert_eq!(Tone::White.rgb(), None);
}

#[test]
fn durations_read_well() {
    assert_eq!(format_duration(0), "0ms");
    assert_eq!(format_duration(999), "999ms");
    assert_eq!(format_duration(1000), "1.0s");
    assert_eq!(format_duration(2499), "2.4s");
    assert_eq!(format_duration(61_950), "61.9s");
    assert_eq!(format_duration(u64::MAX), "18446744073709551.6s");
}

#[test]
fn a_row_shows_folder_tick_path_time_and_state() {
    let mut entry = create_test_dir("./a/target", 10, "10 B");
    let row = build_row(&entry, false);
    assert_eq!(texts(&row), vec!["📁 ", "  ", "a/target", "", " ", "  "]);
    assert_eq!(row[0].style, Style::fg(Tone::TextSecondary));
    assert_eq!(row[1].style, Style::fg(Tone::Muted));
    assert_eq!(row[2].style, Style::fg(Tone::TextPrimary));
    assert_eq!(row[3].style, Style::fg(Tone::Muted));
    assert_eq!(row[4].style, Style::plain());
    assert_eq!(row[5].style, Style::fg(Tone::Success));

    entry.selected = true;
    entry.calculation_time = Some(1234);
    entry.calculation_status = CalculationStatus::Calculating;
    let row = build_row(&entry, false);
    assert_eq!(texts(&row), vec!["📂 ", "✓ ", "a/target", " (1.2s)", " ", "⠋"]);
    assert_eq!(row[0].style, Style::bold(Tone::SelectionIndicator));
    assert_eq!(row[1].style, Style::bold(Tone::SelectionIndicator));
    assert_eq!(
        row[2].style,
        Style { fg: Some(Tone::SelectionIndicator), bg: None, bold: true, underlined: true }
    );
    assert_eq!(row[5].style, Style::bold(Tone::Warning));

    let row = build_row(&entry, true);
    assert_eq!(
        row[2].style,
        Style {
            fg: Some(Tone::SelectionForeground),
            bg: Some(Tone::SelectionBackground),
            bold: true,
            underlined: false,
        }
    );
    entry.deletion_status = DeletionStatus::Error("denied".to_string());
    let row = build_row(&entry, true);
    assert_eq!(row[5].text, "⚠️");
    assert_eq!(row[5].style, Style::bold(Tone::Error));
    entry.deletion_status = DeletionStatus::Normal;
    entry.calculation_status = CalculationStatus::NotStarted;
    assert_eq!(build_row(&entry, false)[5].text, "⏳");
    entry.calculation_status = CalculationStatus::Error("x".to_string());
    assert_eq!(build_row(&entry, false)[5].text, "❌");
    assert_eq!(build_row(&entry, false)[5].style, Style::fg(Tone::Error));
}

#[test]
fn only_the_page_shown_is_built() {
    let directories: Vec<DirectoryInfo> =
        (0..7).map(|i| create_test_dir(&format!("./d{}", i), i, "x")).collect();
    let mut app = App::new(directories, "t".to_string(), ".".to_string());
    app.go_to_page(1, 3);
    app.next(3);
    let rows = build_rows(&app, 3);
    assert_eq!(rows.len(), 3);
    let paths: Vec<&str> = rows.iter().map(|row| row[2].text.as_str()).collect();
    assert_eq!(paths, vec!["d3", "d4", "d5"]);
    let inverted: Vec<bool> = rows.iter().map(|row| row[2].style.bg.is_some()).collect();
    assert_eq!(inverted, vec![false, true, false]);
    assert_eq!(list_title(&app, 3), "📂 Directories (Page 2/3)");
    app.go_to_page(2, 3);
    assert_eq!(build_rows(&app, 3).len(), 1);
    app.current_page = 3;
    assert!(build_rows(&app, 3).is_empty());
    assert!(build_rows(&app, 0).is_empty());
    assert_eq!(list_title(&app, 0), "📂 Directories (Page 4/0)");
}

#[test]
fn the_header_tells_of_the_search() {
    let mut app = App::new(vec![], "node_modules".to_string(), ".".to_string());
    let header = build_header(&app, 20, "/home/me/work", "0ms");
    assert_eq!(header.len(), 6);
    assert_eq!(joined(&header[0]), "🔍 Directory Search Results");
    assert_eq!(joined(&header[1]), "Pattern: 'node_modules' in '/home/me/work'");
    assert_eq!(joined(&header[2]), "Ready to scan...");
    assert_eq!(joined(&header[3]), "⏱️  Scan Time: 0ms");
    assert_eq!(joined(&header[4]), "📄 Page 1 of 0 items per page");
    assert!(header[5].is_empty());
    assert_eq!(header[0][0].style, Style::bold(Tone::Primary));
    assert_eq!(header[1][1].style, Style::bold(Tone::Accent));
    assert_eq!(header[1][3].style, Style::bold(Tone::Secondary));

    app.set_discovery_status(DiscoveryStatus::Discovering);
    assert_eq!(joined(&build_header(&app, 20, "x", "")[2]), "⠋ Scanning directories...");
    app.batch_size = 1;
    app.add_discovered_directory("a".to_string());
    app.add_discovered_directory("b".to_string());
    app.directories[0].size = 2048;
    app.directories[0].calculation_status = CalculationStatus::Completed;
    let header = build_header(&app, 20, "x", "1.5s");
    assert_eq!(joined(&header[2]), "⠋ Found 2 directories, showing 2...");
    assert_eq!(header[2][0].style, Style::bold(Tone::Warning));
    assert_eq!(joined(&header[4]), "📄 Page 1 of 1 items per page");
    assert_eq!(joined(&header[5]), "💾 Total Size: 2.0 KB (1/2 calculated)");
    app.set_discovery_status(DiscoveryStatus::Complete);
    assert_eq!(joined(&build_header(&app, 20, "x", "")[2]), "✅ Scan complete: 2 directories found");
    app.set_discovery_status(DiscoveryStatus::Error("no such root".to_string()));
    let header = build_header(&app, 20, "x", "");
    assert_eq!(joined(&header[2]), "❌ no such root");
    assert_eq!(header[2][0].style, Style::bold(Tone::Error));
}

#[test]
fn the_empty_state_tells_why_the_list_is_empty() {
    let mut app = App::new(vec![], "t".to_string(), ".".to_string());
    let lines = build_empty_state(&app);
    assert_eq!(lines.len(), 2);
    assert_eq!(joined(&lines[0]), "❌ No directories found");
    assert_eq!(joined(&lines[1]), "   Try a different pattern or path");
    app.set_discovery_status(DiscoveryStatus::Discovering);
    let lines = build_empty_state(&app);
    assert_eq!(lines.len(), 3);
    assert_eq!(joined(&lines[0]), "🔍 Scanning directories...");
    assert_eq!(joined(&lines[1]), "   ⠋");
    assert_eq!(joined(&lines[2]), "   Please wait while we search for directories...");
}

#[test]
fn the_details_tell_of_the_entry_under_the_cursor() {
    let mut entry = create_test_dir("./x/target", 1536, "1.5 KB");
    entry.formatted_last_modified = "3 days ago".to_string();
    let mut app = App::new(
        vec![create_test_dir("a", 512, "512 B"), entry],
        "t".to_string(),
        ".".to_string(),
    );
    app.selected = 1;
    let lines: Vec<String> = build_details(&app).iter().map(|line| joined(line)).collect();
    assert_eq!(
        lines,
        vec![
            "📁 Directory Details",
            "",
            "Path: ",
            "  x/target",
            "",
            "Size: 1.5 KB",
            "  (1536 bytes)",
            "",
            "Position: 2 of 2",
            "",
            "Last Modified: 3 days ago",
            "",
            "",
            "",
            "📊 Total Summary",
            "Total Size: 2.0 KB",
            "Calculated: 2/2",
            "",
            "🗑️ Freed Space",
            "Total Freed: 0 B",
            "",
            "",
        ]
    );
    app.directories[1].calculation_time = Some(40);
    app.delete_current_directory().unwrap();
    app.apply_deletion_result(dir_kill::deletion::DeletionResult::of(0, "a".to_string(), None));
    let lines: Vec<String> = build_details(&app).iter().map(|line| joined(line)).collect();
    assert_eq!(lines[12], "Calculation Time: 40ms");
    assert_eq!(lines[19], "Total Freed: 512 B");
    assert_eq!(lines[20], "This Session: 512 B");
    assert_eq!(lines[21], "Recent: 1 items");
    app.selected = 2;
    assert!(build_details(&app).is_empty());
}

#[test]
fn the_footer_tells_keys_counts_and_timings() {
    let mut app = App::new(
        vec![create_test_dir("./a", 100, "100 B"), create_test_dir("b", 200, "200 B")],
        "t".to_string(),
        ".".to_string(),
    );
    let footer = build_footer(&app, 20, "2.0s");
    assert_eq!(footer.len(), 5);
    assert_eq!(
        joined(&footer[0]),
        "⌨️  Nav: ↑/↓/j/k move, ←/→ pages, Home/End, Space select, a/d all/none, q quit"
    );
    assert_eq!(
        joined(&footer[1]),
        "🗑️  Delete: F current, Ctrl+D/X current, C selected (use Space to select)"
    );
    assert_eq!(joined(&footer[2]), "📊 Found: 2 dirs");
    assert_eq!(texts(&footer[2]), vec!["📊 Found: ", "2 dirs", "", ""]);
    assert_eq!(joined(&footer[3]), "📄 Page: 1 of 1 | 🎯 1 of 2: a");
    assert_eq!(joined(&footer[4]), "⏱️  Scan: 2.0s | Size: 300 B | Calc: Calculating... (0/2)");
    assert_eq!(footer[4][5].style, Style::plain());

    app.directories[1].selected = true;
    app.directories[0].calculation_time = Some(100);
    app.directories[1].calculation_time = Some(2500);
    app.set_discovery_status(DiscoveryStatus::Discovering);
    let footer = build_footer(&app, 20, "2.0s");
    assert_eq!(joined(&footer[2]), "📊 Found: 2 dirs | Selected: 1 (200 B) (discovering...)");
    assert_eq!(footer[2][2].style, Style::bold(Tone::Accent));
    assert_eq!(
        joined(&footer[4]),
        "⏱️  Scan: 2.0s | Size: 300 B | Calc: Avg: 1.3s, Max: 2.5s (2/2)"
    );
    assert_eq!(timing_summary(&app), "Avg: 1.3s, Max: 2.5s (2/2)");

    let empty = App::new(vec![], "t".to_string(), ".".to_string());
    let footer = build_footer(&empty, 20, "");
    assert_eq!(joined(&footer[3]), "📄 Page: 1 of 0 | 🎯 None");
    // A cursor beyond the list shows no path.
    app.selected = 5;
    assert_eq!(joined(&build_footer(&app, 20, "")[3]), "📄 Page: 1 of 1 | 🎯 6 of 2: ");
}

#[test]
fn a_frame_has_a_list_or_says_why_not() {
    let mut app = App::new(vec![], "t".to_string(), ".".to_string());
    let frame = build_frame(&app, 10, "/r", "0ms");
    assert_eq!(frame.header.len(), 6);
    assert_eq!(frame.footer.len(), 5);
    match frame.body {
        Body::Empty { lines } => assert_eq!(lines.len(), 2),
        other => panic!("unexpected {:?}", other),
    }
    app.directories.push(create_test_dir("a", 1, "1 B"));
    match build_frame(&app, 10, "/r", "0ms").body {
        Body::Listing { title, rows, details } => {
            assert_eq!(title, "📂 Directories (Page 1/1)");
            assert_eq!(rows.len(), 1);
            assert_eq!(details.len(), 22);
        }
        other => panic!("unexpected {:?}", other),
    }
}

#[test]
fn a_page_has_one_row_at_least() {
    assert_eq!(page_size(0), 1);
    assert_eq!(page_size(2), 1);
    assert_eq!(page_size(3), 1);
    assert_eq!(page_size(4), 2);
    assert_eq!(page_size(42), 40);
    assert_eq!(page_size(u16::MAX), 65533);
}
