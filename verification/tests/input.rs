use crossterm::event::{KeyCode, KeyEvent, KeyEventKind, KeyEventState, KeyModifiers};
use dir_kill::app::App;
use dir_kill::deletion::DeletionMessage;
use dir_kill::entry::DirectoryInfo;
use dir_kill::input::{apply_command, route_key, Command, Effect, Key};

// Helper function to create key events
fn create_key_event(code: KeyCode, modifiers: KeyModifiers) -> KeyEvent {
    KeyEvent { code, modifiers, kind: KeyEventKind::Press, state: KeyEventState::empty() }
}

fn routed(event: &KeyEvent) -> Command {
    let key = match event.code {
        KeyCode::Char(c) => Key::Char(c),
        KeyCode::Esc => Key::Esc,
        KeyCode::Up => Key::Up,
        KeyCode::Down => Key::Down,
        KeyCode::Left => Key::Left,
        KeyCode::Right => Key::Right,
        KeyCode::Home => Key::Home,
        KeyCode::End => Key::End,
        _ => Key::Other,
    };
    route_key(key, event.modifiers.contains(KeyModifiers::CONTROL))
}

#[test]
fn test_key_handling_delete_shortcuts() {
    // Test 'C' key (should delete selected)
    let c_key = create_key_event(KeyCode::Char('c'), KeyModifiers::empty());

    // Test Ctrl+D (should delete current)
    let ctrl_d = create_key_event(KeyCode::Char('d'), KeyModifiers::CONTROL);

    // Test plain 'd' (should deselect all)
    let plain_d = create_key_event(KeyCode::Char('d'), KeyModifiers::empty());

    // Test Ctrl+X (should delete current)
    let ctrl_x = create_key_event(KeyCode::Char('x'), KeyModifiers::CONTROL);

    // Test plain 'f' (should delete current)
    let plain_f = create_key_event(KeyCode::Char('f'), KeyModifiers::empty());

    // Verify the key event properties
    assert!(!c_key.modifiers.contains(KeyModifiers::CONTROL));
    assert!(!c_key.modifiers.contains(KeyModifiers::SHIFT));
    assert_eq!(c_key.code, KeyCode::Char('c'));

    assert!(ctrl_d.modifiers.contains(KeyModifiers::CONTROL));
    assert!(!ctrl_d.modifiers.contains(KeyModifiers::SHIFT));
    assert_eq!(ctrl_d.code, KeyCode::Char('d'));

    assert!(!plain_d.modifiers.contains(KeyModifiers::CONTROL));
    assert!(!plain_d.modifiers.contains(KeyModifiers::SHIFT));
    assert_eq!(plain_d.code, KeyCode::Char('d'));

    assert!(ctrl_x.modifiers.contains(KeyModifiers::CONTROL));
    assert!(!ctrl_x.modifiers.contains(KeyModifiers::SHIFT));
    assert_eq!(ctrl_x.code, KeyCode::Char('x'));

    assert!(!plain_f.modifiers.contains(KeyModifiers::CONTROL));
    assert!(!plain_f.modifiers.contains(KeyModifiers::SHIFT));
    assert_eq!(plain_f.code, KeyCode::Char('f'));

    // Test the logic that would be used in the key handling
    let test_key_handling = |key_event: &KeyEvent| -> &str {
        match key_event.code {
            KeyCode::Char('f') => "delete_current",
            KeyCode::Char('c') => "delete_selected",
            KeyCode::Char('x') | KeyCode::Char('d')
                if key_event.modifiers.contains(KeyModifiers::CONTROL) =>
            {
                "delete_current"
            }
            KeyCode::Char('d') if !key_event.modifiers.contains(KeyModifiers::CONTROL) => {
                "deselect_all"
            }
            _ => "unknown",
        }
    };

    // Verify the key handling logic works correctly
    assert_eq!(test_key_handling(&c_key), "delete_selected");
    assert_eq!(test_key_handling(&ctrl_d), "delete_current");
    assert_eq!(test_key_handling(&ctrl_x), "delete_current");
    assert_eq!(test_key_handling(&plain_d), "deselect_all");
    assert_eq!(test_key_handling(&plain_f), "delete_current");

    assert_eq!(routed(&c_key), Command::DeleteSelected);
    assert_eq!(routed(&ctrl_d), Command::DeleteCurrent);
    assert_eq!(routed(&ctrl_x), Command::DeleteCurrent);
    assert_eq!(routed(&plain_d), Command::DeselectAll);
    assert_eq!(routed(&plain_f), Command::DeleteCurrent);
}

#[test]
fn every_key_has_its_command() {
    let plain = [
        (Key::Char('q'), Command::Quit),
        (Key::Esc, Command::Quit),
        (Key::Up, Command::Previous),
        (Key::Char('k'), Command::Previous),
        (Key::Down, Command::Next),
        (Key::Char('j'), Command::Next),
        (Key::Left, Command::PreviousPage),
        (Key::Right, Command::NextPage),
        (Key::Home, Command::First),
        (Key::End, Command::Last),
        (Key::Char(' '), Command::ToggleCurrent),
        (Key::Char('a'), Command::SelectAll),
        (Key::Char('d'), Command::DeselectAll),
        (Key::Char('s'), Command::ToggleSelectionMode),
        (Key::Char('f'), Command::DeleteCurrent),
        (Key::Char('c'), Command::DeleteSelected),
        (Key::Char('x'), Command::Ignore),
        (Key::Char('z'), Command::Ignore),
        (Key::Char('Q'), Command::Ignore),
        (Key::Other, Command::Ignore),
    ];
    for (key, command) in plain {
        assert_eq!(route_key(key, false), command, "for {:?}", key);
        if key != Key::Char('d') && key != Key::Char('x') {
            assert_eq!(route_key(key, true), command, "for Control and {:?}", key);
        }
    }
    assert_eq!(route_key(Key::Char('d'), true), Command::DeleteCurrent);
    assert_eq!(route_key(Key::Char('x'), true), Command::DeleteCurrent);
}

fn session(count: usize) -> App {
    let directories =
        (0..count).map(|i| DirectoryInfo::fresh(format!("dir{}", i))).collect();
    App::new(directories, "t".to_string(), ".".to_string())
}

#[test]
fn commands_move_select_and_quit() {
    let mut app = session(25);
    assert!(matches!(apply_command(&mut app, Command::Quit, 20), Effect::Quit));
    assert!(matches!(apply_command(&mut app, Command::Ignore, 20), Effect::Nothing));
    assert!(matches!(apply_command(&mut app, Command::Next, 20), Effect::Redraw));
    assert_eq!((app.selected, app.current_page), (1, 0));
    apply_command(&mut app, Command::Last, 20);
    assert_eq!((app.selected, app.current_page), (24, 1));
    apply_command(&mut app, Command::Next, 20);
    assert_eq!((app.selected, app.current_page), (0, 0));
    apply_command(&mut app, Command::Previous, 20);
    assert_eq!((app.selected, app.current_page), (24, 1));
    apply_command(&mut app, Command::First, 20);
    assert_eq!((app.selected, app.current_page), (0, 0));
    apply_command(&mut app, Command::NextPage, 20);
    assert_eq!((app.selected, app.current_page), (20, 1));
    apply_command(&mut app, Command::NextPage, 20);
    assert_eq!((app.selected, app.current_page), (20, 1));
    apply_command(&mut app, Command::PreviousPage, 20);
    assert_eq!((app.selected, app.current_page), (0, 0));

    apply_command(&mut app, Command::ToggleCurrent, 20);
    assert!(app.directories[0].selected);
    apply_command(&mut app, Command::SelectAll, 20);
    assert_eq!(app.get_selected_count(), 25);
    apply_command(&mut app, Command::DeselectAll, 20);
    assert_eq!(app.get_selected_count(), 0);
    assert!(!app.selection_mode);
    apply_command(&mut app, Command::ToggleSelectionMode, 20);
    assert!(app.selection_mode);
}

#[test]
fn the_page_holds_the_cursor_after_every_move() {
    let mut app = session(23);
    let moves = [
        Command::Next,
        Command::Last,
        Command::Previous,
        Command::PreviousPage,
        Command::NextPage,
        Command::NextPage,
        Command::First,
        Command::Previous,
        Command::NextPage,
        Command::Last,
        Command::PreviousPage,
        Command::Next,
    ];
    for round in 0..5 {
        for command in moves {
            apply_command(&mut app, command, 4 + round);
            assert_eq!(app.current_page, app.selected / (4 + round), "after {:?}", command);
            assert!(app.selected < 23);
        }
        // The terminal changes its height: the next move settles the page.
        apply_command(&mut app, Command::Next, 5 + round);
    }
}

#[test]
fn deletions_need_something_to_delete() {
    let mut empty = session(0);
    for command in [
        Command::DeleteCurrent,
        Command::DeleteSelected,
    ] {
        assert!(matches!(apply_command(&mut empty, command, 20), Effect::Nothing));
        assert!(!empty.is_deleting());
    }
    for command in [Command::Next, Command::Previous, Command::First, Command::Last] {
        apply_command(&mut empty, command, 20);
        assert_eq!((empty.selected, empty.current_page), (0, 0));
    }

    let mut app = session(3);
    assert!(matches!(apply_command(&mut app, Command::DeleteSelected, 20), Effect::Nothing));
    assert!(!app.is_deleting());
    app.selected = 2;
    match apply_command(&mut app, Command::DeleteCurrent, 20) {
        Effect::Start(DeletionMessage::StartSingle { index, path }) => {
            assert_eq!(index, 2);
            assert_eq!(path, "dir2");
        }
        other => panic!("unexpected {:?}", other),
    }
    assert_eq!(app.get_deletion_progress().unwrap().total_items, 1);
    app.directories[0].selected = true;
    app.directories[2].selected = true;
    match apply_command(&mut app, Command::DeleteSelected, 20) {
        Effect::Start(DeletionMessage::StartMultiple { indices, paths }) => {
            assert_eq!(indices, vec![0, 2]);
            assert_eq!(paths, vec!["dir0", "dir2"]);
        }
        other => panic!("unexpected {:?}", other),
    }
    assert_eq!(app.get_deletion_progress().unwrap().total_items, 2);
    // A cursor beyond the list deletes nothing.
    app.selected = 3;
    app.deletion_progress = None;
    assert!(matches!(apply_command(&mut app, Command::DeleteCurrent, 20), Effect::Redraw));
    assert!(!app.is_deleting());
}
