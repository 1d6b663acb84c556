use minlabel::browser::{sorted_files, MinlabelApp};

fn app_with(n: usize) -> MinlabelApp {
    let mut app = MinlabelApp::new();
    let files = (0..n).map(|i| format!("/d/f{}.wav", i)).collect();
    app.open_folder("/d".to_string(), files);
    app
}

#[test]
fn new_app_is_empty() {
    let app = MinlabelApp::new();
    assert!(app.folder.is_none());
    assert!(app.files.is_empty());
    assert_eq!(app.current_index, 0);
    assert!(!app.playing);
    assert_eq!(app.status, "");
    assert_eq!(app.position(), (0, 0));
    assert!(app.current_file().is_none());
}

#[test]
fn open_folder_selects_first_file() {
    let mut app = app_with(3);
    app.current_index = 2;
    app.playing = true;
    app.open_folder("/e".to_string(), vec!["/e/x.wav".to_string()]);
    assert_eq!(app.folder.as_deref(), Some("/e"));
    assert_eq!(app.current_index, 0);
    assert!(!app.playing);
    assert_eq!(app.status, "Opened folder: /e");
    assert_eq!(app.current_file().map(|s| s.as_str()), Some("/e/x.wav"));
}

#[test]
fn next_and_previous_wrap_around() {
    let mut app = app_with(3);
    app.next_file();
    assert_eq!(app.current_index, 1);
    app.next_file();
    app.next_file();
    assert_eq!(app.current_index, 0);
    app.previous_file();
    assert_eq!(app.current_index, 2);
    assert_eq!(app.position(), (3, 3));
}

#[test]
fn navigation_stops_playback() {
    let mut app = app_with(2);
    app.toggle_play();
    assert!(app.playing);
    app.next_file();
    assert!(!app.playing);
    app.toggle_play();
    app.previous_file();
    assert!(!app.playing);
}

#[test]
fn navigation_without_files_changes_nothing() {
    let mut app = MinlabelApp::new();
    app.playing = true;
    app.next_file();
    app.previous_file();
    assert_eq!(app.current_index, 0);
    assert!(app.playing);
}

#[test]
fn previous_undoes_next_everywhere() {
    for n in 1..5 {
        for i in 0..n {
            let mut app = app_with(n);
            app.select_file(i);
            app.next_file();
            app.previous_file();
            assert_eq!(app.current_index, i);
            app.previous_file();
            app.next_file();
            assert_eq!(app.current_index, i);
        }
    }
}

#[test]
fn next_once_per_file_returns_to_start() {
    let mut app = app_with(4);
    app.select_file(1);
    for _ in 0..4 {
        app.next_file();
    }
    assert_eq!(app.current_index, 1);
}

#[test]
fn toggle_play_without_files_reports() {
    let mut app = MinlabelApp::new();
    app.toggle_play();
    assert!(!app.playing);
    assert_eq!(app.status, "No files loaded. Open a folder first.");
    let mut app = app_with(1);
    app.toggle_play();
    assert!(app.playing);
    assert_eq!(app.playback_label(), "Playing");
    app.toggle_play();
    assert!(!app.playing);
    assert_eq!(app.playback_label(), "Stopped");
}

#[test]
fn status_messages() {
    let mut app = MinlabelApp::new();
    app.export_to("/tmp/out.txt");
    assert_eq!(app.status, "Export to: /tmp/out.txt");
    app.connect();
    assert_eq!(app.status, "Connect: not implemented yet");
}

#[test]
fn select_file_moves_selection() {
    let mut app = app_with(5);
    app.playing = true;
    app.select_file(3);
    assert_eq!(app.current_index, 3);
    assert!(!app.playing);
    assert_eq!(app.position(), (4, 5));
    assert_eq!(app.current_file().map(|s| s.as_str()), Some("/d/f3.wav"));
}

#[test]
fn files_are_sorted() {
    let files = vec![
        "/d/b.wav".to_string(),
        "/d/a.wav".to_string(),
        "/d/B.wav".to_string(),
        "/d/a.lab".to_string(),
        "/d/é.wav".to_string(),
        "/d/a".to_string(),
    ];
    let mut expected = files.clone();
    expected.sort();
    assert_eq!(sorted_files(files), expected);
    assert!(sorted_files(vec![]).is_empty());
}

#[test]
fn empty_list_ignores_any_index() {
    let mut app = MinlabelApp::new();
    app.current_index = 7;
    app.next_file();
    assert_eq!(app.current_index, 7);
    app.previous_file();
    assert_eq!(app.current_index, 7);
    assert_eq!(app.position(), (0, 0));
}
