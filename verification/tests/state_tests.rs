use npkill::App;
use npkill::DirStatus;
use npkill::IoEventType;

fn populated(paths: &[&str]) -> App {
    let mut app = App::new();
    app.update_data(paths.iter().map(|p| (*p).to_owned()).collect());
    app
}

fn status_of(app: &App, index: usize) -> DirStatus {
    app.data.as_ref().unwrap()[index].status
}

#[test]
fn population_starts_every_entry_loading() {
    let app = populated(&["/a/node_modules", "/b/node_modules"]);
    let entries = app.data.as_ref().unwrap();
    assert_eq!(entries.len(), 2);
    assert_eq!(entries[0].path, "/a/node_modules");
    assert_eq!(entries[1].path, "/b/node_modules");
    for e in entries.iter() {
        assert_eq!(e.status, DirStatus::Loading);
        assert_eq!(e.size, None);
    }
    assert_eq!(app.total_size, None);
    assert_eq!(app.time_init, None);
    assert_eq!(app.free_space, 0);
}

#[test]
fn population_happens_once() {
    let mut app = populated(&["/a/node_modules"]);
    app.update_data(vec!["/other".to_owned()]);
    let entries = app.data.as_ref().unwrap();
    assert_eq!(entries.len(), 1);
    assert_eq!(entries[0].path, "/a/node_modules");
}

#[test]
fn loaded_moves_entry_to_ready_and_sums() {
    let mut app = populated(&["/a", "/b", "/c"]);
    app.apply_io_event(IoEventType::Loaded(0, 10), 5);
    assert_eq!(status_of(&app, 0), DirStatus::Ready);
    assert_eq!(app.total_size, Some(10));
    assert_eq!(app.time_init, None);
    app.apply_io_event(IoEventType::Loaded(2, 30), 6);
    assert_eq!(app.total_size, Some(40));
    assert_eq!(app.time_init, None);
    app.apply_io_event(IoEventType::Loaded(1, 20), 7);
    assert_eq!(app.total_size, Some(60));
    assert_eq!(app.time_init, Some(7));
}

#[test]
fn ready_time_is_set_exactly_once() {
    let mut app = populated(&["/a"]);
    app.apply_io_event(IoEventType::Loaded(0, 10), 4);
    assert_eq!(app.time_init, Some(4));
    // A stale Loaded for an entry that is no longer loading is discarded
    // and cannot move the recorded time.
    app.apply_io_event(IoEventType::Loaded(0, 99), 8);
    assert_eq!(app.time_init, Some(4));
    assert_eq!(app.total_size, Some(10));
}

#[test]
fn out_of_range_events_are_discarded() {
    let mut app = populated(&["/a"]);
    app.apply_io_event(IoEventType::Loaded(5, 10), 1);
    app.apply_io_event(IoEventType::Deleted(7), 1);
    app.apply_io_event(IoEventType::DeleteError(1), 1);
    assert_eq!(status_of(&app, 0), DirStatus::Loading);
    assert_eq!(app.total_size, None);
    assert_eq!(app.free_space, 0);
}

#[test]
fn deleted_before_loaded_ends_terminal_without_panic() {
    let mut app = populated(&["/a"]);
    app.apply_io_event(IoEventType::Deleted(0), 1);
    assert_eq!(status_of(&app, 0), DirStatus::Deleted);
    assert_eq!(app.free_space, 0);
    // The late Loaded is stale: the entry is terminal and stays terminal.
    app.apply_io_event(IoEventType::Loaded(0, 42), 2);
    assert_eq!(status_of(&app, 0), DirStatus::Deleted);
    assert_eq!(app.total_size, None);
}

#[test]
fn events_on_terminal_entries_are_discarded() {
    let mut app = populated(&["/a"]);
    app.apply_io_event(IoEventType::Loaded(0, 10), 1);
    app.apply_io_event(IoEventType::Deleted(0), 1);
    assert_eq!(app.free_space, 10);
    app.apply_io_event(IoEventType::Deleted(0), 1);
    assert_eq!(app.free_space, 10);
    app.apply_io_event(IoEventType::DeleteError(0), 1);
    assert_eq!(status_of(&app, 0), DirStatus::Deleted);
}

#[test]
fn reclaimed_space_sums_deleted_sizes_only() {
    let mut app = populated(&["/a", "/b", "/c"]);
    app.apply_io_event(IoEventType::Loaded(0, 100), 1);
    app.apply_io_event(IoEventType::Loaded(1, 250), 1);
    app.apply_io_event(IoEventType::Loaded(2, 77), 1);
    app.apply_io_event(IoEventType::Deleted(0), 2);
    app.apply_io_event(IoEventType::Deleted(1), 2);
    // A failed deletion leaves an Error entry, which reclaims nothing.
    app.apply_io_event(IoEventType::DeleteError(2), 2);
    assert_eq!(app.free_space, 350);
    assert_eq!(status_of(&app, 2), DirStatus::Error);
}

#[test]
fn cursor_wraps_moving_down() {
    let mut app = populated(&["/a", "/b", "/c"]);
    app.next();
    assert_eq!(app.selected, Some(0));
    app.next();
    app.next();
    assert_eq!(app.selected, Some(2));
    app.next();
    assert_eq!(app.selected, Some(0));
}

#[test]
fn cursor_wraps_moving_up() {
    let mut app = populated(&["/a", "/b", "/c"]);
    app.previous();
    assert_eq!(app.selected, Some(0));
    app.previous();
    assert_eq!(app.selected, Some(2));
}

#[test]
fn cursor_does_not_move_before_population() {
    let mut app = App::new();
    app.next();
    assert_eq!(app.selected, None);
    app.previous();
    assert_eq!(app.selected, None);
}

#[test]
fn delete_on_ready_entry_starts_deletion() {
    let mut app = populated(&["/a", "/b"]);
    app.apply_io_event(IoEventType::Loaded(1, 9), 1);
    app.next();
    app.next();
    assert_eq!(app.selected, Some(1));
    let task = app.delete_file();
    assert_eq!(task, Some((1, "/b".to_owned())));
    assert_eq!(status_of(&app, 1), DirStatus::Deleting);
}

#[test]
fn delete_on_loading_entry_is_a_no_op() {
    let mut app = populated(&["/a"]);
    app.next();
    let task = app.delete_file();
    assert_eq!(task, None);
    assert_eq!(status_of(&app, 0), DirStatus::Loading);
    assert_eq!(app.selected, Some(0));
    assert_eq!(app.free_space, 0);
}

#[test]
fn delete_with_no_selection_is_a_no_op() {
    let mut app = populated(&["/a"]);
    app.apply_io_event(IoEventType::Loaded(0, 5), 1);
    assert_eq!(app.delete_file(), None);
    assert_eq!(status_of(&app, 0), DirStatus::Ready);
}

#[test]
fn double_delete_is_guarded() {
    let mut app = populated(&["/a"]);
    app.apply_io_event(IoEventType::Loaded(0, 5), 1);
    app.next();
    assert!(app.delete_file().is_some());
    // The entry is now Deleting, so a second Delete spawns nothing.
    assert_eq!(app.delete_file(), None);
    assert_eq!(status_of(&app, 0), DirStatus::Deleting);
}

#[test]
fn statuses_only_move_forward() {
    let mut app = populated(&["/a"]);
    let ranks = |s: DirStatus| match s {
        DirStatus::Loading => 0,
        DirStatus::Ready => 1,
        DirStatus::Deleting => 2,
        DirStatus::Deleted => 3,
        DirStatus::Error => 3,
    };
    let events = [
        IoEventType::Loaded(0, 3),
        IoEventType::Deleted(0),
        IoEventType::Loaded(0, 4),
        IoEventType::DeleteError(0),
        IoEventType::Deleted(0),
    ];
    let mut last = ranks(status_of(&app, 0));
    for e in events.iter() {
        app.apply_io_event(*e, 1);
        let now = ranks(status_of(&app, 0));
        assert!(now >= last);
        last = now;
    }
}
