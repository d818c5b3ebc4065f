use std::sync::mpsc::channel;

use npkill::DirData;
use npkill::DirStatus;
use npkill::FsNode;
use npkill::InputEvent;
use npkill::InputEventType;
use npkill::IoEventType;
use npkill::input_event::KeyPress;
use npkill::input_event::map_input_to_event;
use npkill::matcher::is_hidden_attributes;
use npkill::size;
use npkill::tasks::cal_size;
use npkill::tasks::delete_file;
use npkill::tasks::deletion_event;

#[test]
fn hiddenness_comes_from_attributes_only_where_supported() {
    assert!(is_hidden_attributes(true, 0x2));
    assert!(is_hidden_attributes(true, 0x3));
    assert!(!is_hidden_attributes(true, 0x1));
    assert!(!is_hidden_attributes(true, 0));
    // A platform without hidden attributes never reports an entry hidden.
    assert!(!is_hidden_attributes(false, 0x2));
}

#[test]
fn key_mapping_follows_the_bindings() {
    assert_eq!(map_input_to_event(&KeyPress::Character('q')), Some(InputEventType::Quit));
    assert_eq!(map_input_to_event(&KeyPress::Character(' ')), Some(InputEventType::Select));
    assert_eq!(map_input_to_event(&KeyPress::UpArrow), Some(InputEventType::Up));
    assert_eq!(map_input_to_event(&KeyPress::DownArrow), Some(InputEventType::Down));
    assert_eq!(map_input_to_event(&KeyPress::Character('x')), None);
    assert_eq!(map_input_to_event(&KeyPress::Other), None);
}

#[test]
fn input_events_arrive_in_order() {
    let (tx, rx) = channel();
    let events = InputEvent::new(rx, tx.clone());
    tx.send(InputEventType::Down).unwrap();
    tx.send(InputEventType::Select).unwrap();
    tx.send(InputEventType::Quit).unwrap();
    assert_eq!(events.next().unwrap(), InputEventType::Down);
    assert_eq!(events.next().unwrap(), InputEventType::Select);
    assert_eq!(events.next().unwrap(), InputEventType::Quit);
}

#[test]
fn sizing_task_reports_a_loaded_event() {
    let node = FsNode {
        path: "/r/node_modules".to_owned(),
        is_dir: true,
        hidden: false,
        file_size: 0,
        children: vec![
            FsNode {
                path: "/r/node_modules/a".to_owned(),
                is_dir: false,
                hidden: false,
                file_size: 11,
                children: vec![],
            },
            FsNode {
                path: "/r/node_modules/b".to_owned(),
                is_dir: false,
                hidden: false,
                file_size: 31,
                children: vec![],
            },
        ],
    };
    assert_eq!(cal_size(4, &node), IoEventType::Loaded(4, 42));
}

#[test]
fn deletion_outcomes_become_events() {
    assert_eq!(deletion_event(2, true), IoEventType::Deleted(2));
    assert_eq!(deletion_event(2, false), IoEventType::DeleteError(2));
}

#[test]
fn deleting_a_missing_path_reports_the_error_event() {
    let event = delete_file(3, "/this/path/does/not/exist/node_modules");
    assert_eq!(event, IoEventType::DeleteError(3));
}

#[test]
fn byte_counts_format_with_binary_units() {
    assert_eq!(size(0), "0 B");
    assert_eq!(size(1024), "1024 B");
    assert_eq!(size(2048), "2.00 KiB");
    assert_eq!(size(1536 * 1024), "1.50 MiB");
}

#[test]
fn status_labels_spell_the_lifecycle() {
    assert_eq!(DirStatus::Loading.label(), "LOADING");
    assert_eq!(DirStatus::Ready.label(), "READY");
    assert_eq!(DirStatus::Deleting.label(), "DELETING");
    assert_eq!(DirStatus::Deleted.label(), "DELETED");
    assert_eq!(DirStatus::Error.label(), "ERROR");
}

#[test]
fn entry_size_label_shows_placeholder_then_size() {
    let mut entry = DirData::new("/a/node_modules".to_owned());
    assert_eq!(entry.size_label(), "..");
    entry.update_size(2048);
    assert_eq!(entry.size_label(), "2.00 KiB");
    assert_eq!(entry.status, DirStatus::Ready);
}

#[test]
fn entry_lifecycle_setters() {
    let mut entry = DirData::new("/a".to_owned());
    assert_eq!(entry.status, DirStatus::Loading);
    entry.deleting();
    assert_eq!(entry.status, DirStatus::Deleting);
    entry.deleted();
    assert_eq!(entry.status, DirStatus::Deleted);
    entry.error();
    assert_eq!(entry.status, DirStatus::Error);
    assert_eq!(entry.path, "/a");
}
