use npkill::FsNode;
use npkill::get_size;
use npkill::is_match_name;
use npkill::search_folder;

fn dir(path: &str, children: Vec<FsNode>) -> FsNode {
    FsNode { path: path.to_owned(), is_dir: true, hidden: false, file_size: 0, children }
}

fn hidden_dir(path: &str, children: Vec<FsNode>) -> FsNode {
    FsNode { path: path.to_owned(), is_dir: true, hidden: true, file_size: 0, children }
}

fn file(path: &str, size: u64) -> FsNode {
    FsNode { path: path.to_owned(), is_dir: false, hidden: false, file_size: size, children: vec![] }
}

fn paths_of(nodes: &[FsNode]) -> Vec<String> {
    nodes.iter().map(|n| n.path.clone()).collect()
}

#[test]
fn matcher_accepts_target_suffix() {
    assert!(is_match_name("/home/p/node_modules"));
    assert!(is_match_name("node_modules"));
    assert!(!is_match_name("/home/p/node_module"));
    assert!(!is_match_name("/home/p/node_modules/sub"));
    assert!(!is_match_name(""));
    assert!(!is_match_name("modules"));
}

#[test]
fn search_returns_matching_child() {
    let root = dir(
        "/r",
        vec![
            dir("/r/src", vec![]),
            dir("/r/node_modules", vec![file("/r/node_modules/a.js", 10)]),
        ],
    );
    let found = search_folder(root);
    assert_eq!(paths_of(&found), vec!["/r/node_modules".to_owned()]);
}

#[test]
fn search_keeps_only_first_match_among_siblings() {
    // Two matching siblings: only the first encountered is kept, and the
    // other siblings at that level are not searched further.
    let root = dir(
        "/r",
        vec![
            dir("/r/a/node_modules", vec![]),
            dir("/r/b/node_modules", vec![]),
            dir("/r/c", vec![dir("/r/c/node_modules", vec![])]),
        ],
    );
    let found = search_folder(root);
    assert_eq!(paths_of(&found), vec!["/r/a/node_modules".to_owned()]);
}

#[test]
fn search_recurses_into_non_matching_siblings() {
    let root = dir(
        "/r",
        vec![
            dir("/r/a", vec![dir("/r/a/node_modules", vec![])]),
            dir("/r/b", vec![dir("/r/b/node_modules", vec![])]),
        ],
    );
    let found = search_folder(root);
    assert_eq!(
        paths_of(&found),
        vec!["/r/a/node_modules".to_owned(), "/r/b/node_modules".to_owned()]
    );
}

#[test]
fn search_prunes_below_matches() {
    // A match inside a match is never reported: the outer one's contents
    // are pruned from the search.
    let root = dir(
        "/r",
        vec![dir(
            "/r/p",
            vec![dir(
                "/r/p/node_modules",
                vec![dir("/r/p/node_modules/x", vec![dir("/r/p/node_modules/x/node_modules", vec![])])],
            )],
        )],
    );
    let found = search_folder(root);
    assert_eq!(paths_of(&found), vec!["/r/p/node_modules".to_owned()]);
}

#[test]
fn search_skips_hidden_directories() {
    let root = dir(
        "/r",
        vec![
            hidden_dir("/r/node_modules", vec![]),
            hidden_dir("/r/h", vec![dir("/r/h/node_modules", vec![])]),
            dir("/r/v", vec![dir("/r/v/node_modules", vec![])]),
        ],
    );
    let found = search_folder(root);
    assert_eq!(paths_of(&found), vec!["/r/v/node_modules".to_owned()]);
}

#[test]
fn search_ignores_files() {
    let root = dir("/r", vec![file("/r/node_modules", 5)]);
    let found = search_folder(root);
    assert!(found.is_empty());
}

#[test]
fn no_returned_match_contains_another() {
    let root = dir(
        "/r",
        vec![
            dir("/r/a", vec![dir("/r/a/node_modules", vec![dir("/r/a/node_modules/d/node_modules", vec![])])]),
            dir("/r/b", vec![dir("/r/b/node_modules", vec![])]),
            dir("/r/c", vec![]),
        ],
    );
    let found = search_folder(root);
    let paths = paths_of(&found);
    assert_eq!(
        paths,
        vec!["/r/a/node_modules".to_owned(), "/r/b/node_modules".to_owned()]
    );
    for i in 0..paths.len() {
        for j in 0..paths.len() {
            if i != j {
                let nested = format!("{}/", paths[j]);
                assert!(!paths[i].starts_with(&nested));
            }
        }
    }
}

#[test]
fn repeated_searches_return_the_same_matches() {
    let build = || {
        dir(
            "/r",
            vec![
                dir("/r/a", vec![dir("/r/a/node_modules", vec![])]),
                dir("/r/b/node_modules", vec![]),
            ],
        )
    };
    let first = paths_of(&search_folder(build()));
    let second = paths_of(&search_folder(build()));
    assert_eq!(first, second);
}

#[test]
fn size_sums_all_files_and_unreadable_counts_zero() {
    // Children of sizes 10, 20 and 30, plus a subdirectory that could not
    // be read (it appears childless in the snapshot): the total is 60.
    let root = dir(
        "/r",
        vec![
            file("/r/a", 10),
            file("/r/b", 20),
            dir("/r/d", vec![file("/r/d/c", 30)]),
            dir("/r/unreadable", vec![]),
        ],
    );
    assert_eq!(get_size(&root), 60);
}

#[test]
fn size_of_file_node_is_its_length() {
    assert_eq!(get_size(&file("/r/a", 7)), 7);
}

#[test]
fn size_of_empty_directory_is_zero() {
    assert_eq!(get_size(&dir("/r", vec![])), 0);
}

#[test]
fn size_counts_hidden_entries() {
    // Hiddenness prunes the search, never the sizing.
    let root = dir("/r", vec![hidden_dir("/r/h", vec![file("/r/h/a", 12)]), file("/r/b", 8)]);
    assert_eq!(get_size(&root), 20);
}
