//! Locates dependency-cache directories (`node_modules`) in a snapshot of a
//! project tree, computes their disk usage, and tracks the state of an
//! interactive clean-up session: which matched directories exist, how large
//! they are, which have been deleted, and how much space was reclaimed.

pub mod app;
pub mod dir_data;
pub mod file_size;
pub mod fs_tree;
pub mod input_event;
pub mod io_event;
pub mod matcher;
pub mod search;
pub mod status;
pub mod tasks;

pub use app::App;
pub use dir_data::DirData;
pub use file_size::size;
pub use fs_tree::FsNode;
pub use fs_tree::get_size;
pub use input_event::InputEvent;
pub use input_event::InputEventType;
pub use io_event::IoEventType;
pub use matcher::is_match_name;
pub use search::search_folder;
pub use status::DirStatus;
