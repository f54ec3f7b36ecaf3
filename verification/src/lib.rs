//! Finds the files and directories of a project tree that its `.gitignore`
//! rules exclude from version control, measures their disk usage, and leaves
//! the choice of what to delete to the caller.

pub mod patterns;
pub mod rules;
pub mod scan;
pub mod size;
pub mod tree;
pub mod types;
pub mod util;

pub use patterns::default_ignores;
pub use rules::gather_gitignores;
pub use scan::{is_path_ignored, scan_ignored_files};
pub use size::{calculate_path_size_parallel, calculate_sizes, sort_items_by_size};
pub use types::ItemWithSize;
pub use util::format_size;
