use gitclean::tree::Node;
use gitclean::{
    calculate_path_size_parallel, calculate_sizes, default_ignores, format_size,
    gather_gitignores, is_path_ignored, scan_ignored_files, sort_items_by_size, ItemWithSize,
};

fn file(name: &str, size: u64) -> Node {
    Node::File { name: name.to_string(), size }
}

fn dir(name: &str, gitignore: Option<Vec<&str>>, entries: Vec<Node>) -> Node {
    Node::Dir {
        name: name.to_string(),
        gitignore: gitignore.map(|ls| ls.iter().map(|l| l.to_string()).collect()),
        entries,
    }
}

fn path(components: &[&str]) -> Vec<String> {
    components.iter().map(|c| c.to_string()).collect()
}

fn reported(out: &[Vec<String>], components: &[&str]) -> bool {
    out.iter().any(|p| p == &path(components))
}

#[test]
fn test_ignored_scan_and_sizes() {
    let root = dir(
        "",
        Some(vec!["target", "*.log"]),
        vec![
            file(".gitignore", 14),
            dir("target", None, vec![file("a.bin", 1024)]),
            file("error.log", 2048),
            file("keep.txt", 5),
        ],
    );
    let extra: Vec<String> = vec![];
    let map = gather_gitignores(&root, &extra);
    assert!(map.len() > 0);

    let ignored = scan_ignored_files(&root, &map);
    assert!(ignored.iter().any(|p| p.last().map(|s| s.as_str() == "target") == Some(true)));
    assert!(ignored.iter().any(|p| p.last().map(|s| s.as_str() == "error.log") == Some(true)));
    assert!(!ignored.iter().any(|p| p.last().map(|s| s.as_str() == "keep.txt") == Some(true)));

    let items = calculate_sizes(&ignored, &root);
    let total: u64 = items.iter().map(|i| i.size).sum();
    assert!(total >= 3 * 1024);
}

#[test]
fn test_format_size_zero() {
    assert_eq!(format_size(0), "0 B");
}

#[test]
fn test_format_size_kilobytes() {
    assert_eq!(format_size(1536), "1.5 KB");
}

#[test]
fn test_format_size_gigabytes() {
    assert_eq!(format_size(1073741824), "1.0 GB");
}

#[test]
fn test_format_size_more_values() {
    assert_eq!(format_size(1), "1.0 B");
    assert_eq!(format_size(1023), "1023.0 B");
    assert_eq!(format_size(1024), "1.0 KB");
    assert_eq!(format_size(1100), "1.1 KB");
    assert_eq!(format_size(2048), "2.0 KB");
    assert_eq!(format_size(1048575), "1024.0 KB");
    assert_eq!(format_size(1048576), "1.0 MB");
    assert_eq!(format_size(1099511627776), "1.0 TB");
}

#[test]
fn test_format_size_rounds_ties_to_even() {
    // 1280 bytes is exactly 1.25 KB: the half rounds down to the even tenth.
    assert_eq!(format_size(1280), "1.2 KB");
    // 1792 bytes is exactly 1.75 KB: the half rounds up to the even tenth.
    assert_eq!(format_size(1792), "1.8 KB");
}

#[test]
fn test_extra_pattern_protects() {
    let root = dir(
        "",
        Some(vec!["*.secret"]),
        vec![file(".gitignore", 9), file("db.secret", 100)],
    );
    let extra: Vec<String> = vec!["*.secret".to_string()];
    let map = gather_gitignores(&root, &extra);
    assert!(!is_path_ignored(&path(&["db.secret"]), false, &map));
    let ignored = scan_ignored_files(&root, &map);
    assert!(!reported(&ignored, &["db.secret"]));
}

#[test]
fn test_without_extra_pattern_secret_file_is_protected_by_catalog() {
    // "*.secret" is also in the default catalog, so even without the extra
    // pattern the file stays protected.
    let root = dir(
        "",
        Some(vec!["*.secret"]),
        vec![file(".gitignore", 9), file("db.secret", 100)],
    );
    let extra: Vec<String> = vec![];
    let map = gather_gitignores(&root, &extra);
    assert!(!is_path_ignored(&path(&["db.secret"]), false, &map));
}

#[test]
fn test_empty_root() {
    let root = dir("", None, vec![file("keep.txt", 5), dir("sub", None, vec![])]);
    let extra: Vec<String> = vec![];
    let map = gather_gitignores(&root, &extra);
    assert_eq!(map.len(), 0);
    let ignored = scan_ignored_files(&root, &map);
    assert!(ignored.is_empty());
}

#[test]
fn test_catalog_protects_pem() {
    let root = dir(
        "",
        Some(vec!["*.pem", "*.bin"]),
        vec![file(".gitignore", 11), file("server.pem", 64), file("data.bin", 32)],
    );
    let extra: Vec<String> = vec![];
    let map = gather_gitignores(&root, &extra);
    let ignored = scan_ignored_files(&root, &map);
    assert!(!reported(&ignored, &["server.pem"]));
    assert!(reported(&ignored, &["data.bin"]));
}

#[test]
fn test_git_dir_skipped() {
    let root = dir(
        "",
        Some(vec!["*.log"]),
        vec![
            file(".gitignore", 6),
            dir(".git", None, vec![file("big.log", 4096), file("HEAD", 20)]),
            file("kept.txt", 3),
        ],
    );
    let extra: Vec<String> = vec![];
    let map = gather_gitignores(&root, &extra);
    let ignored = scan_ignored_files(&root, &map);
    assert!(ignored.iter().all(|p| p.iter().all(|c| c.as_str() != ".git")));
    assert!(!reported(&ignored, &[".git", "big.log"]));
    assert!(!reported(&ignored, &[".git"]));
}

#[test]
fn test_ignored_dir_not_descended() {
    let root = dir(
        "",
        Some(vec!["build", "*.log"]),
        vec![
            file(".gitignore", 12),
            dir("build", None, vec![file("a.log", 7), dir("deep", None, vec![file("b.log", 9)])]),
        ],
    );
    let extra: Vec<String> = vec![];
    let map = gather_gitignores(&root, &extra);
    let ignored = scan_ignored_files(&root, &map);
    assert!(reported(&ignored, &["build"]));
    assert!(!reported(&ignored, &["build", "a.log"]));
    assert!(!reported(&ignored, &["build", "deep"]));
    // No reported path is a strict ancestor of another.
    for a in &ignored {
        for b in &ignored {
            if a.len() < b.len() {
                assert!(a[..] != b[..a.len()]);
            }
        }
    }
}

#[test]
fn test_nested_gitignore_scoped_to_subtree() {
    let root = dir(
        "",
        None,
        vec![
            dir(
                "sub",
                Some(vec!["*.tmp"]),
                vec![file(".gitignore", 6), file("x.tmp", 10)],
            ),
            file("y.tmp", 20),
        ],
    );
    let extra: Vec<String> = vec![];
    let map = gather_gitignores(&root, &extra);
    assert_eq!(map.len(), 1);
    let ignored = scan_ignored_files(&root, &map);
    assert!(reported(&ignored, &["sub", "x.tmp"]));
    assert!(!reported(&ignored, &["y.tmp"]));
}

#[test]
fn test_outward_walk_past_nearer_matcher() {
    // The resolver keeps walking outward: the nearer ignore rule file
    // re-includes keep.log, but the farther one still ignores it.
    let root = dir(
        "",
        Some(vec!["*.log"]),
        vec![
            file(".gitignore", 6),
            dir(
                "sub",
                Some(vec!["!keep.log"]),
                vec![file(".gitignore", 10), file("keep.log", 5)],
            ),
        ],
    );
    let extra: Vec<String> = vec![];
    let map = gather_gitignores(&root, &extra);
    assert!(is_path_ignored(&path(&["sub", "keep.log"]), false, &map));
}

#[test]
fn test_malformed_extra_pattern_is_skipped() {
    let root = dir(
        "",
        Some(vec!["target"]),
        vec![file(".gitignore", 7), dir("target", None, vec![file("a.o", 1)])],
    );
    let extra: Vec<String> = vec!["[z-a]".to_string()];
    let map = gather_gitignores(&root, &extra);
    assert!(map.len() > 0);
    let ignored = scan_ignored_files(&root, &map);
    assert!(reported(&ignored, &["target"]));
}

#[test]
fn test_calculate_path_size_recursive_sum() {
    let tree = dir(
        "d",
        None,
        vec![
            file("a", 10),
            dir("e", None, vec![file("b", 20), file("c", 30)]),
            dir("empty", None, vec![]),
        ],
    );
    assert_eq!(calculate_path_size_parallel(&tree), 60);
    assert_eq!(calculate_path_size_parallel(&file("a", 10)), 10);
}

#[test]
fn test_calculate_sizes_vanished_path_is_zero() {
    let root = dir("", None, vec![file("a", 10)]);
    let paths = vec![path(&["a"]), path(&["gone"])];
    let items = calculate_sizes(&paths, &root);
    assert_eq!(items.len(), 2);
    assert_eq!(items[0].size, 10);
    assert_eq!(items[1].size, 0);
}

#[test]
fn test_sort_items_by_size_descending_and_stable() {
    let items = vec![
        ItemWithSize { path: path(&["a"]), size: 10 },
        ItemWithSize { path: path(&["b"]), size: 30 },
        ItemWithSize { path: path(&["c"]), size: 10 },
        ItemWithSize { path: path(&["d"]), size: 20 },
    ];
    let sorted = sort_items_by_size(items);
    let order: Vec<&str> = sorted.iter().map(|i| i.path[0].as_str()).collect();
    assert_eq!(order, vec!["b", "d", "a", "c"]);
    let sizes: Vec<u64> = sorted.iter().map(|i| i.size).collect();
    assert_eq!(sizes, vec![30, 20, 10, 10]);
}

#[test]
fn test_default_ignores_catalog() {
    let pats = default_ignores();
    assert_eq!(pats.len(), 42);
    assert!(pats.iter().any(|p| p.as_str() == "*.secret"));
    assert!(pats.iter().any(|p| p.as_str() == ".env"));
    assert!(pats.iter().any(|p| p.as_str() == "*.pem"));
}

#[test]
fn test_is_path_ignored_empty_registry() {
    let root = dir("", None, vec![]);
    let extra: Vec<String> = vec![];
    let map = gather_gitignores(&root, &extra);
    assert!(!is_path_ignored(&path(&["anything"]), false, &map));
}

#[test]
fn test_anchored_and_dir_only_rules() {
    // "/top.log" only matches at the matcher's own directory; "cache/" only
    // matches directories.
    let root = dir(
        "",
        Some(vec!["/top.log", "cache/"]),
        vec![
            file(".gitignore", 16),
            file("top.log", 1),
            dir("sub", None, vec![file("top.log", 2)]),
            dir("cache", None, vec![file("x", 1)]),
            file("cache.txt", 1),
        ],
    );
    let extra: Vec<String> = vec![];
    let map = gather_gitignores(&root, &extra);
    let ignored = scan_ignored_files(&root, &map);
    assert!(reported(&ignored, &["top.log"]));
    assert!(!reported(&ignored, &["sub", "top.log"]));
    assert!(reported(&ignored, &["cache"]));
    assert!(!reported(&ignored, &["cache.txt"]));
}
