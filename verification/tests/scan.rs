//! Finding checkouts on a disk.

use revlocal_daemon::scan::{is_walkable, kind_of, DirEntry, Discovery, Seen, Walk, DEFAULT_SCAN_DEPTH};

/// What is in a directory of a made-up tree, given every directory and file in it by its path. A
/// path that ends in `!` is a directory that cannot be read.
fn look(tree: &[&str], dir: &str) -> Seen {
    let mut names: Vec<String> = Vec::new();
    for path in tree {
        let path = path.trim_end_matches('!');
        if let Some(below) = path.strip_prefix(&format!("{dir}/")) {
            let name = below.split('/').next().unwrap_or("").to_owned();
            if !name.is_empty() && !names.contains(&name) {
                names.push(name);
            }
        }
    }
    let locked = tree.contains(&format!("{dir}!").as_str());
    names.reverse();
    Seen {
        git: names.contains(&".git".to_owned()),
        svn: names.contains(&".svn".to_owned()),
        listing: if locked {
            None
        } else {
            Some(names.into_iter().map(|name| DirEntry { name, is_dir: true }).collect())
        },
    }
}

fn discover(tree: &[&str], max_depth: usize) -> Discovery {
    let full: Vec<String> = tree.iter().map(|p| format!("/r/{p}")).collect();
    let full: Vec<&str> = full.iter().map(String::as_str).collect();
    let mut walk = Walk::discover("/r", max_depth);
    while let Some(dir) = walk.next() {
        let mut seen = look(&full, &dir);
        if !walk.wants_listing(seen.git, seen.svn) {
            seen.listing = None;
        }
        walk.visit(&seen);
    }
    walk.so_far
}

fn paths(discovery: &Discovery) -> Vec<String> {
    discovery.found.iter().map(|d| d.path.trim_start_matches("/r/").to_owned()).collect()
}

#[test]
fn a_scan_finds_every_checkout_under_the_root() {
    let found = discover(&["one/.git", "two/.git", "notes"], DEFAULT_SCAN_DEPTH);

    assert_eq!(paths(&found), vec!["one", "two"]);
}

#[test]
fn a_scan_stops_at_a_repository_rather_than_walking_its_contents() {
    let found = discover(&["outer/.git", "outer/deps/inner/.git"], DEFAULT_SCAN_DEPTH);

    assert_eq!(paths(&found), vec!["outer"]);
}

#[test]
fn a_root_that_is_itself_a_checkout_is_the_result() {
    let found = discover(&[".git"], DEFAULT_SCAN_DEPTH);

    assert_eq!(found.found.len(), 1, "the root itself: {found:?}");
    assert_eq!(found.found[0].path, "/r");
}

#[test]
fn subversion_working_copies_are_found_too() {
    let found = discover(&["gitrepo/.git", "svnrepo/.svn"], DEFAULT_SCAN_DEPTH);

    assert_eq!(
        found
            .found
            .iter()
            .map(|d| d.kind.as_str())
            .collect::<Vec<_>>(),
        vec!["git", "svn"]
    );
}

#[test]
fn the_places_repositories_are_not_are_never_walked() {
    let found = discover(
        &[
            "app/node_modules/pkg/.git",
            "app/target/debug/thing/.git",
            ".cache/something/.git",
        ],
        DEFAULT_SCAN_DEPTH,
    );

    assert!(found.found.is_empty(), "walked into noise: {found:?}");
}

#[test]
fn depth_bounds_the_walk() {
    let tree = ["a/b/c/deep/.git"];

    let shallow = discover(&tree, 2);
    assert!(shallow.found.is_empty(), "depth 2 reached a/b/c/deep");
    assert!(
        shallow.not_descended > 0,
        "a walk cut off by its own depth bound must say so: {shallow:?}"
    );
    assert_eq!(paths(&discover(&tree, 4)), vec!["a/b/c/deep"]);
}

#[test]
fn a_directory_that_cannot_be_read_does_not_stop_the_scan() {
    let found = discover(&["readable/.git", "locked!"], DEFAULT_SCAN_DEPTH);

    assert_eq!(paths(&found), vec!["readable"]);
    assert_eq!(
        found.unreadable, 1,
        "\"nothing there\" and \"not allowed to look\" are different answers: {found:?}"
    );
}

#[test]
fn the_order_is_the_same_on_every_run() {
    assert_eq!(
        paths(&discover(&["zeta/.git", "alpha/.git", "mid/.git"], DEFAULT_SCAN_DEPTH)),
        vec!["alpha", "mid", "zeta"]
    );
    assert_eq!(
        paths(&discover(&["mid/.git", "zeta/.git", "alpha/b/.git", "alpha/a/.git"], DEFAULT_SCAN_DEPTH)),
        vec!["alpha/a", "alpha/b", "mid", "zeta"]
    );
}

#[test]
fn links_and_hidden_directories_are_passed_over() {
    assert!(is_walkable("src", true));
    assert!(!is_walkable("src", false));
    assert!(!is_walkable(".hidden", true));
    assert!(!is_walkable("venv", true));
    assert!(is_walkable("vendored", true));
    assert_eq!(kind_of(false, false), None);
}
