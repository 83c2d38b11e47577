use process_supervisor::files::{DirEntry, FileWalk, WalkStep};

fn file(path: &str) -> DirEntry {
    DirEntry { path: path.to_string(), is_dir: false }
}

fn dir(path: &str) -> DirEntry {
    DirEntry { path: path.to_string(), is_dir: true }
}

fn listing(path: &str) -> Vec<DirEntry> {
    match path {
        "/a" => vec![file("/a/one.txt"), dir("/a/sub")],
        "/a/sub" => vec![file("/a/sub/two.txt"), file("/a/sub/three.txt")],
        "/t" => vec![dir("/t/x"), file("/t/m.txt"), dir("/t/y"), file("/t/z.txt")],
        "/t/x" => vec![file("/t/x/1"), dir("/t/x/deep"), file("/t/x/2")],
        "/t/x/deep" => vec![file("/t/x/deep/d")],
        "/t/y" => vec![],
        "/empty" => vec![],
        "/e" => vec![dir("/e/hollow"), file("/e/only.txt"), dir("/e/more")],
        "/e/hollow" => vec![],
        "/e/more" => vec![dir("/e/more/inner")],
        "/e/more/inner" => vec![],
        other => panic!("unexpected directory {}", other),
    }
}

fn walk(root: &str, recursive: bool) -> (Vec<String>, Vec<String>) {
    let mut walk = FileWalk::new(recursive);
    let mut read: Vec<String> = Vec::new();
    let mut next = root.to_string();
    loop {
        read.push(next.clone());
        match walk.enter(listing(&next)) {
            WalkStep::ReadDir(path) => next = path,
            WalkStep::Done => break,
        }
    }
    (walk.into_files(), read)
}

#[test]
fn get_files_without_recursion_lists_only_the_directory() {
    let (files, read) = walk("/a", false);
    assert_eq!(files, vec!["/a/one.txt".to_string()]);
    assert_eq!(read, vec!["/a".to_string()]);
}

#[test]
fn get_files_with_recursion_adds_the_subdirectory() {
    let (files, read) = walk("/a", true);
    assert_eq!(
        files,
        vec!["/a/one.txt".to_string(), "/a/sub/two.txt".to_string(), "/a/sub/three.txt".to_string()]
    );
    assert_eq!(read, vec!["/a".to_string(), "/a/sub".to_string()]);
}

#[test]
fn recursive_walk_is_depth_first_in_listing_order() {
    let (files, read) = walk("/t", true);
    assert_eq!(
        files,
        vec![
            "/t/x/1".to_string(),
            "/t/x/deep/d".to_string(),
            "/t/x/2".to_string(),
            "/t/m.txt".to_string(),
            "/t/z.txt".to_string(),
        ]
    );
    assert_eq!(
        read,
        vec!["/t".to_string(), "/t/x".to_string(), "/t/x/deep".to_string(), "/t/y".to_string()]
    );
}

#[test]
fn flat_walk_passes_over_every_directory() {
    let (files, read) = walk("/t", false);
    assert_eq!(files, vec!["/t/m.txt".to_string(), "/t/z.txt".to_string()]);
    assert_eq!(read, vec!["/t".to_string()]);
}

#[test]
fn walk_of_an_empty_directory_finds_nothing() {
    assert_eq!(walk("/empty", true).0, Vec::<String>::new());
    assert_eq!(walk("/empty", false).0, Vec::<String>::new());
}

#[test]
fn walk_steps_name_the_directory_to_read() {
    let mut walk = FileWalk::new(true);
    assert_eq!(walk.enter(listing("/t")), WalkStep::ReadDir("/t/x".to_string()));
    assert_eq!(walk.enter(listing("/t/x")), WalkStep::ReadDir("/t/x/deep".to_string()));
    assert_eq!(walk.enter(listing("/t/x/deep")), WalkStep::ReadDir("/t/y".to_string()));
    assert_eq!(walk.enter(listing("/t/y")), WalkStep::Done);
}

#[test]
fn a_walk_that_was_never_entered_has_no_files() {
    assert_eq!(FileWalk::new(true).into_files(), Vec::<String>::new());
}

#[test]
fn recursive_listing_holds_the_flat_one_and_the_nested_files() {
    let flat = walk("/t", false).0;
    let mut rest = walk("/t", true).0;
    for path in &flat {
        let at = rest.iter().position(|p| p == path).expect("a file of the directory itself is listed");
        rest.remove(at);
    }
    assert_eq!(rest, vec!["/t/x/1".to_string(), "/t/x/deep/d".to_string(), "/t/x/2".to_string()]);
}

#[test]
fn listings_agree_where_no_subdirectory_holds_a_file() {
    let (flat, flat_read) = walk("/e", false);
    let (deep, deep_read) = walk("/e", true);
    assert_eq!(flat, vec!["/e/only.txt".to_string()]);
    assert_eq!(deep, flat);
    assert_eq!(flat_read.len(), 1);
    assert_eq!(deep_read.len(), 4);
}

#[test]
fn listings_differ_where_a_subdirectory_holds_a_file() {
    assert_ne!(walk("/a", true).0, walk("/a", false).0);
    assert_eq!(walk("/a", true).0.len(), walk("/a", false).0.len() + 2);
}
