use linetally::aggregate::{aggregate, count, count_file_lines};
use linetally::fs::{FsEntry, ListError};
use linetally::index::{entry_is_text, make_index, name_has_dot};
use linetally::scan::scan;
use linetally::tally::Tally;
use linetally::text::ReadError;
use linetally::tree::make_tree;
use linetally::walk::{report_node, should_report, walk, Report};

fn name_of(path: &str) -> String {
    path.rsplit('/').next().unwrap_or("").to_string()
}

fn file(path: &str, content: &[u8]) -> FsEntry {
    FsEntry::file(path.to_string(), name_of(path), Some(content.to_vec()))
}

fn unreadable(path: &str) -> FsEntry {
    FsEntry::file(path.to_string(), name_of(path), None)
}

fn dir(path: &str, children: Vec<FsEntry>) -> FsEntry {
    FsEntry::dir(path.to_string(), name_of(path), Some(children))
}

fn locked(path: &str) -> FsEntry {
    FsEntry::dir(path.to_string(), name_of(path), None)
}

fn lines(n: usize) -> Vec<u8> {
    vec!["line"; n].join("\n").into_bytes()
}

fn tokens(list: &[&str]) -> Vec<String> {
    list.iter().map(|s| s.to_string()).collect()
}

fn pairs(tally: &Tally) -> Vec<(String, u128)> {
    let mut all: Vec<(String, u128)> =
        tally.entries().iter().map(|e| (e.ext.clone(), e.lines)).collect();
    all.sort();
    all
}

fn summary(reports: &[Report]) -> Vec<(String, usize, Vec<(String, u128)>)> {
    reports.iter().map(|r| (r.location.clone(), r.files, pairs(&r.tally))).collect()
}

fn path_of(r: Result<Vec<Report>, ListError>) -> String {
    match r {
        Ok(_) => panic!("the scan did not fail"),
        Err(e) => e.path,
    }
}

fn layout() -> Vec<FsEntry> {
    vec![dir(
        "/work",
        vec![
            dir("/work/a", vec![file("/work/a/x.py", &lines(10))]),
            dir("/work/b", vec![file("/work/b/y.py", &lines(20))]),
        ],
    )]
}

#[test]
fn depth_zero_flattens_everything_into_one_report() {
    let roots = layout();
    let reports = scan(&roots, &"/work".to_string(), &None, &[], 0).ok().unwrap();
    assert_eq!(
        summary(&reports),
        vec![("/work".to_string(), 2, vec![(".py".to_string(), 30)])]
    );
}

#[test]
fn depth_one_reports_each_directory_and_not_the_working_directory() {
    let roots = layout();
    let reports = scan(&roots, &"/work".to_string(), &None, &[], 1).ok().unwrap();
    assert_eq!(
        summary(&reports),
        vec![
            ("".to_string(), 2, vec![(".py".to_string(), 30)]),
            ("/work/a".to_string(), 1, vec![(".py".to_string(), 10)]),
            ("/work/b".to_string(), 1, vec![(".py".to_string(), 20)]),
        ]
    );
    assert!(reports.iter().all(|r| r.location != "/work"));
}

#[test]
fn a_node_without_a_location_is_reported_under_an_empty_label() {
    let roots = vec![file("/r/a.py", &lines(3)), file("/r/b.py", &lines(4))];
    let tree = make_tree(None, &roots, &[], 0).ok().unwrap();
    assert!(tree.children.is_empty());
    for depth in [0, 1, 7] {
        let reports = walk(&tree, &"/r".to_string(), &None, &[], depth).ok().unwrap();
        assert_eq!(summary(&reports), vec![("".to_string(), 2, vec![(".py".to_string(), 7)])]);
    }
}

#[test]
fn depth_one_reports_a_root_that_is_not_the_working_directory() {
    let roots = layout();
    let reports = scan(&roots, &"/elsewhere".to_string(), &None, &[], 1).ok().unwrap();
    let locations: Vec<String> = reports.iter().map(|r| r.location.clone()).collect();
    assert_eq!(locations, vec!["", "/work", "/work/a", "/work/b"]);
    assert_eq!(pairs(&reports[0].tally), vec![(".py".to_string(), 30)]);
    assert_eq!(pairs(&reports[1].tally), vec![(".py".to_string(), 30)]);
    assert_eq!(reports[1].files, 2);
}

#[test]
fn tallying_twice_gives_the_same_tally() {
    let roots = layout();
    let paths: Vec<&FsEntry> = roots.iter().collect();
    let first = aggregate(&paths, &None, &[]).ok().unwrap();
    let second = aggregate(&paths, &None, &[]).ok().unwrap();
    assert_eq!(pairs(&first), pairs(&second));
    assert_eq!(pairs(&first), vec![(".py".to_string(), 30)]);
}

#[test]
fn the_tree_keeps_what_passes_the_filter() {
    let roots = vec![
        file("/r/keep.rs", b"x"),
        file("/r/.hidden", b"x"),
        dir("/r/node_modules", vec![file("/r/node_modules/m.js", b"x")]),
        dir("/r/src", vec![file("/r/src/a.rs", b"x"), file("/r/src/b.txt", b"x")]),
        file("/r/skip.txt", b"x"),
    ];
    let excludes = tokens(&["node_modules", ".txt"]);
    let tree = make_tree(None, &roots, &excludes, 1).ok().unwrap();
    let kept: Vec<&str> = tree.entries.iter().map(|e| e.path.as_str()).collect();
    assert_eq!(kept, vec!["/r/keep.rs", "/r/src"]);
    assert_eq!(tree.location, None);
    assert_eq!(tree.children.len(), 1);
    let child = &tree.children[0];
    assert_eq!(child.location, Some("/r/src".to_string()));
    let below: Vec<&str> = child.entries.iter().map(|e| e.path.as_str()).collect();
    assert_eq!(below, vec!["/r/src/a.rs"]);
    assert!(child.children.is_empty());
}

#[test]
fn the_tree_stops_at_its_budget() {
    let roots = vec![dir("/r", vec![dir("/r/a", vec![dir("/r/a/b", vec![file("/r/a/b/f.c", b"x")])])])];
    let flat = make_tree(Some("/r".to_string()), &roots, &[], 0).ok().unwrap();
    assert_eq!(flat.entries.len(), 1);
    assert!(flat.children.is_empty());
    let two = make_tree(None, &roots, &[], 2).ok().unwrap();
    assert_eq!(two.children.len(), 1);
    assert_eq!(two.children[0].children.len(), 1);
    assert_eq!(two.children[0].children[0].entries.len(), 1);
    assert!(two.children[0].children[0].children.is_empty());
    let floor = make_tree(Some("/r".to_string()), &roots, &[], -1).ok().unwrap();
    assert!(floor.entries.is_empty());
    assert!(floor.children.is_empty());
    assert_eq!(floor.location, Some("/r".to_string()));
}

#[test]
fn the_tree_fails_at_a_directory_that_cannot_be_listed() {
    let roots = vec![dir("/r", vec![file("/r/a.rs", b"x"), locked("/r/locked")])];
    assert!(make_tree(None, &roots, &[], 1).is_ok());
    match make_tree(None, &roots, &[], 2) {
        Ok(_) => panic!("the tree was built"),
        Err(e) => assert_eq!(e.path, "/r/locked"),
    }
    assert!(make_tree(None, &roots, &tokens(&["locked"]), 2).is_ok());
}

#[test]
fn the_index_takes_given_files_as_they_are() {
    let roots = vec![file("/r/binary.bin", &[0, 1, 2, 3]), file("/r/noext", b"text"), unreadable("/r/gone.rs")];
    let paths: Vec<&FsEntry> = roots.iter().collect();
    let index = make_index(&paths, &Some(".py".to_string()), &[]).ok().unwrap();
    let found: Vec<&str> = index.iter().map(|e| e.path.as_str()).collect();
    assert_eq!(found, vec!["/r/binary.bin", "/r/noext", "/r/gone.rs"]);
}

#[test]
fn the_index_searches_directories_to_their_full_depth() {
    let roots = vec![dir(
        "/r",
        vec![
            file("/r/top.py", b"a\nb"),
            file("/r/noext", b"text"),
            file("/r/binary.py", &[0, 1, 2, 3]),
            unreadable("/r/gone.py"),
            file("/r/.hidden.py", b"text"),
            dir(
                "/r/sub",
                vec![
                    file("/r/sub/deep.py", b"a"),
                    dir("/r/sub/more.d", vec![file("/r/sub/more.d/deeper.py", b"a")]),
                ],
            ),
            file("/r/other.rs", b"text"),
        ],
    )];
    let paths: Vec<&FsEntry> = roots.iter().collect();
    let index = make_index(&paths, &None, &[]).ok().unwrap();
    let found: Vec<&str> = index.iter().map(|e| e.path.as_str()).collect();
    assert_eq!(
        found,
        vec!["/r/top.py", "/r/sub/deep.py", "/r/sub/more.d/deeper.py", "/r/other.rs"]
    );
    let only_py = make_index(&paths, &Some("py".to_string()), &[]).ok().unwrap();
    let found: Vec<&str> = only_py.iter().map(|e| e.path.as_str()).collect();
    assert_eq!(found, vec!["/r/top.py", "/r/sub/deep.py"]);
    let without_sub = make_index(&paths, &None, &tokens(&["sub", ".rs"])).ok().unwrap();
    let found: Vec<&str> = without_sub.iter().map(|e| e.path.as_str()).collect();
    assert_eq!(found, vec!["/r/top.py"]);
}

#[test]
fn the_index_fails_at_the_first_directory_that_cannot_be_listed() {
    let roots = vec![
        dir("/r", vec![file("/r/a.py", b"a"), dir("/r/sub", vec![locked("/r/sub/first")]), locked("/r/second")]),
        locked("/third"),
    ];
    let paths: Vec<&FsEntry> = roots.iter().collect();
    match make_index(&paths, &None, &[]) {
        Ok(_) => panic!("the index was built"),
        Err(e) => assert_eq!(e.path, "/r/sub/first"),
    }
    match make_index(&paths, &None, &tokens(&["sub", "second"])) {
        Ok(_) => panic!("the index was built"),
        Err(e) => assert_eq!(e.path, "/third"),
    }
    assert!(make_index(&paths, &None, &tokens(&["first", "second", "third"])).is_ok());
    let strange = vec![FsEntry::other("/dev/thing".to_string(), "thing".to_string())];
    let paths: Vec<&FsEntry> = strange.iter().collect();
    match make_index(&paths, &None, &[]) {
        Ok(_) => panic!("the index was built"),
        Err(e) => assert_eq!(e.path, "/dev/thing"),
    }
}

#[test]
fn files_that_cannot_be_counted_are_left_out_of_the_tally() {
    let roots = vec![
        file("/r/a.py", &lines(3)),
        unreadable("/r/b.py"),
        file("/r/c.bin", &[0xff, 0xfe, 0xfd]),
        file("/r/Makefile", &lines(2)),
        file("/r/d.py", b""),
    ];
    let index: Vec<&FsEntry> = roots.iter().collect();
    let tally = count(&index);
    assert_eq!(pairs(&tally), vec![(".".to_string(), 2), (".py".to_string(), 4)]);
    assert_eq!(count_file_lines(&roots[0]), Ok(3));
    assert_eq!(count_file_lines(&roots[1]), Err(ReadError::Unreadable));
    assert_eq!(count_file_lines(&roots[2]), Err(ReadError::NotText));
    assert_eq!(count_file_lines(&roots[4]), Ok(1));
    assert_eq!(count_file_lines(&locked("/r/x")), Err(ReadError::Unreadable));
}

#[test]
fn entry_checks() {
    assert!(name_has_dot("a.b"));
    assert!(name_has_dot("."));
    assert!(!name_has_dot("Makefile"));
    assert!(!name_has_dot(""));
    assert!(entry_is_text(&file("/r/a", b"text")));
    assert!(!entry_is_text(&file("/r/a", b"")));
    assert!(!entry_is_text(&unreadable("/r/a")));
    assert!(!entry_is_text(&dir("/r/a", vec![])));
}

#[test]
fn a_node_is_a_candidate_by_its_paths_and_its_location() {
    let roots = layout();
    let cwd = "/work".to_string();
    let rooted = make_tree(Some(cwd.clone()), &roots, &[], 0).ok().unwrap();
    assert!(should_report(&rooted, &cwd, 0));
    assert!(!should_report(&rooted, &cwd, 1));
    assert!(should_report(&rooted, &"/other".to_string(), 1));
    let unnamed = make_tree(None, &roots, &[], 0).ok().unwrap();
    assert!(should_report(&unnamed, &cwd, 0));
    assert!(should_report(&unnamed, &cwd, 1));
    let hollow = make_tree(None, &roots, &[], -1).ok().unwrap();
    assert!(!should_report(&hollow, &cwd, 0));
    assert!(!should_report(&hollow, &cwd, 1));
    let nothing: Vec<FsEntry> = vec![];
    let bare = make_tree(Some("/x".to_string()), &nothing, &[], 0).ok().unwrap();
    assert!(!should_report(&bare, &cwd, 0));
}

#[test]
fn a_node_with_an_empty_tally_is_not_reported() {
    let roots = vec![dir("/r", vec![dir("/r/a", vec![file("/r/a/blob.bin", &[0xff, 0x00, 0xc0])]), file("/r/b.py", b"x")])];
    let tree = make_tree(None, &roots, &[], 2).ok().unwrap();
    let reports = walk(&tree, &"/cwd".to_string(), &None, &[], 1).ok().unwrap();
    let locations: Vec<&str> = reports.iter().map(|r| r.location.as_str()).collect();
    assert_eq!(locations, vec!["", "/r"]);
    assert_eq!(pairs(&reports[0].tally), vec![(".py".to_string(), 1)]);
    assert_eq!(pairs(&reports[1].tally), vec![(".py".to_string(), 1)]);
}

#[test]
fn a_failed_report_adds_nothing() {
    let roots = vec![file("/r/a.py", b"x"), locked("/r/locked")];
    let good = vec![file("/r/a.py", b"x")];
    let cwd = "/cwd".to_string();
    let first = make_tree(Some("/one".to_string()), &good, &[], 0).ok().unwrap();
    let second = make_tree(Some("/two".to_string()), &roots, &[], 0).ok().unwrap();
    let mut out: Vec<Report> = Vec::new();
    assert!(report_node(&first, &cwd, &None, &[], 0, &mut out).is_ok());
    assert_eq!(out.len(), 1);
    match report_node(&second, &cwd, &None, &[], 0, &mut out) {
        Ok(_) => panic!("the report was made"),
        Err(e) => assert_eq!(e.path, "/r/locked"),
    }
    assert_eq!(summary(&out), vec![("/one".to_string(), 1, vec![(".py".to_string(), 1)])]);
}

#[test]
fn a_walk_fails_where_a_report_needs_a_listing() {
    let roots = vec![dir("/r", vec![file("/r/a.py", b"x"), locked("/r/locked")])];
    assert_eq!(path_of(scan(&roots, &"/r".to_string(), &None, &[], 0)), "/r/locked");
    assert_eq!(path_of(scan(&roots, &"/r".to_string(), &None, &[], 1)), "/r/locked");
    let reports = scan(&roots, &"/r".to_string(), &None, &tokens(&["locked"]), 0).ok().unwrap();
    assert_eq!(summary(&reports), vec![("/r".to_string(), 1, vec![(".py".to_string(), 1)])]);
}

#[test]
fn the_required_extension_does_not_reach_the_paths_of_a_node() {
    let roots = vec![dir("/r", vec![file("/r/a.py", &lines(2)), file("/r/b.rs", &lines(5))])];
    let required = Some(".py".to_string());
    let flat = scan(&roots, &"/r".to_string(), &required, &[], 0).ok().unwrap();
    assert_eq!(summary(&flat), vec![("/r".to_string(), 1, vec![(".py".to_string(), 2)])]);
    let apart = scan(&roots, &"/cwd".to_string(), &required, &[], 1).ok().unwrap();
    assert_eq!(
        summary(&apart),
        vec![
            ("".to_string(), 1, vec![(".py".to_string(), 2)]),
            (
                "/r".to_string(),
                2,
                vec![(".py".to_string(), 2), (".rs".to_string(), 5)]
            ),
        ]
    );
}
