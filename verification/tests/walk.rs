use protogen::walk::deep::{DeepProtoWalker, Progress};
use protogen::walk::directory::{DirEntry, DirEvent, Directory, EntryType, FileKind};
use protogen::walk::{ExcludeSet, PageStep, PagingProtoWalker, WalkError};

fn paths(items: &[&str]) -> Vec<String> {
    items.iter().map(|s| s.to_string()).collect()
}

/// A file system in memory: each directory with its entries in reading order.
struct Disk {
    dirs: Vec<(String, Vec<(String, FileKind)>)>,
    unreadable: Vec<String>,
}

impl Disk {
    fn new() -> Disk {
        Disk { dirs: Vec::new(), unreadable: Vec::new() }
    }

    fn dir(mut self, path: &str, entries: &[(&str, FileKind)]) -> Disk {
        self.dirs.push((
            path.to_string(),
            entries.iter().map(|(n, k)| (n.to_string(), *k)).collect(),
        ));
        self
    }

    fn unreadable(mut self, path: &str) -> Disk {
        self.unreadable.push(path.to_string());
        self
    }

    fn pull(&self, dir: &str, cursor: usize) -> DirEvent {
        if self.unreadable.iter().any(|p| p == dir) {
            return DirEvent::OpenFailed(format!("cannot open {}", dir));
        }
        let listing = match self.dirs.iter().find(|(p, _)| p == dir) {
            Some((_, listing)) => listing,
            None => return DirEvent::OpenFailed(format!("no such directory {}", dir)),
        };
        match listing.get(cursor) {
            None => DirEvent::End,
            Some((name, kind)) => DirEvent::Entry(DirEntry {
                path: format!("{}/{}", dir, name),
                file_name: Some(name.clone()),
                kind: *kind,
            }),
        }
    }
}

/// Runs a deep walk to its end or to its first failure.
fn drain(mut walker: DeepProtoWalker, disk: &Disk) -> Vec<Result<String, WalkError>> {
    let mut out = Vec::new();
    let mut cursor = 0;
    let mut steps = 0;
    loop {
        steps += 1;
        assert!(steps < 10_000);
        let (dir, opened) = match walker.current() {
            None => return out,
            Some(directory) => (directory.path.clone(), directory.opened),
        };
        if !opened {
            cursor = 0;
        }
        let event = disk.pull(&dir, cursor);
        cursor += 1;
        match walker.next(event) {
            Progress::Yielded(path) => out.push(Ok(path)),
            Progress::Failed(e) => {
                out.push(Err(e));
                return out;
            }
            Progress::Pending => {}
            Progress::Finished => return out,
        }
    }
}

fn found(items: Vec<Result<String, WalkError>>) -> Vec<String> {
    let mut out: Vec<String> = items.into_iter().map(|r| r.unwrap()).collect();
    out.sort();
    out
}

fn project() -> Disk {
    Disk::new()
        .dir(
            "/p/api",
            &[
                ("a.proto", FileKind::File),
                ("v1", FileKind::Dir),
                ("notes.txt", FileKind::File),
                ("v2", FileKind::Dir),
                ("link.proto", FileKind::Other),
                ("b.proto", FileKind::File),
            ],
        )
        .dir("/p/api/v1", &[("c.proto", FileKind::File), ("deep", FileKind::Dir)])
        .dir("/p/api/v1/deep", &[("d.proto", FileKind::File)])
        .dir("/p/api/v2", &[("e.proto", FileKind::File), ("dir.proto", FileKind::Dir)])
        .dir("/p/api/v2/dir.proto", &[("f.proto", FileKind::File)])
}

#[test]
fn exclude_set_resolves_against_the_root() {
    let set = ExcludeSet::resolve("/p", &paths(&["api/v1", "vendor"])).unwrap();
    assert!(set.contains("/p/api/v1"));
    assert!(set.contains("/p/vendor"));
    assert!(!set.contains("/p/api"));
    assert!(!set.contains("api/v1"));
    assert!(!set.contains("/p/api/v1/c.proto"));
}

#[test]
fn exclude_set_compares_whole_paths() {
    let set = ExcludeSet::resolve("/p", &paths(&["api"])).unwrap();
    assert!(set.contains("/p/api"));
    assert!(!set.contains("/p/ap"));
    assert!(!set.contains("/p/apis"));
    assert!(!set.contains("/p"));
    assert!(!set.contains("/p/api/v1"));
    assert!(!set.contains("/p/x/../api"));
}

#[test]
fn exclude_set_takes_one_path_written_in_many_ways() {
    for written in ["gen", "gen/", "./gen", "gen/.", ".//gen//"] {
        let set = ExcludeSet::resolve("/p", &paths(&[written])).unwrap();
        assert!(set.contains("/p/gen"), "{}", written);
        assert!(set.contains("/p/gen/"), "{}", written);
        assert!(set.contains("/p//gen"), "{}", written);
        assert!(!set.contains("/p/gen/x"), "{}", written);
        assert!(!set.contains("p/gen"), "{}", written);
    }
    let nested = ExcludeSet::resolve("/p/", &paths(&["a//b"])).unwrap();
    assert!(nested.contains("/p/a/b"));
    let given = ExcludeSet::from_paths(&paths(&["vendor/", "./x"]));
    assert!(given.contains("vendor"));
    assert!(given.contains("./x"));
    assert!(!given.contains("x"));
    assert!(given.duplicate().contains("vendor/."));
}

#[test]
fn deep_walk_passes_over_a_directory_excluded_with_a_slash_at_its_end() {
    let exclude = ExcludeSet::resolve("/p", &paths(&["api/v1/", "./api/v2"])).unwrap();
    let walker = DeepProtoWalker::new("/p/api".to_string(), exclude);
    assert_eq!(found(drain(walker, &project())), paths(&["/p/api/a.proto", "/p/api/b.proto"]));
}

#[test]
fn deep_walk_fails_at_a_directory_whose_path_is_not_text() {
    let mut walker = DeepProtoWalker::new("/r".to_string(), ExcludeSet::empty());
    let odd = |kind| DirEvent::NotText { path: "/r/\u{fffd}".to_string(), kind };
    assert_eq!(walker.next(odd(FileKind::File)), Progress::Pending);
    assert_eq!(walker.next(odd(FileKind::Other)), Progress::Pending);
    assert_eq!(walker.current(), Some(&Directory { path: "/r".to_string(), opened: true }));
    assert_eq!(walker.next(odd(FileKind::Dir)), Progress::Failed(WalkError::NotText));
    assert_eq!(WalkError::NotText.message(), "utf-8 path expected");
    let mut dir = Directory::new("/r".to_string());
    assert_eq!(
        dir.next(odd(FileKind::File)),
        Some(Ok(EntryType::Unknown("/r/\u{fffd}".to_string())))
    );
    assert_eq!(dir.next(odd(FileKind::Dir)), Some(Err(WalkError::NotText)));
}

#[test]
fn paging_walk_fails_at_a_directory_whose_path_is_not_text() {
    let mut walker = PagingProtoWalker::new("/p".to_string());
    let odd = |kind| DirEvent::NotText { path: "/p/\u{fffd}".to_string(), kind };
    assert!(matches!(walker.next(odd(FileKind::File)), PageStep::Pending));
    assert!(walker.is_open());
    match walker.next(odd(FileKind::Dir)) {
        PageStep::Failed(e) => assert_eq!(e, WalkError::NotText),
        other => panic!("{:?}", other),
    }
}

#[test]
fn exclude_set_refuses_absolute_paths() {
    let out = ExcludeSet::resolve("/p", &paths(&["api", "/etc"]));
    assert_eq!(out.err(), Some(WalkError::InvalidExclude));
}

#[test]
fn exclude_set_without_paths_excludes_nothing() {
    assert!(!ExcludeSet::empty().contains("/p"));
    assert!(!ExcludeSet::resolve("/p", &paths(&[])).unwrap().contains("/p"));
    let copy = ExcludeSet::from_paths(&paths(&["/x"])).duplicate();
    assert!(copy.contains("/x"));
    assert!(!copy.contains("/y"));
}

#[test]
fn walk_error_messages() {
    assert_eq!(WalkError::Io("denied".to_string()).message(), "denied");
    assert_eq!(WalkError::InvalidExclude.message(), "related path expected");
    assert_eq!(WalkError::Io("x".to_string()).duplicate(), WalkError::Io("x".to_string()));
}

#[test]
fn entries_are_classified_by_kind_and_name() {
    let dir = Directory::new("/p".to_string());
    let entry = |name: Option<&str>, kind| DirEntry {
        path: "/p/x".to_string(),
        file_name: name.map(|n| n.to_string()),
        kind,
    };
    assert_eq!(
        dir.inspect_entry(entry(Some("a.proto"), FileKind::File)),
        EntryType::Proto("/p/x".to_string())
    );
    assert_eq!(
        dir.inspect_entry(entry(Some("a.proto"), FileKind::Dir)),
        EntryType::Dir("/p/x".to_string())
    );
    assert_eq!(
        dir.inspect_entry(entry(Some("a.proto"), FileKind::Other)),
        EntryType::Unknown("/p/x".to_string())
    );
    assert_eq!(
        dir.inspect_entry(entry(Some("a.protobuf"), FileKind::File)),
        EntryType::Unknown("/p/x".to_string())
    );
    assert_eq!(
        dir.inspect_entry(entry(Some("proto"), FileKind::File)),
        EntryType::Unknown("/p/x".to_string())
    );
    assert_eq!(
        dir.inspect_entry(entry(None, FileKind::File)),
        EntryType::Unknown("/p/x".to_string())
    );
    assert_eq!(
        dir.inspect_entry(entry(Some(".proto"), FileKind::File)),
        EntryType::Proto("/p/x".to_string())
    );
}

#[test]
fn directory_opens_on_first_answer() {
    let mut dir = Directory::new("/p".to_string());
    assert!(!dir.opened);
    assert_eq!(
        dir.next(DirEvent::OpenFailed("denied".to_string())),
        Some(Err(WalkError::Io("denied".to_string())))
    );
    assert!(!dir.opened);
    assert_eq!(
        dir.next(DirEvent::ReadFailed("broken".to_string())),
        Some(Err(WalkError::Io("broken".to_string())))
    );
    assert!(dir.opened);
    assert_eq!(dir.next(DirEvent::End), None);
    assert_eq!(dir.path, "/p");
}

#[test]
fn deep_walk_finds_every_proto_once() {
    let walker = DeepProtoWalker::new("/p/api".to_string(), ExcludeSet::empty());
    let out = found(drain(walker, &project()));
    assert_eq!(
        out,
        paths(&[
            "/p/api/a.proto",
            "/p/api/b.proto",
            "/p/api/v1/c.proto",
            "/p/api/v1/deep/d.proto",
            "/p/api/v2/dir.proto/f.proto",
            "/p/api/v2/e.proto",
        ])
    );
}

#[test]
fn deep_walk_reads_a_directory_to_its_end_before_the_next() {
    let walker = DeepProtoWalker::new("/p/api".to_string(), ExcludeSet::empty());
    let out: Vec<String> = drain(walker, &project()).into_iter().map(|r| r.unwrap()).collect();
    assert_eq!(
        out,
        paths(&[
            "/p/api/a.proto",
            "/p/api/b.proto",
            "/p/api/v2/e.proto",
            "/p/api/v2/dir.proto/f.proto",
            "/p/api/v1/c.proto",
            "/p/api/v1/deep/d.proto",
        ])
    );
}

#[test]
fn deep_walk_passes_over_excluded_files_and_directories() {
    let exclude = ExcludeSet::resolve("/p", &paths(&["api/v1", "api/b.proto"])).unwrap();
    let walker = DeepProtoWalker::new("/p/api".to_string(), exclude);
    let out = found(drain(walker, &project()));
    assert_eq!(
        out,
        paths(&["/p/api/a.proto", "/p/api/v2/dir.proto/f.proto", "/p/api/v2/e.proto"])
    );
}

#[test]
fn deep_walk_does_not_exclude_by_prefix() {
    let exclude = ExcludeSet::resolve("/p", &paths(&["api/v1/deep/d.proto/x", "api/v"])).unwrap();
    let walker = DeepProtoWalker::new("/p/api".to_string(), exclude);
    assert_eq!(drain(walker, &project()).len(), 6);
}

#[test]
fn deep_walk_never_opens_an_excluded_directory() {
    let disk = project().unreadable("/p/api/v1");
    let exclude = ExcludeSet::resolve("/p", &paths(&["api/v1"])).unwrap();
    let walker = DeepProtoWalker::new("/p/api".to_string(), exclude);
    let out = drain(walker, &disk);
    assert!(out.iter().all(|r| r.is_ok()));
    assert_eq!(out.len(), 4);
}

#[test]
fn deep_walk_expands_its_root_even_if_excluded() {
    let exclude = ExcludeSet::resolve("/p", &paths(&["api"])).unwrap();
    let walker = DeepProtoWalker::new("/p/api".to_string(), exclude);
    assert_eq!(drain(walker, &project()).len(), 6);
}

#[test]
fn deep_walk_repeated_yields_the_same() {
    let exclude = ExcludeSet::resolve("/p", &paths(&["api/v2"])).unwrap();
    let first = drain(DeepProtoWalker::new("/p/api".to_string(), exclude.duplicate()), &project());
    let second = drain(DeepProtoWalker::new("/p/api".to_string(), exclude), &project());
    assert_eq!(first, second);
    assert_eq!(first.len(), 4);
}

#[test]
fn deep_walk_over_an_empty_directory_yields_nothing() {
    let disk = Disk::new().dir("/p/empty", &[]);
    let walker = DeepProtoWalker::new("/p/empty".to_string(), ExcludeSet::empty());
    assert!(walker.current().is_some());
    assert_eq!(drain(walker, &disk), Vec::new());
}

#[test]
fn deep_walk_hands_on_a_failure() {
    let disk = project().unreadable("/p/api/v2");
    let walker = DeepProtoWalker::new("/p/api".to_string(), ExcludeSet::empty());
    let out = drain(walker, &disk);
    assert_eq!(
        out,
        vec![
            Ok("/p/api/a.proto".to_string()),
            Ok("/p/api/b.proto".to_string()),
            Err(WalkError::Io("cannot open /p/api/v2".to_string())),
        ]
    );
}

#[test]
fn deep_walk_steps() {
    let mut walker = DeepProtoWalker::new("/r".to_string(), ExcludeSet::from_paths(&paths(&["/r/skip.proto"])));
    assert!(!walker.should_skip("/r/a.proto"));
    assert!(walker.should_skip("/r/skip.proto"));
    let entry = |name: &str, kind| {
        DirEvent::Entry(DirEntry {
            path: format!("/r/{}", name),
            file_name: Some(name.to_string()),
            kind,
        })
    };
    assert_eq!(walker.current(), Some(&Directory { path: "/r".to_string(), opened: false }));
    assert_eq!(walker.next(entry("skip.proto", FileKind::File)), Progress::Pending);
    assert_eq!(walker.current(), Some(&Directory { path: "/r".to_string(), opened: true }));
    assert_eq!(
        walker.next(entry("a.proto", FileKind::File)),
        Progress::Yielded("/r/a.proto".to_string())
    );
    assert_eq!(walker.next(entry("sub", FileKind::Dir)), Progress::Pending);
    assert_eq!(walker.current(), Some(&Directory { path: "/r".to_string(), opened: true }));
    assert_eq!(
        walker.next(DirEvent::ReadFailed("bad".to_string())),
        Progress::Failed(WalkError::Io("bad".to_string()))
    );
    assert_eq!(walker.next(DirEvent::End), Progress::Pending);
    assert_eq!(walker.current(), Some(&Directory { path: "/r/sub".to_string(), opened: false }));
    assert_eq!(walker.next(DirEvent::End), Progress::Pending);
    assert_eq!(walker.current(), None);
    assert_eq!(walker.next(DirEvent::End), Progress::Finished);
    assert_eq!(walker.next(entry("late.proto", FileKind::File)), Progress::Finished);
}

fn root_events() -> Vec<DirEvent> {
    let entry = |name: &str, kind| {
        DirEvent::Entry(DirEntry {
            path: format!("/p/{}", name),
            file_name: Some(name.to_string()),
            kind,
        })
    };
    vec![
        entry("api", FileKind::Dir),
        entry("README.md", FileKind::File),
        entry("top.proto", FileKind::File),
        entry("vendor", FileKind::Dir),
        entry("link", FileKind::Other),
        entry("docs", FileKind::Dir),
        DirEvent::End,
    ]
}

fn page_roots(walker: &mut PagingProtoWalker) -> Vec<String> {
    let mut out = Vec::new();
    for event in root_events() {
        match walker.next(event) {
            PageStep::Page(page) => out.push(page.current().unwrap().path.clone()),
            PageStep::Pending => {}
            PageStep::Finished => break,
            PageStep::Failed(e) => panic!("{:?}", e),
        }
    }
    out
}

#[test]
fn pages_are_the_directories_below_the_root() {
    let mut walker = PagingProtoWalker::new("/p".to_string());
    assert_eq!(walker.path(), "/p");
    assert!(!walker.is_open());
    assert_eq!(page_roots(&mut walker), paths(&["/p/api", "/p/vendor", "/p/docs"]));
    assert!(walker.is_open());
}

#[test]
fn excluded_directories_are_pages_too() {
    let mut walker = PagingProtoWalker::new("/p".to_string());
    walker.set_exclude(&paths(&["vendor"])).unwrap();
    assert_eq!(page_roots(&mut walker), paths(&["/p/api", "/p/vendor", "/p/docs"]));
}

#[test]
fn restarted_walk_yields_the_same_pages() {
    let mut walker = PagingProtoWalker::new("/p".to_string());
    walker.set_exclude(&paths(&["api/v1"])).unwrap();
    let first = page_roots(&mut walker);
    let mut again = walker.restart();
    assert!(!again.is_open());
    assert_eq!(page_roots(&mut again), first);
    let mut fresh = PagingProtoWalker::new("/p".to_string());
    fresh.set_exclude(&paths(&["api/v1"])).unwrap();
    assert_eq!(page_roots(&mut fresh), first);
}

#[test]
fn pages_share_the_exclude_set() {
    let mut walker = PagingProtoWalker::new("/p".to_string());
    walker.set_exclude(&paths(&["api/v1"])).unwrap();
    let mut again = walker.restart();
    for w in [&mut walker, &mut again] {
        match w.next(root_events().remove(0)) {
            PageStep::Page(page) => {
                assert!(page.should_skip("/p/api/v1"));
                assert!(!page.should_skip("/p/api/v2"));
                assert_eq!(found(drain(page, &project())).len(), 4);
            }
            other => panic!("{:?}", other),
        }
    }
}

#[test]
fn set_exclude_refuses_absolute_paths_and_keeps_the_old_set() {
    let mut walker = PagingProtoWalker::new("/p".to_string());
    walker.set_exclude(&paths(&["api/v1"])).unwrap();
    assert_eq!(walker.set_exclude(&paths(&["/abs"])), Err(WalkError::InvalidExclude));
    match walker.next(root_events().remove(0)) {
        PageStep::Page(page) => assert!(page.should_skip("/p/api/v1")),
        other => panic!("{:?}", other),
    }
}

#[test]
fn paging_walk_hands_on_failures() {
    let mut walker = PagingProtoWalker::new("/p".to_string());
    match walker.next(DirEvent::OpenFailed("gone".to_string())) {
        PageStep::Failed(e) => assert_eq!(e, WalkError::Io("gone".to_string())),
        other => panic!("{:?}", other),
    }
    assert!(!walker.is_open());
    match walker.next(DirEvent::ReadFailed("bad".to_string())) {
        PageStep::Failed(e) => assert_eq!(e, WalkError::Io("bad".to_string())),
        other => panic!("{:?}", other),
    }
    assert!(walker.is_open());
    assert!(matches!(walker.next(DirEvent::End), PageStep::Finished));
}
