use protogen::protoc::compiler::go::{
    derive_module, import_path, package_path, Ancestor, GoCompiler, GoError, Segment,
};
use protogen::protoc::compiler::{AnyCompiler, Plugin};
use protogen::walk::directory::{DirEntry, DirEvent, FileKind};
use protogen::walk::deep::Progress;
use protogen::walk::WalkError;

fn strings(items: &[&str]) -> Vec<String> {
    items.iter().map(|s| s.to_string()).collect()
}

fn ancestor(segment: &str, names: &[&str]) -> Ancestor {
    Ancestor { names: strings(names), failure: None, segment: Segment::Text(segment.to_string()) }
}

fn two_below_root() -> Vec<Ancestor> {
    vec![
        ancestor("b", &["x.go"]),
        ancestor("a", &["b"]),
        ancestor("repo", &["a", "go.mod", "go.sum"]),
        ancestor("src", &["repo"]),
    ]
}

fn go_plugin() -> Plugin {
    Plugin::new("go".to_string(), "/src/repo/a/b".to_string())
}

fn compiler() -> GoCompiler {
    GoCompiler::new(
        "/cache/bin/protoc".to_string(),
        go_plugin(),
        Ok(b"example.com/repo\n".to_vec()),
        &vec![ancestor("out", &["go.mod"])],
    )
    .unwrap()
}

#[test]
fn module_is_the_output_without_its_line_break() {
    assert_eq!(derive_module(b"example.com/repo\n".to_vec()), Ok("example.com/repo".to_string()));
    assert_eq!(derive_module(b"example.com/repo".to_vec()), Ok("example.com/repo".to_string()));
    assert_eq!(derive_module(b"m\n\n".to_vec()), Ok("m\n".to_string()));
    assert_eq!(derive_module(b"\n".to_vec()), Ok(String::new()));
    assert_eq!(derive_module(Vec::new()), Ok(String::new()));
    assert_eq!(derive_module("mödul\n".as_bytes().to_vec()), Ok("mödul".to_string()));
}

#[test]
fn module_output_that_is_no_text_is_refused() {
    assert!(matches!(derive_module(vec![0x66, 0xff, 0x0a]), Err(GoError::Parsing(_))));
}

#[test]
fn package_path_collects_segments_below_the_module_root() {
    assert_eq!(package_path(&two_below_root()), Ok(strings(&["b", "a"])));
}

#[test]
fn package_path_at_the_module_root_is_empty() {
    assert_eq!(package_path(&vec![ancestor("repo", &["go.mod"])]), Ok(Vec::new()));
}

#[test]
fn package_path_without_marker_finds_no_module() {
    let mut up = vec![ancestor("b", &[]), ancestor("a", &["b", "go.mod.bak"])];
    up.push(Ancestor { names: strings(&["a"]), failure: None, segment: Segment::Root });
    assert_eq!(package_path(&up), Err(GoError::NoModules));
    assert_eq!(package_path(&vec![ancestor("b", &[])]), Err(GoError::NoModules));
    assert_eq!(package_path(&Vec::new()), Err(GoError::NoModules));
}

#[test]
fn package_path_stops_at_the_root_of_the_file_system() {
    let up = vec![
        Ancestor { names: Vec::new(), failure: None, segment: Segment::Root },
        ancestor("never", &["go.mod"]),
    ];
    assert_eq!(package_path(&up), Err(GoError::NoModules));
}

#[test]
fn package_path_segment_that_is_no_text() {
    let up = vec![
        ancestor("b", &[]),
        Ancestor { names: Vec::new(), failure: None, segment: Segment::NotText },
        ancestor("repo", &["go.mod"]),
    ];
    assert_eq!(
        package_path(&up),
        Err(GoError::Parsing("failed to convert Path to String".to_string()))
    );
}

#[test]
fn package_path_unreadable_directory() {
    let up = vec![
        ancestor("b", &[]),
        Ancestor {
            names: strings(&["x"]),
            failure: Some("denied".to_string()),
            segment: Segment::Text("a".to_string()),
        },
        ancestor("repo", &["go.mod"]),
    ];
    assert_eq!(package_path(&up), Err(GoError::Io("denied".to_string())));
}

#[test]
fn package_path_marker_seen_before_the_failure_counts() {
    let up = vec![Ancestor {
        names: strings(&["go.mod"]),
        failure: Some("denied".to_string()),
        segment: Segment::NotText,
    }];
    assert_eq!(package_path(&up), Ok(Vec::new()));
}

#[test]
fn import_path_is_module_then_segments_from_the_root_down() {
    assert_eq!(
        import_path("example.com/repo".to_string(), &strings(&["b", "a"])),
        "example.com/repo/a/b"
    );
    assert_eq!(import_path("example.com/repo".to_string(), &Vec::new()), "example.com/repo");
    assert_eq!(import_path("m".to_string(), &strings(&["z", "y", "x"])), "m/x/y/z");
}

#[test]
fn base_import_path_two_segments_below_the_module_root() {
    let go = GoCompiler::new(
        "/cache/bin/protoc".to_string(),
        go_plugin(),
        Ok(b"example.com/repo\n".to_vec()),
        &two_below_root(),
    )
    .unwrap();
    assert_eq!(go.import_path(), "example.com/repo/a/b");
}

#[test]
fn new_fails_when_the_module_query_could_not_be_run() {
    let out = GoCompiler::new(
        "protoc".to_string(),
        go_plugin(),
        Err("go: not found".to_string()),
        &two_below_root(),
    );
    assert_eq!(out.err(), Some(GoError::Io("go: not found".to_string())));
}

#[test]
fn new_fails_when_the_module_query_printed_no_text() {
    let out = GoCompiler::new("protoc".to_string(), go_plugin(), Ok(vec![0xc3]), &two_below_root());
    assert!(matches!(out, Err(GoError::Parsing(_))));
}

#[test]
fn new_fails_without_module_root() {
    let out = GoCompiler::new(
        "protoc".to_string(),
        go_plugin(),
        Ok(b"example.com/repo\n".to_vec()),
        &vec![ancestor("b", &[])],
    );
    assert_eq!(out.err(), Some(GoError::NoModules));
}

#[test]
fn mapping_option_for_a_file_in_a_subdirectory() {
    let mut go = compiler();
    go.map_packages("/inc", &vec![Ok("/inc/sub/msg.proto".to_string())]).unwrap();
    assert_eq!(
        go.command(),
        strings(&[
            "/cache/bin/protoc",
            "--plugin=protoc-gen-go",
            "--go_out=/src/repo/a/b",
            "--go_opt=Msub/msg.proto=example.com/repo/sub",
        ])
    );
}

#[test]
fn mapping_options_accumulate_in_order() {
    let mut go = compiler();
    go.add_include(
        "/inc".to_string(),
        &vec![Ok("/inc/sub/msg.proto".to_string()), Ok("/inc/top.proto".to_string())],
    )
    .unwrap();
    go.add_include("/p".to_string(), &vec![Ok("/p/a/b/c.proto".to_string())]).unwrap();
    go.add_include("/empty".to_string(), &Vec::new()).unwrap();
    assert_eq!(
        go.command(),
        strings(&[
            "/cache/bin/protoc",
            "-I",
            "/inc",
            "-I",
            "/p",
            "-I",
            "/empty",
            "--plugin=protoc-gen-go",
            "--go_out=/src/repo/a/b",
            "--go_opt=Msub/msg.proto=example.com/repo/sub,Mtop.proto=example.com/repo/,Ma/b/c.proto=example.com/repo/a/b",
        ])
    );
}

#[test]
fn own_includes_are_added_without_mapping() {
    let mut go = compiler();
    go.set_compiler_includes("/cache/include".to_string());
    assert!(go.include_walker("/cache/include").is_none());
    go.add_include(
        "/cache/include".to_string(),
        &vec![Ok("/cache/include/google/any.proto".to_string())],
    )
    .unwrap();
    assert_eq!(
        go.command(),
        strings(&[
            "/cache/bin/protoc",
            "-I",
            "/cache/include",
            "--plugin=protoc-gen-go",
            "--go_out=/src/repo/a/b",
        ])
    );
}

#[test]
fn include_walker_begins_at_the_path_and_honours_the_output_excludes() {
    let mut go = compiler();
    go.set_compiler_includes("/cache/include".to_string());
    go.set_output_exludes(&strings(&["/p/vendor"]));
    let mut walker = go.include_walker("/p").unwrap();
    assert_eq!(walker.current().unwrap().path, "/p");
    assert!(!walker.current().unwrap().opened);
    assert!(walker.should_skip("/p/vendor"));
    assert!(!walker.should_skip("/p/api"));
    let vendor = DirEvent::Entry(DirEntry {
        path: "/p/vendor".to_string(),
        file_name: Some("vendor".to_string()),
        kind: FileKind::Dir,
    });
    assert_eq!(walker.next(vendor), Progress::Pending);
    assert_eq!(walker.next(DirEvent::End), Progress::Pending);
    assert!(walker.current().is_none());
}

#[test]
fn include_walker_without_excludes_skips_nothing() {
    let walker = compiler().include_walker("/p").unwrap();
    assert!(!walker.should_skip("/p/vendor"));
}

#[test]
fn mapping_stops_at_a_failure_and_keeps_what_was_mapped() {
    let mut go = compiler();
    let out = go.add_include(
        "/inc".to_string(),
        &vec![
            Ok("/inc/a.proto".to_string()),
            Err(WalkError::Io("denied".to_string())),
            Ok("/inc/b.proto".to_string()),
        ],
    );
    assert_eq!(out, Err(GoError::Io("denied".to_string())));
    assert_eq!(
        go.command(),
        strings(&[
            "/cache/bin/protoc",
            "--plugin=protoc-gen-go",
            "--go_out=/src/repo/a/b",
            "--go_opt=Ma.proto=example.com/repo/",
        ])
    );
}

#[test]
fn mapping_refuses_a_proto_from_elsewhere() {
    let mut go = compiler();
    let out = go.map_packages("/inc", &vec![Ok("/other/a.proto".to_string())]);
    assert_eq!(out, Err(GoError::Parsing("unrelated proto".to_string())));
    let out = go.map_packages("/inc", &vec![Err(WalkError::InvalidExclude)]);
    assert_eq!(out, Err(GoError::Io("related path expected".to_string())));
}

#[test]
fn mapping_fails_where_a_path_is_not_text() {
    let mut go = compiler();
    let out = go.add_include(
        "/inc".to_string(),
        &vec![Ok("/inc/a.proto".to_string()), Err(WalkError::NotText)],
    );
    assert_eq!(out, Err(GoError::Parsing("utf-8 path expected".to_string())));
}

#[test]
fn go_compiler_sets_protos_like_the_plain_one() {
    let mut go = compiler();
    go.set_protos(&vec![Ok("/p/a.proto".to_string())]).unwrap();
    assert_eq!(
        go.set_protos(&vec![Err(WalkError::Io("x".to_string()))]),
        Err(WalkError::Io("x".to_string()))
    );
    assert_eq!(go.duplicate(), go);
    assert_eq!(go.command().last().unwrap(), "/p/a.proto");
}

#[test]
fn any_compiler_go_maps_what_was_found() {
    let mut any = AnyCompiler::Go(compiler());
    assert!(any.include_walker("/inc").is_some());
    any.add_include("/inc".to_string(), &vec![Ok("/inc/sub/msg.proto".to_string())]).unwrap();
    any.set_protos(&vec![Ok("/inc/sub/msg.proto".to_string())]).unwrap();
    assert_eq!(
        any.command(),
        strings(&[
            "/cache/bin/protoc",
            "-I",
            "/inc",
            "--plugin=protoc-gen-go",
            "--go_out=/src/repo/a/b",
            "--go_opt=Msub/msg.proto=example.com/repo/sub",
            "/inc/sub/msg.proto",
        ])
    );
}

#[test]
fn go_error_messages() {
    assert_eq!(GoError::NoModules.message(), "no go.mod found");
    assert_eq!(GoError::Io("a".to_string()).message(), "a");
    assert_eq!(GoError::Parsing("b".to_string()).message(), "b");
}
