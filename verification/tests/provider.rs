use protogen::config::Version;
use protogen::protoc::layout::{
    binary_name, platform, push_binary_path, push_include_path, target_platform, Arch, Os, Target,
};
use protogen::protoc::provider::github::{choose_asset, Asset, GithubDownloader};
use protogen::protoc::provider::{
    extract_zip, extraction_of, ArchiveEntry, DownloadError, Extraction, PathKind, ProtocProvider,
    ProvisionEvent, ProvisionStep, Stage,
};

const LINUX: Target = Target { os: Os::Linux, arch: Arch::X86_64 };

fn version(text: &str) -> Version {
    Version::parse(text).unwrap()
}

fn provider() -> ProtocProvider {
    ProtocProvider::new(&version("3.11.4"), "/home/u/.cache".to_string(), LINUX)
}

fn entry(name: &str, mode: Option<u32>, data: &[u8]) -> ArchiveEntry {
    ArchiveEntry { name: name.to_string(), mode, data: data.to_vec() }
}

fn archive() -> Vec<ArchiveEntry> {
    vec![
        entry("bin/", Some(0o40755), b""),
        entry("bin/protoc", Some(0o100755), b"#!binary"),
        entry("include/google/protobuf/any.proto", Some(0o100644), b"syntax = \"proto3\";"),
        entry("../readme.txt", Some(0o100600), b""),
    ]
}

fn assets(names: &[&str]) -> Vec<Asset> {
    names
        .iter()
        .map(|n| Asset {
            name: n.to_string(),
            browser_download_url: format!("https://dl.example/{}", n),
        })
        .collect()
}

#[test]
fn platform_tokens() {
    let token = |os, arch| target_platform(Target { os, arch });
    assert_eq!(token(Os::Windows, Arch::X86_64), "win64");
    assert_eq!(token(Os::Windows, Arch::X86), "win32");
    assert_eq!(token(Os::Linux, Arch::X86_64), "linux-x86_64");
    assert_eq!(token(Os::Linux, Arch::X86), "linux-x86_32");
    assert_eq!(token(Os::MacOs, Arch::X86_64), "osx-x86_64");
    assert_eq!(token(Os::MacOs, Arch::X86), "osx-x86_32");
    assert_eq!(platform(LINUX), target_platform(LINUX));
}

#[test]
fn binary_names() {
    assert_eq!(binary_name(Os::Windows), "protoc.exe");
    assert_eq!(binary_name(Os::Linux), "protoc");
    assert_eq!(binary_name(Os::MacOs), "protoc");
}

#[test]
fn layout_below_a_cache_directory() {
    let mut path = "/c/v1.0.0".to_string();
    push_binary_path(&mut path, Os::Linux);
    assert_eq!(path, "/c/v1.0.0/bin/protoc");
    let mut path = "/c/v1.0.0/".to_string();
    push_binary_path(&mut path, Os::Windows);
    assert_eq!(path, "/c/v1.0.0/bin/protoc.exe");
    let mut path = "/c/v1.0.0".to_string();
    push_include_path(&mut path);
    assert_eq!(path, "/c/v1.0.0/include");
}

#[test]
fn versions_are_read_as_semantic_versions() {
    let v = version("3.11.4");
    assert_eq!((v.major, v.minor, v.patch), (3, 11, 4));
    assert_eq!(v.pre, "");
    assert_eq!(v.build, "");
    let v = version("1.0.0-rc.1+build.5");
    assert_eq!((v.major, v.minor, v.patch), (1, 0, 0));
    assert_eq!(v.pre, "rc.1");
    assert_eq!(v.build, "build.5");
}

#[test]
fn texts_that_are_no_versions_are_refused() {
    for text in ["", "1.0", "1.0.01", "1.0.unknown", "1.0.0-", "v1.0.0", " 1.0.0", "1.0.0 ", "23456789999999999999.0.0"] {
        assert_eq!(Version::parse(text), None);
    }
}

#[test]
fn versions_are_written_as_they_were_read() {
    for text in ["3.11.4", "0.0.0", "1.0.0-rc.1", "1.0.0+b", "1.0.0-alpha.1+build.5", "18446744073709551615.10.100"] {
        assert_eq!(version(text).render(), text);
        assert_eq!(version(text).render(), semver::Version::parse(text).unwrap().to_string());
    }
}

#[test]
fn cache_paths_are_named_by_the_version() {
    let p = provider();
    assert_eq!(p.binary_location(), "/home/u/.cache/v3.11.4/bin/protoc");
    assert_eq!(p.include_location(), "/home/u/.cache/v3.11.4/include");
    let w = ProtocProvider::new(
        &version("3.0.0-rc.1"),
        "C:/cache/".to_string(),
        Target { os: Os::Windows, arch: Arch::X86 },
    );
    assert_eq!(w.binary_location(), "C:/cache/v3.0.0-rc.1/bin/protoc.exe");
    assert_eq!(w.include_location(), "C:/cache/v3.0.0-rc.1/include");
}

#[test]
fn binary_is_present_only_as_a_file() {
    let p = provider();
    assert_eq!(p.binary_path(PathKind::File), Some("/home/u/.cache/v3.11.4/bin/protoc"));
    assert_eq!(p.binary_path(PathKind::Dir), None);
    assert_eq!(p.binary_path(PathKind::Missing), None);
    assert_eq!(p.binary_path(PathKind::Other), None);
}

#[test]
fn include_directory_is_present_only_as_a_directory() {
    let p = provider();
    assert_eq!(p.include_path(PathKind::Dir), Some("/home/u/.cache/v3.11.4/include"));
    assert_eq!(p.include_path(PathKind::File), None);
    assert_eq!(p.include_path(PathKind::Missing), None);
    assert_eq!(p.include_path(PathKind::Other), None);
}

#[test]
fn extraction_of_a_file_entry() {
    assert_eq!(
        extraction_of(entry("bin/protoc", Some(0o100755), &[1, 2, 3]), "/c/v1"),
        Extraction {
            path: "/c/v1/bin/protoc".to_string(),
            parent: "/c/v1/bin".to_string(),
            directory: false,
            data: vec![1, 2, 3],
            mode: Some(0o100755),
        }
    );
}

#[test]
fn extraction_of_a_directory_entry() {
    assert_eq!(
        extraction_of(entry("include/", None, b""), "/c/v1/"),
        Extraction {
            path: "/c/v1/include".to_string(),
            parent: "/c/v1".to_string(),
            directory: true,
            data: Vec::new(),
            mode: None,
        }
    );
}

#[test]
fn archive_is_planned_entry_by_entry() {
    let plan = extract_zip(archive(), "/c/v3.11.4");
    assert_eq!(plan.len(), 4);
    assert_eq!(
        plan[0],
        Extraction {
            path: "/c/v3.11.4/bin".to_string(),
            parent: "/c/v3.11.4".to_string(),
            directory: true,
            data: Vec::new(),
            mode: Some(0o40755),
        }
    );
    assert_eq!(
        plan[1],
        Extraction {
            path: "/c/v3.11.4/bin/protoc".to_string(),
            parent: "/c/v3.11.4/bin".to_string(),
            directory: false,
            data: b"#!binary".to_vec(),
            mode: Some(0o100755),
        }
    );
    assert_eq!(plan[2].path, "/c/v3.11.4/include/google/protobuf/any.proto");
    assert_eq!(plan[2].parent, "/c/v3.11.4/include/google/protobuf");
    assert_eq!(plan[2].data, b"syntax = \"proto3\";".to_vec());
    assert_eq!(plan[2].mode, Some(0o100644));
    assert!(!plan[2].directory);
}

#[test]
fn archive_entries_stay_below_the_cache_directory() {
    let plan = extract_zip(archive(), "/c/v3.11.4");
    assert_eq!(plan[3].path, "/c/v3.11.4/readme.txt");
    assert_eq!(plan[3].parent, "/c/v3.11.4");
    assert_eq!(plan[3].mode, Some(0o100600));
    for (name, path) in [
        ("/etc/passwd", "/c/etc/passwd"),
        ("../../etc/passwd", "/c/etc/passwd"),
        ("a/../../b", "/c/a/b"),
        ("a\\..\\b", "/c/a/b"),
        ("C:\\x", "/c/C:/x"),
        ("./a/./b//c/", "/c/a/b/c"),
        ("bin/protoc\0/../../x", "/c/bin/protoc"),
        ("..", "/c/"),
        ("", "/c/"),
    ] {
        assert_eq!(extraction_of(entry(name, None, b""), "/c").path, path);
    }
}

#[test]
fn archive_without_entries_gives_an_empty_plan() {
    assert_eq!(extract_zip(Vec::new(), "/c"), Vec::new());
}

#[test]
fn provisioning_runs_through_its_stages() {
    let p = provider();
    let (stage, step) = p.download(Stage::Idle, ProvisionEvent::Start);
    assert_eq!(stage, Stage::Cleaning);
    assert_eq!(step, ProvisionStep::Clean { dir: "/home/u/.cache/v3.11.4".to_string() });
    let (stage, step) = p.download(stage, ProvisionEvent::Cleaned(Ok(())));
    assert_eq!(stage, Stage::Fetching);
    assert_eq!(
        step,
        ProvisionStep::Fetch {
            tag: "v3.11.4".to_string(),
            platform: "linux-x86_64".to_string(),
            dir: "/home/u/.cache/v3.11.4".to_string(),
        }
    );
    let name = "protoc-3.11.4-linux-x86_64.zip".to_string();
    let (stage, step) = p.download(stage, ProvisionEvent::Fetched(Ok(name)));
    assert_eq!(stage, Stage::Loading);
    assert_eq!(
        step,
        ProvisionStep::Load {
            path: "/home/u/.cache/v3.11.4/protoc-3.11.4-linux-x86_64.zip".to_string()
        }
    );
    let (stage, step) = p.download(stage, ProvisionEvent::Loaded(Ok(archive())));
    assert_eq!(stage, Stage::Unpacking);
    match step {
        ProvisionStep::Unpack { plan } => {
            assert_eq!(plan, extract_zip(archive(), "/home/u/.cache/v3.11.4"));
            assert_eq!(plan[1].path, p.binary_location());
        }
        other => panic!("{:?}", other),
    }
    let (stage, step) = p.download(stage, ProvisionEvent::Unpacked(Ok(())));
    assert_eq!(stage, Stage::Checking);
    assert_eq!(
        step,
        ProvisionStep::Check {
            binary: "/home/u/.cache/v3.11.4/bin/protoc".to_string(),
            includes: "/home/u/.cache/v3.11.4/include".to_string(),
        }
    );
    let found = ProvisionEvent::Checked { binary: PathKind::File, includes: PathKind::Dir };
    let (stage, step) = p.download(stage, found);
    assert_eq!(stage, Stage::Finished);
    assert_eq!(step, ProvisionStep::Done(Ok(())));
}

#[test]
fn provisioning_is_corrupted_unless_both_paths_are_present() {
    let p = provider();
    let kinds = [PathKind::Missing, PathKind::File, PathKind::Dir, PathKind::Other];
    for binary in kinds {
        for includes in kinds {
            let (stage, step) =
                p.download(Stage::Checking, ProvisionEvent::Checked { binary, includes });
            assert_eq!(stage, Stage::Finished);
            if binary == PathKind::File && includes == PathKind::Dir {
                assert_eq!(step, ProvisionStep::Done(Ok(())));
            } else {
                assert_eq!(step, ProvisionStep::Done(Err(DownloadError::Corrupted)));
            }
        }
    }
}

#[test]
fn provisioning_ends_not_found_without_asset_for_the_platform() {
    let p = provider();
    let fetched = GithubDownloader::new().download(
        &assets(&["protoc-3.11.4-osx-x86_64.zip", "protobuf-all-3.11.4.tar.gz"]),
        "linux-x86_64",
        "/home/u/.cache/v3.11.4",
    );
    assert_eq!(fetched, Err(DownloadError::NotFound));
    let (stage, step) = p.download(Stage::Fetching, ProvisionEvent::Fetched(Err(DownloadError::NotFound)));
    assert_eq!(stage, Stage::Finished);
    assert_eq!(step, ProvisionStep::Done(Err(DownloadError::NotFound)));
    assert_eq!(p.binary_path(PathKind::Missing), None);
    assert_eq!(p.include_path(PathKind::Missing), None);
}

#[test]
fn provisioning_ends_at_the_first_failure() {
    let p = provider();
    let io = |m: &str| ProvisionStep::Done(Err(DownloadError::Io(m.to_string())));
    assert_eq!(
        p.download(Stage::Cleaning, ProvisionEvent::Cleaned(Err("denied".to_string()))),
        (Stage::Finished, io("denied"))
    );
    assert_eq!(
        p.download(
            Stage::Fetching,
            ProvisionEvent::Fetched(Err(DownloadError::Request("timeout".to_string())))
        ),
        (Stage::Finished, ProvisionStep::Done(Err(DownloadError::Request("timeout".to_string()))))
    );
    assert_eq!(
        p.download(Stage::Loading, ProvisionEvent::Loaded(Err("gone".to_string()))),
        (Stage::Finished, io("gone"))
    );
    assert_eq!(
        p.download(Stage::Unpacking, ProvisionEvent::Unpacked(Err("full".to_string()))),
        (Stage::Finished, io("full"))
    );
}

#[test]
fn provisioning_refuses_events_out_of_turn() {
    let p = provider();
    let refused =
        || ProvisionStep::Done(Err(DownloadError::Io("event out of turn".to_string())));
    assert_eq!(p.download(Stage::Idle, ProvisionEvent::Cleaned(Ok(()))), (Stage::Finished, refused()));
    assert_eq!(p.download(Stage::Cleaning, ProvisionEvent::Start), (Stage::Finished, refused()));
    assert_eq!(p.download(Stage::Finished, ProvisionEvent::Start), (Stage::Finished, refused()));
    assert_eq!(
        p.download(Stage::Checking, ProvisionEvent::Unpacked(Ok(()))),
        (Stage::Finished, refused())
    );
    assert_eq!(
        p.download(Stage::Loading, ProvisionEvent::Fetched(Ok("x.zip".to_string()))),
        (Stage::Finished, refused())
    );
}

#[test]
fn download_error_messages() {
    assert_eq!(DownloadError::Io("a".to_string()).message(), "a");
    assert_eq!(DownloadError::Request("b".to_string()).message(), "b");
    assert_eq!(DownloadError::NotFound.message(), "not found");
    assert_eq!(DownloadError::Corrupted.message(), "corrupted");
}

#[test]
fn release_is_asked_for_by_its_tag() {
    assert_eq!(
        GithubDownloader::new().release_url("v3.11.4"),
        "https://api.github.com/repos/protocolbuffers/protobuf/releases/tags/v3.11.4"
    );
}

#[test]
fn platform_token_of_an_asset_name() {
    let github = GithubDownloader::new();
    let token = |name: &str| github.asset_platform(name);
    assert_eq!(token("protoc-3.11.4-linux-x86_64.zip"), Some("linux-x86_64".to_string()));
    assert_eq!(token("protoc-3.11.4-osx-x86_64.zip"), Some("osx-x86_64".to_string()));
    assert_eq!(token("protoc-3.11.4-win64.zip"), Some("win64".to_string()));
    assert_eq!(token("protoc-3.0.0-rc.1-linux-x86_32.zip"), Some("linux-x86_32".to_string()));
    assert_eq!(token("protobuf-all-3.11.4.tar.gz"), None);
    assert_eq!(token("protoc-3.11.4-freebsd.zip"), None);
    assert_eq!(token("protoc-3.11.4-win.zip"), None);
    assert_eq!(token(""), None);
}

#[test]
fn first_asset_for_the_platform_is_chosen() {
    let list = assets(&[
        "protobuf-all-3.11.4.zip",
        "protoc-3.11.4-linux-aarch_64.zip",
        "protoc-3.11.4-linux-x86_64.zip",
        "protoc-3.11.4-osx-x86_64.zip",
        "protoc-3.11.5-linux-x86_64.zip",
    ]);
    let out = GithubDownloader::new().download(&list, "linux-x86_64", "/c/v3.11.4").unwrap();
    assert_eq!(out.name, "protoc-3.11.4-linux-x86_64.zip");
    assert_eq!(out.url, "https://dl.example/protoc-3.11.4-linux-x86_64.zip");
    assert_eq!(out.destination, "/c/v3.11.4/protoc-3.11.4-linux-x86_64.zip");
    let out = GithubDownloader::new().download(&list, "osx-x86_64", "/c").unwrap();
    assert_eq!(out.name, "protoc-3.11.4-osx-x86_64.zip");
}

#[test]
fn platform_must_match_the_token_exactly() {
    let list = assets(&["protoc-3.11.4-linux-x86_64.zip"]);
    let github = GithubDownloader::new();
    assert_eq!(github.download(&list, "linux-x86", "/c").err(), Some(DownloadError::NotFound));
    assert_eq!(github.download(&list, "linux", "/c").err(), Some(DownloadError::NotFound));
    assert_eq!(github.download(&list, "x86_64", "/c").err(), Some(DownloadError::NotFound));
    assert_eq!(github.download(&Vec::new(), "linux-x86_64", "/c").err(), Some(DownloadError::NotFound));
}

#[test]
fn choose_asset_takes_the_first_equal_token() {
    let tokens = vec![
        None,
        Some("osx-x86_64".to_string()),
        Some("linux-x86_64".to_string()),
        Some("linux-x86_64".to_string()),
    ];
    assert_eq!(choose_asset(&tokens, "linux-x86_64"), Some(2));
    assert_eq!(choose_asset(&tokens, "osx-x86_64"), Some(1));
    assert_eq!(choose_asset(&tokens, "win64"), None);
    assert_eq!(choose_asset(&tokens, ""), None);
    assert_eq!(choose_asset(&Vec::new(), "win64"), None);
}
