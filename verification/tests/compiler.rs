use protogen::config;
use protogen::protoc::compiler::plain::PlainCompiler;
use protogen::protoc::compiler::{AnyCompiler, Plugin};
use protogen::walk::WalkError;

fn strings(items: &[&str]) -> Vec<String> {
    items.iter().map(|s| s.to_string()).collect()
}

fn grpc() -> Plugin {
    let mut plugin = Plugin::new("grpc".to_string(), "/out".to_string());
    plugin.add_option("x".to_string());
    plugin.add_option("y".to_string());
    plugin
}

#[test]
fn plugin_args_with_options() {
    assert_eq!(
        grpc().args(),
        strings(&["--plugin=protoc-gen-grpc", "--grpc_out=/out", "--grpc_opt=x,y"])
    );
}

#[test]
fn plugin_args_without_options_omit_the_opt_argument() {
    let plugin = Plugin::new("grpc".to_string(), "/out".to_string());
    assert_eq!(plugin.args(), strings(&["--plugin=protoc-gen-grpc", "--grpc_out=/out"]));
}

#[test]
fn plugin_args_with_explicit_path() {
    let mut plugin = Plugin::new("doc".to_string(), "gen/docs".to_string());
    plugin.set_path("/opt/bin/protoc-gen-doc".to_string());
    plugin.add_option("html,index.html".to_string());
    assert_eq!(
        plugin.args(),
        strings(&[
            "--plugin=protoc-gen-doc=/opt/bin/protoc-gen-doc",
            "--doc_out=gen/docs",
            "--doc_opt=html,index.html",
        ])
    );
}

#[test]
fn plugin_args_with_one_option() {
    let mut plugin = Plugin::new("go".to_string(), ".".to_string());
    plugin.add_option("paths=source_relative".to_string());
    assert_eq!(
        plugin.args(),
        strings(&["--plugin=protoc-gen-go", "--go_out=.", "--go_opt=paths=source_relative"])
    );
}

#[test]
fn plugin_getters() {
    let plugin = grpc();
    assert_eq!(plugin.name(), "grpc");
    assert_eq!(plugin.output(), "/out");
    assert_eq!(plugin.duplicate(), plugin);
}

#[test]
fn plugin_from_configuration() {
    let entry = config::Plugin {
        name: "go".to_string(),
        output: "gen".to_string(),
        options: Some("plugins=grpc,paths=source_relative".to_string()),
        path: Some("/bin/protoc-gen-go".to_string()),
    };
    assert_eq!(
        Plugin::from(entry).args(),
        strings(&[
            "--plugin=protoc-gen-go=/bin/protoc-gen-go",
            "--go_out=gen",
            "--go_opt=plugins=grpc,paths=source_relative",
        ])
    );
}

#[test]
fn plugin_of_a_borrowed_configuration_entry() {
    let entry = config::Plugin {
        name: "go".to_string(),
        output: "gen".to_string(),
        options: Some("a,,b".to_string()),
        path: None,
    };
    assert_eq!(Plugin::of(&entry), Plugin::from(entry.clone()));
    assert_eq!(
        Plugin::of(&entry).args(),
        strings(&["--plugin=protoc-gen-go", "--go_out=gen", "--go_opt=a,,b"])
    );
}

#[test]
fn plugin_from_configuration_without_options() {
    let entry = config::Plugin {
        name: "js".to_string(),
        output: "gen".to_string(),
        options: None,
        path: None,
    };
    assert_eq!(Plugin::from(entry).args(), strings(&["--plugin=protoc-gen-js", "--js_out=gen"]));
}

#[test]
fn plugin_from_configuration_with_empty_option_text() {
    let entry = config::Plugin {
        name: "js".to_string(),
        output: "gen".to_string(),
        options: Some(String::new()),
        path: None,
    };
    assert_eq!(
        Plugin::from(entry).args(),
        strings(&["--plugin=protoc-gen-js", "--js_out=gen", "--js_opt="])
    );
}

#[test]
fn command_renders_binary_includes_plugin_and_protos() {
    let mut compiler = PlainCompiler::new("/cache/bin/protoc".to_string(), grpc());
    compiler.add_include("/cache/include".to_string());
    compiler.add_include("/p".to_string());
    compiler
        .set_protos(&vec![Ok("/p/api/a.proto".to_string()), Ok("/p/api/b.proto".to_string())])
        .unwrap();
    assert_eq!(
        compiler.command(),
        strings(&[
            "/cache/bin/protoc",
            "-I",
            "/cache/include",
            "-I",
            "/p",
            "--plugin=protoc-gen-grpc",
            "--grpc_out=/out",
            "--grpc_opt=x,y",
            "/p/api/a.proto",
            "/p/api/b.proto",
        ])
    );
}

#[test]
fn command_of_a_new_compiler() {
    let compiler = PlainCompiler::new("protoc".to_string(), Plugin::new("js".to_string(), "o".to_string()));
    assert_eq!(compiler.command(), strings(&["protoc", "--plugin=protoc-gen-js", "--js_out=o"]));
}

#[test]
fn include_paths_keep_order_and_duplicates() {
    let mut compiler = PlainCompiler::new("protoc".to_string(), Plugin::new("js".to_string(), "o".to_string()));
    compiler.add_include("b".to_string());
    compiler.add_include("a".to_string());
    compiler.add_include("b".to_string());
    assert_eq!(
        compiler.command(),
        strings(&["protoc", "-I", "b", "-I", "a", "-I", "b", "--plugin=protoc-gen-js", "--js_out=o"])
    );
}

#[test]
fn set_protos_replaces_the_list() {
    let mut compiler = PlainCompiler::new("protoc".to_string(), Plugin::new("js".to_string(), "o".to_string()));
    compiler.set_protos(&vec![Ok("one.proto".to_string()), Ok("two.proto".to_string())]).unwrap();
    compiler.set_protos(&vec![Ok("three.proto".to_string())]).unwrap();
    assert_eq!(
        compiler.duplicate().command(),
        strings(&["protoc", "--plugin=protoc-gen-js", "--js_out=o", "three.proto"])
    );
    compiler.set_protos(&vec![]).unwrap();
    assert_eq!(compiler.command(), strings(&["protoc", "--plugin=protoc-gen-js", "--js_out=o"]));
}

#[test]
fn set_protos_hands_on_the_first_failure_and_keeps_the_list() {
    let mut compiler = PlainCompiler::new("protoc".to_string(), Plugin::new("js".to_string(), "o".to_string()));
    compiler.set_protos(&vec![Ok("kept.proto".to_string())]).unwrap();
    let out = compiler.set_protos(&vec![
        Ok("new.proto".to_string()),
        Err(WalkError::Io("first".to_string())),
        Ok("later.proto".to_string()),
        Err(WalkError::Io("second".to_string())),
    ]);
    assert_eq!(out, Err(WalkError::Io("first".to_string())));
    assert_eq!(
        compiler.command(),
        strings(&["protoc", "--plugin=protoc-gen-js", "--js_out=o", "kept.proto"])
    );
}

#[test]
fn plugin_options_can_be_added_to_a_compiler() {
    let mut compiler = PlainCompiler::new("protoc".to_string(), Plugin::new("js".to_string(), "o".to_string()));
    compiler.add_plugin_option("binary".to_string());
    assert_eq!(
        compiler.command(),
        strings(&["protoc", "--plugin=protoc-gen-js", "--js_out=o", "--js_opt=binary"])
    );
}

#[test]
fn any_compiler_plain_needs_no_walk() {
    let mut compiler = AnyCompiler::Plain(PlainCompiler::new("protoc".to_string(), grpc()));
    assert!(compiler.include_walker("/p").is_none());
    compiler
        .add_include("/p".to_string(), &vec![Err(WalkError::Io("ignored".to_string()))])
        .unwrap();
    compiler.set_protos(&vec![Ok("/p/a.proto".to_string())]).unwrap();
    assert_eq!(compiler.duplicate(), compiler);
    assert_eq!(
        compiler.command(),
        strings(&[
            "protoc",
            "-I",
            "/p",
            "--plugin=protoc-gen-grpc",
            "--grpc_out=/out",
            "--grpc_opt=x,y",
            "/p/a.proto",
        ])
    );
}
