use rsdk::args::{debug, envout, insecure, shell, Cli, Command};
use rsdk::home::RsdkHomeDir;
use rsdk::path::DirPath;

fn p(s: &str) -> DirPath {
    DirPath { segments: s.split('/').map(|x| x.to_string()).collect() }
}

#[test]
fn paths_build_and_render_by_component() {
    let root = p("/home/u/.rsdk");
    assert_eq!(root.render(), "/home/u/.rsdk".to_string());
    let child = root.child("tools").child("java");
    assert_eq!(child.render(), "/home/u/.rsdk/tools/java".to_string());
    assert!(child.starts_with(&root));
    assert!(!root.starts_with(&child));
    assert!(child.path_eq(&p("/home/u/.rsdk/tools/java")));
    assert!(!child.path_eq(&root));
    assert_eq!(child.last_segment(), Some("java".to_string()));
    assert_eq!(DirPath::empty().last_segment(), None);
}

#[test]
fn prefixes_compare_whole_components() {
    // "ja" is not a component prefix of "java"
    assert!(!p("/r/tools/java").starts_with(&p("/r/tools/ja")));
}

#[test]
fn the_home_layout_is_fixed() {
    let home = RsdkHomeDir::from_root(p("/home/u/.rsdk"));
    assert_eq!(home.tools().render(), "/home/u/.rsdk/tools".to_string());
    assert_eq!(home.cache().render(), "/home/u/.rsdk/cache".to_string());
    assert_eq!(home.temp().render(), "/home/u/.rsdk/temp".to_string());
    assert_eq!(home.tool_dir("java").render(), "/home/u/.rsdk/tools/java".to_string());
    assert_eq!(
        home.default_symlink_path("java").render(),
        "/home/u/.rsdk/tools/java/default".to_string()
    );
}

#[test]
fn cli_accessors_read_the_parsed_arguments() {
    let cli = Cli {
        command: Some(Command::Install {
            tool: "java".to_string(),
            version: None,
            default: true,
        }),
        debug: true,
        shell: Some("bash".to_string()),
        envout: Some("/tmp/envout".to_string()),
        insecure: false,
    };
    assert!(debug(&cli));
    assert!(!insecure(&cli));
    assert_eq!(shell(&cli), Some("bash".to_string()));
    assert_eq!(envout(&cli), Some("/tmp/envout".to_string()));
}
