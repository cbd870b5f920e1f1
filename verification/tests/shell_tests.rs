use rsdk::home::RsdkHomeDir;
use rsdk::path::DirPath;
use rsdk::registry::RegistryState;
use rsdk::shell::{
    make_current_assignments, make_current_path_entries, render_path_list, render_set_env,
    version_from_home_path,
};
use rsdk::tool_version::{home_env, ToolVersion};

fn p(s: &str) -> DirPath {
    DirPath { segments: s.split('/').map(|x| x.to_string()).collect() }
}

#[test]
fn set_env_renders_per_shell() {
    assert_eq!(
        render_set_env("bash", "JAVA_HOME", "/x/y"),
        Some("export JAVA_HOME=\"/x/y\"".to_string())
    );
    assert_eq!(
        render_set_env("zsh", "JAVA_HOME", "/x/y"),
        Some("export JAVA_HOME=\"/x/y\"".to_string())
    );
    assert_eq!(
        render_set_env("sh", "PATH", "/a:/b"),
        Some("export PATH=\"/a:/b\"".to_string())
    );
    assert_eq!(
        render_set_env("powershell", "JAVA_HOME", "C:/x"),
        Some("$env:JAVA_HOME = 'C:/x'".to_string())
    );
    assert_eq!(
        render_set_env("fish", "JAVA_HOME", "/x"),
        Some("set -gx JAVA_HOME '/x'".to_string())
    );
    assert_eq!(render_set_env("tcsh", "JAVA_HOME", "/x"), None);
}

#[test]
fn home_env_upper_cases_the_tool() {
    assert_eq!(home_env("java"), "JAVA_HOME".to_string());
    assert_eq!(home_env("spring-boot"), "SPRING-BOOT_HOME".to_string());
}

#[test]
fn activation_puts_bin_first_and_drops_other_versions_of_the_tool() {
    let bin = p("/r/tools/java/21/bin");
    let tool_root = p("/r/tools/java");
    let existing = vec![p("/usr/bin"), p("/r/tools/java/17/bin"), p("/opt/x")];
    let entries = make_current_path_entries(&bin, &existing, &tool_root);
    let rendered = render_path_list(&entries);
    assert_eq!(rendered, "/r/tools/java/21/bin:/usr/bin:/opt/x".to_string());
}

#[test]
fn activation_emits_path_and_home_assignments() {
    let home = RsdkHomeDir::from_root(p("/r"));
    let tv = ToolVersion::new(&home, "java", "21");
    let existing = vec![p("/usr/bin")];
    let assignments = make_current_assignments(&tv, &existing);
    assert_eq!(assignments.len(), 2);
    assert_eq!(assignments[0].name, "PATH".to_string());
    assert_eq!(assignments[0].value, "/r/tools/java/21/bin:/usr/bin".to_string());
    assert_eq!(assignments[1].name, "JAVA_HOME".to_string());
    assert_eq!(assignments[1].value, "/r/tools/java/21".to_string());
}

#[test]
fn current_follows_the_home_variable() {
    let home = RsdkHomeDir::from_root(p("/r"));
    let tv = ToolVersion::new(&home, "java", "21");
    assert!(!tv.is_current(&None));
    assert!(!tv.is_current(&Some("/r/tools/java/17".to_string())));
    assert!(tv.is_current(&Some("/r/tools/java/21".to_string())));

    // the scenario of one install becoming current: the emitted home value
    // makes the pair current
    let mut reg = RegistryState::empty();
    reg.apply_install("java", "21", 0);
    let assignments = make_current_assignments(&tv, &vec![]);
    assert!(tv.is_current(&Some(assignments[1].value.clone())));
}

#[test]
fn version_is_the_last_path_component() {
    assert_eq!(version_from_home_path("/r/tools/java/21.0.1"), Some("21.0.1".to_string()));
    assert_eq!(version_from_home_path("/r/tools/java/21.0.1/"), Some("21.0.1".to_string()));
    assert_eq!(version_from_home_path("/"), None);
    assert_eq!(version_from_home_path(""), None);
}
