use rsdk::client::{
    candidates_from_text, resolve_install_version, test_candidate_present, tools_from_text,
    ApiEndpoints,
};
use rsdk::decode::decode_versions;
use rsdk::home::RsdkHomeDir;
use rsdk::path::DirPath;
use rsdk::registry::RegistryState;
use rsdk::shell::make_current_assignments;
use rsdk::tool_version::ToolVersion;

fn api() -> ApiEndpoints {
    ApiEndpoints::new("https://api.sdkman.io/2", "linuxx64")
}

#[test]
fn endpoint_urls_are_exact() {
    let api = api();
    assert_eq!(api.tools_all_url(), "https://api.sdkman.io/2/candidates/all".to_string());
    assert_eq!(api.tools_list_url(), "https://api.sdkman.io/2/candidates/list".to_string());
    assert_eq!(
        api.tool_versions_url("java"),
        "https://api.sdkman.io/2/candidates/java/linuxx64/versions/list?installed=".to_string()
    );
    assert_eq!(
        api.default_version_url("java"),
        "https://api.sdkman.io/2/candidates/default/java".to_string()
    );
    assert_eq!(
        api.download_url("java", "21.0.1"),
        "https://api.sdkman.io/2/broker/download/java/21.0.1/linuxx64".to_string()
    );
}

#[test]
fn the_tool_list_is_comma_separated() {
    assert_eq!(
        tools_from_text("java,maven,gradle"),
        vec!["java".to_string(), "maven".to_string(), "gradle".to_string()]
    );
    assert_eq!(tools_from_text(""), vec!["".to_string()]);
}

#[test]
fn candidates_file_lines_are_trimmed_and_filtered() {
    assert_eq!(
        candidates_from_text(" java \n\nmaven\n  \n"),
        vec!["java".to_string(), "maven".to_string()]
    );
    assert!(test_candidate_present("java", &candidates_from_text("java\nmaven\n")));
    assert!(!test_candidate_present("rust", &candidates_from_text("java\nmaven\n")));
}

/// The catalog reports versions for `java`; an install with no explicit
/// version resolves to the catalog's stated default, and — being the only
/// installed version — it is marked default and current.
#[test]
fn first_install_resolves_default_and_becomes_current() {
    let listing = "===\nAvailable Versions\n===\n21.0.1 17.0.9\n===\n";
    let versions = decode_versions(listing);
    assert_eq!(versions, vec!["21.0.1".to_string(), "17.0.9".to_string()]);

    // the default-version endpoint answers a bare version string
    let catalog_default = "21.0.1";
    let resolved = resolve_install_version(&None, catalog_default);
    assert_eq!(resolved, "21.0.1".to_string());
    // an explicit request wins over the catalog's default
    assert_eq!(
        resolve_install_version(&Some("17.0.9".to_string()), catalog_default),
        "17.0.9".to_string()
    );

    let home = RsdkHomeDir::from_root(DirPath {
        segments: vec!["".to_string(), "r".to_string()],
    });
    let mut reg = RegistryState::empty();
    let tv = ToolVersion::new(&home, "java", &resolved);
    assert!(!tv.is_installed(&reg));
    reg.apply_install("java", &resolved, 0);
    assert!(tv.is_installed(&reg));
    assert_eq!(tv.path().render(), "/r/tools/java/21.0.1".to_string());

    // the only installed version of the tool: mark it default and current
    let installed = home.installed_versions(&reg, "java");
    assert_eq!(installed.len(), 1);
    tv.make_default(&mut reg);
    assert!(tv.is_default(&reg));
    let assignments = make_current_assignments(&tv, &vec![]);
    assert!(tv.is_current(&Some(assignments[1].value.clone())));
}
