use rsdk::home::RsdkHomeDir;
use rsdk::install::{install_plan, InstallError, ScratchEntry};
use rsdk::path::DirPath;
use rsdk::registry::{RegistryState, ToolDir, UninstallError, VersionDir};
use rsdk::tool_version::ToolVersion;

fn home() -> RsdkHomeDir {
    RsdkHomeDir::from_root(DirPath {
        segments: vec!["".to_string(), "home".to_string(), "u".to_string(), ".rsdk".to_string()],
    })
}

fn names(home: &RsdkHomeDir, reg: &RegistryState) -> Vec<(String, String)> {
    home.all_installed(reg).into_iter().map(|tv| (tv.tool, tv.version)).collect()
}

/// Immediately after an install the pair is installed.
#[test]
fn install_makes_the_pair_installed() {
    let home = home();
    let mut reg = RegistryState::empty();
    let tv = ToolVersion::new(&home, "java", "21.0.1");
    assert!(!tv.is_installed(&reg));
    reg.apply_install("java", "21.0.1", 7);
    assert!(tv.is_installed(&reg));
    assert_eq!(names(&home, &reg), vec![("java".to_string(), "21.0.1".to_string())]);
}

#[test]
fn installed_versions_filters_by_tool() {
    let home = home();
    let mut reg = RegistryState::empty();
    reg.apply_install("java", "21.0.1", 1);
    reg.apply_install("java", "17.0.9", 2);
    reg.apply_install("maven", "3.9.6", 3);
    let javas: Vec<String> =
        home.installed_versions(&reg, "java").into_iter().map(|tv| tv.version).collect();
    assert_eq!(javas, vec!["21.0.1".to_string(), "17.0.9".to_string()]);
    assert_eq!(home.installed_versions(&reg, "rust").len(), 0);
    assert_eq!(home.all_installed(&reg).len(), 3);
}

/// Replacing the default twice leaves one symlink, pointing at the second.
#[test]
fn make_default_twice_keeps_the_second() {
    let home = home();
    let mut reg = RegistryState::empty();
    reg.apply_install("java", "21.0.1", 1);
    reg.apply_install("java", "17.0.9", 2);
    let first = ToolVersion::new(&home, "java", "21.0.1");
    let second = ToolVersion::new(&home, "java", "17.0.9");
    first.make_default(&mut reg);
    assert!(first.is_default(&reg));
    second.make_default(&mut reg);
    assert!(!first.is_default(&reg));
    assert!(second.is_default(&reg));
    let def = home.default_version(&reg, "java").expect("a default is set");
    assert_eq!(def.version, "17.0.9".to_string());
    // exactly one default among the installed versions
    let defaults = home.all_defaults(&reg);
    assert_eq!(defaults.len(), 1);
    assert_eq!(defaults[0].version, "17.0.9".to_string());
}

/// Uninstalling a non-last version keeps the tool directory and promotes a
/// sibling to default when the removed version had been default.
#[test]
fn uninstall_promotes_a_sibling() {
    let home = home();
    let mut reg = RegistryState::empty();
    reg.apply_install("java", "21.0.1", 1);
    reg.apply_install("java", "17.0.9", 2);
    let first = ToolVersion::new(&home, "java", "21.0.1");
    first.make_default(&mut reg);
    let rep = home
        .apply_uninstall(&mut reg, "java", "21.0.1", &None)
        .expect("an installed pair uninstalls");
    assert!(rep.was_default);
    assert!(!rep.was_current);
    assert!(!rep.removed_last);
    let promoted = rep.promoted.expect("a sibling remains");
    assert_eq!(promoted.version, "17.0.9".to_string());
    assert!(!first.is_installed(&reg));
    assert!(promoted.is_installed(&reg));
    assert!(promoted.is_default(&reg));
}

/// Uninstalling the last remaining version removes the tool's directory
/// entirely.
#[test]
fn uninstall_of_the_last_version_removes_the_tool() {
    let home = home();
    let mut reg = RegistryState::empty();
    reg.apply_install("java", "21.0.1", 1);
    let rep = home
        .apply_uninstall(&mut reg, "java", "21.0.1", &None)
        .expect("an installed pair uninstalls");
    assert!(rep.removed_last);
    assert!(rep.promoted.is_none());
    assert_eq!(home.all_installed(&reg).len(), 0);
    assert_eq!(home.installed_versions(&reg, "java").len(), 0);
}

#[test]
fn uninstall_of_an_absent_pair_is_refused() {
    let home = home();
    let mut reg = RegistryState::empty();
    reg.apply_install("java", "21.0.1", 1);
    let r = home.apply_uninstall(&mut reg, "java", "11.0.2", &None);
    assert!(matches!(r, Err(UninstallError::NotInstalled)));
    let r = home.apply_uninstall(&mut reg, "rust", "1.0", &None);
    assert!(matches!(r, Err(UninstallError::NotInstalled)));
    // nothing changed
    assert_eq!(home.all_installed(&reg).len(), 1);
}

#[test]
fn uninstall_of_a_non_default_version_keeps_the_default() {
    let home = home();
    let mut reg = RegistryState::empty();
    reg.apply_install("java", "21.0.1", 1);
    reg.apply_install("java", "17.0.9", 2);
    let kept = ToolVersion::new(&home, "java", "21.0.1");
    kept.make_default(&mut reg);
    let rep = home
        .apply_uninstall(&mut reg, "java", "17.0.9", &None)
        .expect("an installed pair uninstalls");
    assert!(!rep.was_default);
    assert!(kept.is_default(&reg));
}

/// An extraction with other than exactly one top-level directory fails with
/// a layout error, and no plan means the version directory is never made.
#[test]
fn bad_layouts_give_no_plan() {
    let home = home();
    let tv = ToolVersion::new(&home, "java", "21.0.1");
    let work = home.temp().child("work");

    let none: Option<Vec<ScratchEntry>> = None;
    let r = install_plan(&tv, &none, &work, false, false);
    assert!(matches!(r, Err(InstallError::UnrecognizedFormat)));

    let empty: Option<Vec<ScratchEntry>> = Some(vec![]);
    let r = install_plan(&tv, &empty, &work, false, false);
    assert!(matches!(r, Err(InstallError::UnexpectedLayout)));

    let two = Some(vec![
        ScratchEntry { name: "a".to_string(), is_dir: true, content_id: 1 },
        ScratchEntry { name: "b".to_string(), is_dir: true, content_id: 2 },
    ]);
    let r = install_plan(&tv, &two, &work, false, false);
    assert!(matches!(r, Err(InstallError::UnexpectedLayout)));

    let file_only =
        Some(vec![ScratchEntry { name: "a.txt".to_string(), is_dir: false, content_id: 1 }]);
    let r = install_plan(&tv, &file_only, &work, false, false);
    assert!(matches!(r, Err(InstallError::UnexpectedLayout)));
}

#[test]
fn an_existing_target_needs_overwrite() {
    let home = home();
    let tv = ToolVersion::new(&home, "java", "21.0.1");
    let work = home.temp().child("work");
    let one = Some(vec![ScratchEntry {
        name: "jdk-21.0.1".to_string(),
        is_dir: true,
        content_id: 9,
    }]);
    let r = install_plan(&tv, &one, &work, true, false);
    assert!(matches!(r, Err(InstallError::AlreadyInstalled)));
    let plan = install_plan(&tv, &one, &work, true, true).expect("overwrite plans");
    assert!(plan.remove_existing);
    assert_eq!(plan.source.render(), "/home/u/.rsdk/temp/work/jdk-21.0.1".to_string());
    assert_eq!(plan.target.render(), "/home/u/.rsdk/tools/java/21.0.1".to_string());
    assert_eq!(plan.bin_dir.render(), "/home/u/.rsdk/tools/java/21.0.1/bin".to_string());
    assert_eq!(plan.content_id, 9);
}

/// A `default` symlink left dangling by an outside deletion marks nothing:
/// default state is recomputed from disk, and only installed versions count.
#[test]
fn a_stale_default_symlink_marks_no_version() {
    let home = home();
    let reg = RegistryState {
        tools: vec![ToolDir {
            name: "java".to_string(),
            versions: vec![VersionDir { version: "17.0.9".to_string(), content_id: 0 }],
            default_target: Some(DirPath {
                segments: "/home/u/.rsdk/tools/java/21.0.1"
                    .split('/')
                    .map(|s| s.to_string())
                    .collect(),
            }),
        }],
    };
    assert!(home.default_version(&reg, "java").is_none());
    assert_eq!(home.all_defaults(&reg).len(), 0);
    let gone = ToolVersion::new(&home, "java", "21.0.1");
    assert!(gone.is_default(&reg));
    assert!(!gone.is_installed(&reg));
}

#[test]
fn all_defaults_collects_one_pair_per_tool() {
    let home = home();
    let mut reg = RegistryState::empty();
    reg.apply_install("java", "21.0.1", 1);
    reg.apply_install("java", "17.0.9", 2);
    reg.apply_install("maven", "3.9.6", 3);
    ToolVersion::new(&home, "java", "17.0.9").make_default(&mut reg);
    ToolVersion::new(&home, "maven", "3.9.6").make_default(&mut reg);
    let defaults: Vec<(String, String)> =
        home.all_defaults(&reg).into_iter().map(|tv| (tv.tool, tv.version)).collect();
    assert_eq!(
        defaults,
        vec![
            ("java".to_string(), "17.0.9".to_string()),
            ("maven".to_string(), "3.9.6".to_string())
        ]
    );
}
