use ogulniega_manager::profiles::launcher_cache_fresh;
use ogulniega_manager::release_info::release_cache_key;
use ogulniega_manager::install_steps::{install_start, install_step, InstallAction, InstallEvent, InstallStage};

fn names(actions: &[InstallAction]) -> Vec<String> {
    actions
        .iter()
        .map(|a| match a {
            InstallAction::Report { received, total, phase } => format!("report {} {} {}", received, total, phase),
            InstallAction::RemoveArchive => "remove archive".to_string(),
            InstallAction::RemoveExtractDir => "remove extract".to_string(),
            InstallAction::RemoveInstallDir => "remove install".to_string(),
            InstallAction::RemoveTempDir => "remove temp".to_string(),
            InstallAction::MakeExecutable => "chmod".to_string(),
            InstallAction::Fail(e) => format!("fail {}", e),
            InstallAction::Succeed(p) => format!("succeed {}", p),
        })
        .collect()
}

fn step(stage: InstallStage, event: InstallEvent) -> (InstallStage, Vec<String>) {
    let (next, actions) = install_step(stage, &event, "https://x/a.zip", "/j/jdk-21+1", "/j/jdk-21+1/bin/java");
    (next, names(&actions))
}

#[test]
fn a_smooth_install() {
    let (stage, actions) = install_start();
    assert!(matches!(stage, InstallStage::Download));
    assert_eq!(names(&actions), vec!["report 0 0 downloading"]);
    let (stage, a) = step(stage, InstallEvent::Downloaded(Ok(42)));
    assert!(matches!(stage, InstallStage::MakeExtractDir { received: 42 }));
    assert_eq!(a, vec!["report 42 42 extracting"]);
    let (stage, a) = step(stage, InstallEvent::ExtractDirMade(Ok(())));
    assert!(matches!(stage, InstallStage::Extract { received: 42 }));
    assert!(a.is_empty());
    let (stage, a) = step(stage, InstallEvent::Extracted(Ok(())));
    assert!(matches!(stage, InstallStage::Layout { received: 42 }));
    assert_eq!(a, vec!["remove archive"]);
    let (stage, a) = step(stage, InstallEvent::LaidOut(Ok(())));
    assert!(matches!(stage, InstallStage::LocateJava { received: 42 }));
    assert_eq!(a, vec!["remove extract"]);
    let (stage, a) = step(stage, InstallEvent::JavaLocated { at_expected_place: true, found: None });
    assert!(matches!(stage, InstallStage::Finished));
    assert_eq!(a, vec!["chmod", "report 42 42 done", "remove temp", "succeed /j/jdk-21+1/bin/java"]);
}

#[test]
fn java_found_elsewhere_or_nowhere() {
    let at = InstallStage::LocateJava { received: 7 };
    let (_, a) = step(at, InstallEvent::JavaLocated { at_expected_place: false, found: Some("/j/jdk-21+1/x/bin/java".to_string()) });
    assert_eq!(a, vec!["succeed /j/jdk-21+1/x/bin/java"]);
    let (_, a) = step(at, InstallEvent::JavaLocated { at_expected_place: false, found: None });
    assert_eq!(a, vec!["remove install", "fail Extraction succeeded but java binary not found in /j/jdk-21+1"]);
}

#[test]
fn failures_clean_up_and_fail() {
    let (s, a) = step(InstallStage::Download, InstallEvent::Downloaded(Err("HTTP request failed: 404".to_string())));
    assert!(matches!(s, InstallStage::Finished));
    assert_eq!(a, vec!["remove archive", "fail Failed to download https://x/a.zip: HTTP request failed: 404"]);
    let (_, a) = step(InstallStage::MakeExtractDir { received: 1 }, InstallEvent::ExtractDirMade(Err("denied".to_string())));
    assert_eq!(a, vec!["remove archive", "fail Failed to create extract dir: denied"]);
    let (_, a) = step(InstallStage::Extract { received: 1 }, InstallEvent::Extracted(Err("tar.gz unpack error: bad".to_string())));
    assert_eq!(a, vec!["remove archive", "remove extract", "fail tar.gz unpack error: bad"]);
    let (_, a) = step(InstallStage::Layout { received: 1 }, InstallEvent::LaidOut(Err("no parent".to_string())));
    assert_eq!(a, vec!["remove extract", "remove install", "fail no parent"]);
}

#[test]
fn caches_are_keyed_and_aged() {
    assert!(launcher_cache_fresh(0));
    assert!(launcher_cache_fresh(299_999));
    assert!(!launcher_cache_fresh(300_000));
    assert!(!launcher_cache_fresh(u64::MAX));
    assert_eq!(release_cache_key("zulu", "jdk-21+1"), "zulu|jdk-21+1");
    assert_eq!(release_cache_key("", ""), "|");
}
