use ogulniega_manager::installs::{
    check_deletion, check_existing_install, deletion_allowed, extract_as_zip, install_archive_name, install_copy_source,
    installed_release, java_exe_name, java_installation,
    list_distributions, list_java_installations, should_emit_progress, ExistingInstall,
    InstallationEntry,
};
use ogulniega_manager::json::{JsonNumber, JsonValue};
use ogulniega_manager::layout::{
    get_java_dir, get_mods_dir, get_ogulniega_root, mod_file_destination, mod_folder,
    mods_subfolder, sort_names, version_dirs,
};
use ogulniega_manager::platform::PlatformInfo;
use ogulniega_manager::profiles::{launcher_json_url, launcher_profiles};
use ogulniega_manager::release_info::{
    build_release_info, distribution_kind, distribution_label, read_answer, release_lookup,
    release_request, DistributionKind, ReleaseLookup, ServiceAnswer,
};
use ogulniega_manager::layout::install_location;

fn s(text: &str) -> JsonValue {
    JsonValue::Str(text.to_string())
}

fn obj(members: Vec<(&str, JsonValue)>) -> JsonValue {
    JsonValue::Object(members.into_iter().map(|(k, v)| (k.to_string(), v)).collect())
}

fn platform(os: &str, arch: &str) -> PlatformInfo {
    PlatformInfo {
        os: os.to_string(),
        arch: arch.to_string(),
        os_label: String::new(),
        arch_label: String::new(),
    }
}

fn folder(name: &str, exe: bool) -> InstallationEntry {
    InstallationEntry {
        java_name: name.to_string(),
        path: format!("/j/{}", name),
        java_exe: format!("/j/{}/bin/java", name),
        java_exe_exists: exe,
        size_bytes: 10,
    }
}

#[test]
fn distribution_aliases() {
    assert!(matches!(distribution_kind("temurin"), Some(DistributionKind::Temurin)));
    assert!(matches!(distribution_kind("adoptium"), Some(DistributionKind::Temurin)));
    assert!(matches!(distribution_kind("eclipse"), Some(DistributionKind::Temurin)));
    assert!(matches!(distribution_kind("bellsoft"), Some(DistributionKind::Liberica)));
    assert!(matches!(distribution_kind("zulu"), Some(DistributionKind::Zulu)));
    assert!(matches!(distribution_kind("corretto"), Some(DistributionKind::Corretto)));
    assert!(matches!(distribution_kind("ms"), Some(DistributionKind::Microsoft)));
    assert!(matches!(distribution_kind("msopenjdk"), Some(DistributionKind::Microsoft)));
    assert!(distribution_kind("Temurin").is_none());
    assert_eq!(distribution_label("adoptium"), "Eclipse Temurin");
    assert_eq!(distribution_label("zulu"), "Azul Zulu");
    assert_eq!(distribution_label("bellsoft"), "BellSoft Liberica");
    assert_eq!(distribution_label("corretto"), "Amazon Corretto");
    assert_eq!(distribution_label("microsoft"), "Microsoft OpenJDK");
    assert_eq!(distribution_label("graal"), "graal");
}

#[test]
fn release_request_checks_in_order() {
    let q = release_request("ms", "jdk-21.0.5+11-jre", &platform("linux", "x64")).unwrap();
    assert!(matches!(q.distribution, DistributionKind::Microsoft));
    assert_eq!(q.major, 21);
    assert!(q.is_jre);
    assert_eq!(
        release_request("zulu", "jdk-21+1", &platform("unknown", "x64")).unwrap_err(),
        "Unsupported platform: os=unknown, arch=x64"
    );
    assert_eq!(
        release_request("nope", "bad", &platform("linux", "unknown")).unwrap_err(),
        "Unsupported platform: os=linux, arch=unknown"
    );
    assert_eq!(
        release_request("nope", "bad", &platform("linux", "x64")).unwrap_err(),
        "Invalid java_name (missing 'jdk-' prefix): bad"
    );
    assert_eq!(
        release_request("nope", "jdk-21+1", &platform("linux", "x64")).unwrap_err(),
        "Unknown distribution 'nope'. Supported: temurin, zulu, liberica, corretto, microsoft"
    );
}

fn liberica_answer() -> ServiceAnswer {
    ServiceAnswer::Liberica(vec![obj(vec![
        ("tag_name", s("21.0.5+11")),
        (
            "assets",
            JsonValue::Array(vec![
                obj(vec![
                    ("name", s("bellsoft-jdk21.0.5+11-linux-amd64.tar.gz")),
                    ("browser_download_url", s("https://x/a.tar.gz")),
                ]),
                obj(vec![
                    ("name", s("bellsoft-jre21.0.5+11-linux-amd64.tar.gz")),
                    ("browser_download_url", s("https://x/b.tar.gz")),
                ]),
            ]),
        ),
    ])])
}

#[test]
fn release_info_combines_request_lookup_and_location() {
    let info = build_release_info("bellsoft", "jdk-21.0.5+11", &platform("linux", "x64"), &liberica_answer(), None, Some("/h")).unwrap();
    assert_eq!(info.distribution, "bellsoft");
    assert_eq!(info.distribution_label, "BellSoft Liberica");
    assert_eq!(info.major, 21);
    assert_eq!(info.kind, "jdk");
    assert!(!info.is_jre);
    assert_eq!(info.version, "21.0.5");
    assert_eq!(info.build, 11);
    assert_eq!(info.java_name, "jdk-21.0.5+11");
    assert_eq!(info.url, "https://x/a.tar.gz");
    assert_eq!(info.archive_ext, "tar.gz");
    assert_eq!(info.size_bytes, 0);
    assert_eq!(info.install_dir, "/h/.ogulniega/java/jdk-21.0.5+11");
    assert_eq!(info.java_exe, "/h/.ogulniega/java/jdk-21.0.5+11/bin/java");
    assert_eq!(info.platform_os, "linux");
    assert_eq!(info.platform_arch, "x64");
    assert_eq!(info.source, "liberica-github");
}

#[test]
fn microsoft_releases_need_no_answer() {
    let info = build_release_info("ms", "jdk-17.0.2+8-jre", &platform("windows", "x64"), &ServiceAnswer::NotAsked, Some("C:\\U"), None).unwrap();
    assert_eq!(info.distribution_label, "Microsoft OpenJDK");
    assert_eq!((info.version.as_str(), info.build), ("17.0.19", 7));
    assert_eq!(info.url, "https://aka.ms/download-jdk/microsoft-jdk-17.0.19-windows-x64.zip");
    assert_eq!(info.archive_ext, "zip");
    assert_eq!(info.source, "microsoft-aka");
    assert_eq!(info.kind, "jre");
    assert_eq!(info.install_dir, "C:\\U/.ogulniega\\java\\jdk-17.0.2+8-jre");
    assert_eq!(info.java_exe, "C:\\U/.ogulniega\\java\\jdk-17.0.2+8-jre\\bin\\java.exe");
    assert_eq!(
        build_release_info("microsoft", "jdk-22.0.1+8", &platform("linux", "x64"), &ServiceAnswer::NotAsked, None, Some("/h")).unwrap_err(),
        "Microsoft OpenJDK has no preset for major 22 (known: 11, 17, 21, 25)"
    );
}

#[test]
fn release_info_reports_the_first_failure() {
    let failed = ServiceAnswer::Failed("lookup".to_string());
    let linux = platform("linux", "x64");
    assert_eq!(
        build_release_info("zulu", "jdk-x+1", &linux, &failed, None, Some("/h")).unwrap_err(),
        "Invalid version in jdk-x+1: x"
    );
    assert_eq!(
        build_release_info("zulu", "jdk-21+1", &platform("linux", "arm"), &failed, None, Some("/h")).unwrap_err(),
        "Zulu has no build for linux-arm"
    );
    assert_eq!(build_release_info("zulu", "jdk-21+1", &linux, &failed, None, Some("/h")).unwrap_err(), "lookup");
    assert_eq!(
        build_release_info("bellsoft", "jdk-21.0.5+11", &linux, &liberica_answer(), Some("A"), None).unwrap_err(),
        "HOME not found"
    );
    let info = build_release_info("liberica", "jdk-21.0.5+11-jre", &linux, &liberica_answer(), None, Some("/h")).unwrap();
    assert_eq!(info.kind, "jre");
    assert!(info.is_jre);
    assert_eq!(info.url, "https://x/b.tar.gz");
}

#[test]
fn each_answer_is_read_by_its_reader() {
    let q = release_request("corretto", "jdk-21+1", &platform("linux", "x64")).unwrap();
    let doc = ServiceAnswer::Corretto(obj(vec![("tag_name", s("21.0.5.11.1"))]));
    assert_eq!(read_answer(&q, &platform("linux", "x64"), &doc).unwrap().4, "corretto-aws");
    assert_eq!(
        read_answer(&q, &platform("linux", "x64"), &ServiceAnswer::Failed("HTTP GET x failed: y".to_string())),
        Err("HTTP GET x failed: y".to_string())
    );
    assert_eq!(read_answer(&q, &platform("linux", "x64"), &ServiceAnswer::NotAsked), Err(String::new()));
}

#[test]
fn install_locations_join_with_the_platform_separator() {
    assert_eq!(
        install_location("/h/.ogulniega/java", "jdk-21+1", false),
        ("/h/.ogulniega/java/jdk-21+1".to_string(), "/h/.ogulniega/java/jdk-21+1/bin/java".to_string())
    );
    assert_eq!(
        install_location("C:\\j", "jdk-21+1", true),
        ("C:\\j\\jdk-21+1".to_string(), "C:\\j\\jdk-21+1\\bin\\java.exe".to_string())
    );
}

fn version_entry(java_name: &str) -> JsonValue {
    obj(vec![("id", s("1.21")), ("java_name", s(java_name))])
}

#[test]
fn launcher_profiles_count_and_order_builds() {
    let doc = obj(vec![(
        "versions",
        JsonValue::Array(vec![
            version_entry("jdk-21.0.5+11"),
            version_entry("jdk-17.0.2+8-jre"),
            version_entry("jdk-21.0.5+11"),
            version_entry("not-a-build"),
            version_entry(""),
            obj(vec![("java_name", JsonValue::Number(JsonNumber::PosInt(3)))]),
            version_entry("jdk-21.0.1+12"),
            version_entry("jdk-8.0.1+1"),
        ]),
    )]);
    let resp = launcher_profiles(&doc).unwrap();
    assert_eq!(resp.source, launcher_json_url());
    assert_eq!(resp.source, "https://ogulniega.com/files/launcher.json");
    let got: Vec<(&str, u32, &str, u32, &str, bool, u32)> = resp
        .profiles
        .iter()
        .map(|p| (p.java_name.as_str(), p.major, p.version.as_str(), p.build, p.kind.as_str(), p.is_jre, p.usage_count))
        .collect();
    assert_eq!(
        got,
        vec![
            ("jdk-8.0.1+1", 8, "8.0.1", 1, "jdk", false, 1),
            ("jdk-17.0.2+8-jre", 17, "17.0.2", 8, "jre", true, 1),
            ("jdk-21.0.1+12", 21, "21.0.1", 12, "jdk", false, 1),
            ("jdk-21.0.5+11", 21, "21.0.5", 11, "jdk", false, 2),
        ]
    );
}

#[test]
fn launcher_profiles_without_usable_builds_fail() {
    let message = "Launcher JSON did not contain any usable java_name entries";
    assert_eq!(launcher_profiles(&obj(vec![])).unwrap_err(), message);
    assert_eq!(launcher_profiles(&obj(vec![("versions", s("x"))])).unwrap_err(), message);
    let doc = obj(vec![("versions", JsonValue::Array(vec![version_entry("jdk21"), version_entry("")]))]);
    assert_eq!(launcher_profiles(&doc).unwrap_err(), message);
}

#[test]
fn installation_from_a_folder() {
    let i = java_installation(&folder("jdk-17.0.2+8-jre", true));
    assert_eq!(i.java_name, "jdk-17.0.2+8-jre");
    assert_eq!(i.distribution, "");
    assert_eq!((i.major, i.version.as_str(), i.build, i.is_jre), (17, "17.0.2", 8, true));
    assert_eq!(i.path, "/j/jdk-17.0.2+8-jre");
    assert_eq!(i.java_exe, "/j/jdk-17.0.2+8-jre/bin/java");
    assert!(i.exists && i.java_exe_exists);
    assert_eq!(i.size_bytes, 10);
    assert_eq!(i.parsed.unwrap().major, 17);
    assert_eq!(i.source, "");
    let odd = java_installation(&folder("my-java", false));
    assert_eq!((odd.major, odd.version.as_str(), odd.build, odd.is_jre), (0, "", 0, false));
    assert!(odd.parsed.is_none());
    assert!(!odd.java_exe_exists);
}

#[test]
fn installations_are_listed_by_name() {
    let r = list_java_installations(&vec![folder("jdk-8+1", true), folder("custom", false), folder("jdk-21+3", true), folder("jdk-17+2", true)]);
    let names: Vec<&str> = r.iter().map(|i| i.java_name.as_str()).collect();
    assert_eq!(names, vec!["custom", "jdk-17+2", "jdk-21+3", "jdk-8+1"]);
    assert!(list_java_installations(&vec![]).is_empty());
}

#[test]
fn offered_distributions() {
    let d = list_distributions();
    let ids: Vec<&str> = d.iter().map(|x| x.id.as_str()).collect();
    assert_eq!(ids, vec!["temurin", "zulu", "liberica", "corretto", "microsoft"]);
    assert_eq!(d[0].label, "Eclipse Temurin");
    assert_eq!(d[0].description, "Adoptium Temurin - the default Adoptium build");
    assert_eq!(d[0].source, "adoptium-api");
    assert_eq!(d[2].source, "liberica-api");
    assert_eq!(d[3].description, "Amazon's no-cost, multiplatform OpenJDK distribution");
    assert_eq!(d[4].label, "Microsoft OpenJDK");
    for x in &d {
        assert_eq!(x.kinds, vec!["jdk".to_string(), "jre".to_string()]);
    }
}

#[test]
fn archive_names_are_sanitized() {
    assert_eq!(install_archive_name("jdk-21.0.5+11", "zip"), "jdk-21_0_5_11.zip");
    assert_eq!(install_archive_name("jdk_ä-17 x/y", "tar.gz"), "jdk_ä-17_x_y.tar.gz");
    assert_eq!(install_archive_name("", "zip"), ".zip");
    assert!(extract_as_zip("zip"));
    assert!(!extract_as_zip("tar.gz"));
    assert!(!extract_as_zip("ZIP"));
}

#[test]
fn existing_install_decision() {
    assert!(matches!(check_existing_install("jdk-21+1", "/j/jdk-21+1", false, false), Ok(ExistingInstall::Absent)));
    assert!(matches!(check_existing_install("jdk-21+1", "/j/jdk-21+1", true, false), Ok(ExistingInstall::RemoveStale)));
    assert_eq!(
        check_existing_install("jdk-21+1", "/j/jdk-21+1", true, true).unwrap_err(),
        "Java distribution 'jdk-21+1' is already installed at /j/jdk-21+1"
    );
}

#[test]
fn progress_is_reported_by_time_or_by_size() {
    assert!(should_emit_progress(200, 5 * 1024 * 1024));
    assert!(!should_emit_progress(199, 2 * 1024 * 1024 + 256 * 1024));
    assert!(should_emit_progress(0, 2 * 1024 * 1024 + 256 * 1024 - 1));
    assert!(should_emit_progress(0, 100));
    assert!(!should_emit_progress(0, 300 * 1024));
}

#[test]
fn java_program_names() {
    assert_eq!(java_exe_name(true), "java.exe");
    assert_eq!(java_exe_name(false), "java");
}

#[test]
fn folders_under_the_home_directory() {
    assert_eq!(get_ogulniega_root(false, None, Some("/home/u")), Ok("/home/u/.ogulniega".to_string()));
    assert_eq!(get_mods_dir(false, Some("C:/x"), Some("/home/u")), Ok("/home/u/.ogulniega/profile/mods".to_string()));
    assert_eq!(get_java_dir(false, None, Some("/home/u")), Ok("/home/u/.ogulniega/java".to_string()));
    assert_eq!(get_java_dir(false, Some("C:/x"), None), Err("HOME not found".to_string()));
}

#[test]
fn folders_under_appdata_on_windows() {
    assert_eq!(get_ogulniega_root(true, Some("C:\\Users\\u\\AppData"), None), Ok("C:\\Users\\u\\AppData/.ogulniega".to_string()));
    assert_eq!(get_mods_dir(true, Some("A"), Some("/home/u")), Ok("A/.ogulniega/profile/mods".to_string()));
    assert_eq!(get_java_dir(true, Some("A"), None), Ok("A/.ogulniega\\java".to_string()));
    assert_eq!(get_mods_dir(true, None, Some("/home/u")), Err("APPDATA not found".to_string()));
}

#[test]
fn mod_folders() {
    let d = version_dirs("/m", "1.21");
    assert_eq!(d, vec![("".to_string(), "/m/1.21".to_string()), ("preinstalled".to_string(), "/m/1.21/preinstalled".to_string())]);
    assert_eq!(mod_folder("/m", "1.21", ""), "/m/1.21");
    assert_eq!(mod_folder("/m", "1.21", "preinstalled"), "/m/1.21/preinstalled");
    assert_eq!(mod_file_destination("/m", "1.21", "a.jar", false), "/m/1.21/a.jar");
    assert_eq!(mod_file_destination("/m", "1.21", "a.jar", true), "/m/1.21/preinstalled/a.jar");
    assert_eq!(mods_subfolder("/m", "1.20.1"), "/m/1.20.1");
}

#[test]
fn folder_names_are_sorted() {
    let names = vec!["1.21".to_string(), "1.20.1".to_string(), "B".to_string(), "a".to_string(), "1.21".to_string()];
    assert_eq!(sort_names(names), vec!["1.20.1", "1.21", "1.21", "B", "a"]);
    assert!(sort_names(vec![]).is_empty());
}

#[test]
fn each_distribution_looks_in_its_own_place() {
    let linux = platform("linux", "x64");
    let ask = |d: &str, name: &str, p: &PlatformInfo| {
        let q = release_request(d, name, p).unwrap();
        match release_lookup(&q, p) {
            Ok(ReleaseLookup::Ask(url)) => Ok(url),
            Ok(ReleaseLookup::Known(f)) => Err(format!("known {:?}", f)),
            Err(e) => Err(e),
        }
    };
    assert_eq!(
        ask("eclipse", "jdk-21+1-jre", &linux),
        Ok("https://api.adoptium.net/v3/assets/feature_releases/21/ga?architecture=x64&os=linux&image_type=jre&page=0&size=1&sort=timestamp&order=DESC".to_string())
    );
    assert_eq!(ask("liberica", "jdk-21+1", &linux), Ok("https://api.github.com/repos/bell-sw/Liberica/releases?per_page=30".to_string()));
    assert_eq!(
        ask("zulu", "jdk-17+1", &linux),
        Ok("https://api.azul.com/metadata/v1/zulu/packages?availability_types=ca&release_status=ga&java_version=17&os=linux&arch=x64&hw_bitness=64&bundle_type=jdk&features=latest&latest=true&page_size=50".to_string())
    );
    assert_eq!(ask("corretto", "jdk-11+1", &platform("linux", "arm")), Ok("https://api.github.com/repos/corretto/corretto-11/releases/latest".to_string()));
    assert_eq!(ask("bellsoft", "jdk-21+1", &platform("linux", "arm")), Err("Liberica has no build for linux-arm".to_string()));
    assert_eq!(ask("zulu", "jdk-21+1", &platform("mac", "x32")), Err("Zulu has no build for mac-x32".to_string()));
    assert_eq!(ask("ms", "jdk-12+1", &linux), Err("Microsoft OpenJDK has no preset for major 12 (known: 11, 17, 21, 25)".to_string()));
    let q = release_request("microsoft", "jdk-17+1", &linux).unwrap();
    match release_lookup(&q, &linux) {
        Ok(ReleaseLookup::Known(f)) => assert_eq!(f.2, "https://aka.ms/download-jdk/microsoft-jdk-17.0.19-linux-x64.tar.gz"),
        other => panic!("unexpected lookup {:?}", other),
    }
}

#[test]
fn an_installed_release_is_described_from_its_release() {
    let info = build_release_info("zulu", "jdk-21.0.5+11-jre", &platform("linux", "x64"), &ServiceAnswer::Zulu(vec![obj(vec![
        ("name", s("zulu21-ca-jre21.0.5-linux_x64.tar.gz")),
        ("download_url", s("https://z/jre.tar.gz")),
        ("java_version", JsonValue::Array(vec![JsonValue::Number(JsonNumber::PosInt(21)), JsonValue::Number(JsonNumber::PosInt(0)), JsonValue::Number(JsonNumber::PosInt(5))])),
        ("openjdk_build_number", JsonValue::Number(JsonNumber::PosInt(11))),
    ])]), None, Some("/j")).unwrap();
    assert_eq!(info.install_dir, "/j/.ogulniega/java/jdk-21.0.5+11-jre");
    let i = installed_release(&info, "/j/jdk-21.0.5+11-jre/lib/java", 1234);
    assert_eq!(i.java_name, "jdk-21.0.5+11-jre");
    assert_eq!(i.distribution, "zulu");
    assert_eq!((i.major, i.version.as_str(), i.build, i.is_jre), (21, "21.0.5", 11, true));
    assert_eq!(i.path, "/j/.ogulniega/java/jdk-21.0.5+11-jre");
    assert_eq!(i.java_exe, "/j/jdk-21.0.5+11-jre/lib/java");
    assert!(i.exists && i.java_exe_exists);
    assert_eq!(i.size_bytes, 1234);
    assert!(i.parsed.unwrap().is_jre);
    assert_eq!(i.source, "azul-metadata");
}

#[test]
fn a_single_unpacked_folder_is_the_copy_source() {
    assert_eq!(install_copy_source(&vec!["/t/extract/jdk-21".to_string()], "/t/extract"), "/t/extract/jdk-21");
    assert_eq!(install_copy_source(&vec![], "/t/extract"), "/t/extract");
    assert_eq!(install_copy_source(&vec!["/t/a".to_string(), "/t/b".to_string()], "/t/extract"), "/t/extract");
}

#[test]
fn only_folders_inside_the_java_folder_are_deleted() {
    assert_eq!(check_deletion("/h/.ogulniega/java/jdk-21+1", "/h/.ogulniega/java"), Ok(()));
    assert_eq!(check_deletion("/h/.ogulniega/java", "/h/.ogulniega/java"), Ok(()));
    let refusal = Err("Refusing to delete: path escapes java directory".to_string());
    assert_eq!(check_deletion("/h/.ogulniega/javax/jdk", "/h/.ogulniega/java"), refusal);
    assert_eq!(check_deletion("/etc", "/h/.ogulniega/java"), refusal);
    assert_eq!(deletion_allowed(true), Ok(()));
    assert_eq!(deletion_allowed(false), refusal);
}

#[test]
fn containment_goes_by_whole_names() {
    let refusal = Err("Refusing to delete: path escapes java directory".to_string());
    assert_eq!(check_deletion("/a/b", "/a/bc"), refusal);
    assert_eq!(check_deletion("/a/bc", "/a/b"), refusal);
    assert_eq!(check_deletion("/", "/a"), refusal);
    assert_eq!(check_deletion("/a", "/"), Ok(()));
    assert_eq!(check_deletion("/a/b/c/d", "/a/b"), Ok(()));
    assert_eq!(check_deletion("/a/b:c", "/a"), Ok(()));
    assert_eq!(check_deletion("/a:b", "/a"), refusal);
}
