use ogulniega_manager::json::{JsonNumber, JsonValue};
use ogulniega_manager::platform::{adoptium_arch_for, adoptium_os_for, detect_platform, PlatformInfo};
use ogulniega_manager::releases::{
    corretto_api_url, corretto_release, fetch_microsoft_latest, kind_prefix, liberica_api_url,
    liberica_release, temurin_api_url, temurin_release, zulu_api_url, zulu_release, AdoptiumBinary,
    AdoptiumPackage, AdoptiumRelease, AdoptiumVersion,
};

fn s(text: &str) -> JsonValue {
    JsonValue::Str(text.to_string())
}

fn n(v: u64) -> JsonValue {
    JsonValue::Number(JsonNumber::PosInt(v))
}

fn obj(members: Vec<(&str, JsonValue)>) -> JsonValue {
    JsonValue::Object(members.into_iter().map(|(k, v)| (k.to_string(), v)).collect())
}

fn platform(os: &str, arch: &str) -> PlatformInfo {
    PlatformInfo {
        os: os.to_string(),
        arch: arch.to_string(),
        os_label: String::new(),
        arch_label: String::new(),
    }
}

fn fetched(version: &str, build: u32, url: &str, ext: &str, source: &str) -> (String, u32, String, String, String) {
    (version.to_string(), build, url.to_string(), ext.to_string(), source.to_string())
}

#[test]
fn platform_tokens_and_labels() {
    let p = detect_platform("linux", "x86_64");
    assert_eq!((p.os.as_str(), p.arch.as_str()), ("linux", "x64"));
    assert_eq!((p.os_label.as_str(), p.arch_label.as_str()), ("Linux", "x86_64 (x64)"));
    let p = detect_platform("windows", "aarch64");
    assert_eq!((p.os.as_str(), p.os_label.as_str()), ("windows", "Windows"));
    assert_eq!((p.arch.as_str(), p.arch_label.as_str()), ("aarch64", "aarch64 (arm64)"));
    let p = detect_platform("macos", "x86");
    assert_eq!((p.os.as_str(), p.os_label.as_str()), ("mac", "macOS"));
    assert_eq!((p.arch.as_str(), p.arch_label.as_str()), ("x32", "x86 (32-bit)"));
    let p = detect_platform("freebsd", "arm");
    assert_eq!((p.os.as_str(), p.os_label.as_str()), ("unknown", "Unknown OS"));
    assert_eq!((p.arch.as_str(), p.arch_label.as_str()), ("arm", "arm"));
    let p = detect_platform("linux", "riscv64");
    assert_eq!((p.arch.as_str(), p.arch_label.as_str()), ("unknown", "Unknown arch"));
}

#[test]
fn adoptium_names() {
    assert_eq!(adoptium_os_for(&platform("mac", "x64")), Ok("mac"));
    assert_eq!(adoptium_arch_for(&platform("linux", "x32")), Ok("x86"));
    assert_eq!(adoptium_arch_for(&platform("linux", "arm")), Ok("arm"));
    assert_eq!(
        adoptium_os_for(&platform("unknown", "x64")),
        Err("Adoptium has no binary for OS 'unknown'".to_string())
    );
    assert_eq!(
        adoptium_arch_for(&platform("linux", "unknown")),
        Err("Adoptium has no binary for arch 'unknown'".to_string())
    );
}

#[test]
fn microsoft_builds_come_from_the_table() {
    assert_eq!(
        fetch_microsoft_latest(21, "jdk", &platform("linux", "x64")),
        Ok(fetched(
            "21.0.11",
            7,
            "https://aka.ms/download-jdk/microsoft-jdk-21.0.11-linux-x64.tar.gz",
            "tar.gz",
            "microsoft-aka"
        ))
    );
    assert_eq!(
        fetch_microsoft_latest(17, "jre", &platform("windows", "aarch64")),
        Ok(fetched(
            "17.0.19",
            7,
            "https://aka.ms/download-jdk/microsoft-jdk-17.0.19-windows-aarch64.zip",
            "zip",
            "microsoft-aka"
        ))
    );
    assert_eq!(
        fetch_microsoft_latest(25, "jdk", &platform("mac", "aarch64")).unwrap().2,
        "https://aka.ms/download-jdk/microsoft-jdk-25.0.2-macos-aarch64.tar.gz"
    );
    assert_eq!(fetch_microsoft_latest(11, "jdk", &platform("mac", "x64")).unwrap().0, "11.0.31");
}

#[test]
fn microsoft_refusals() {
    assert_eq!(
        fetch_microsoft_latest(8, "jdk", &platform("linux", "x64")),
        Err("Microsoft OpenJDK has no preset for major 8 (known: 11, 17, 21, 25)".to_string())
    );
    assert_eq!(
        fetch_microsoft_latest(21, "jdk", &platform("linux", "x32")),
        Err("Microsoft has no build for linux-x32".to_string())
    );
    assert_eq!(
        fetch_microsoft_latest(9, "jdk", &platform("linux", "x32")),
        Err("Microsoft OpenJDK has no preset for major 9 (known: 11, 17, 21, 25)".to_string())
    );
}

#[test]
fn corretto_lookup() {
    assert_eq!(corretto_api_url(21), "https://api.github.com/repos/corretto/corretto-21/releases/latest");
    let release = obj(vec![("tag_name", s("21.0.5.11.1"))]);
    assert_eq!(
        corretto_release(21, &platform("windows", "x64"), &release),
        Ok(fetched(
            "21.0.5.11.1",
            1,
            "https://corretto.aws/downloads/resources/21.0.5.11.1/amazon-corretto-21.0.5.11.1-windows-x64-jdk.zip",
            "zip",
            "corretto-aws"
        ))
    );
    assert_eq!(
        corretto_release(21, &platform("mac", "aarch64"), &release).unwrap().2,
        "https://corretto.aws/downloads/resources/21.0.5.11.1/amazon-corretto-21.0.5.11.1-macosx-aarch64.tar.gz"
    );
    assert_eq!(
        corretto_release(17, &platform("linux", "x64"), &obj(vec![("message", s("Not Found"))])),
        Err("Corretto major 17 not found on GitHub".to_string())
    );
    assert_eq!(
        corretto_release(17, &platform("linux", "arm"), &release),
        Err("Corretto has no build for linux-arm".to_string())
    );
}

#[test]
fn kind_words() {
    assert_eq!(kind_prefix("jre"), "jre");
    assert_eq!(kind_prefix("JRE"), "jre");
    assert_eq!(kind_prefix("jdk"), "jdk");
    assert_eq!(kind_prefix("anything"), "jdk");
}

fn liberica_releases() -> Vec<JsonValue> {
    vec![
        obj(vec![
            ("tag_name", s("17.0.9+11")),
            (
                "assets",
                JsonValue::Array(vec![obj(vec![
                    ("name", s("bellsoft-jdk17.0.9+11-linux-amd64.tar.gz")),
                    ("browser_download_url", s("https://example.org/17.tar.gz")),
                ])]),
            ),
        ]),
        obj(vec![
            ("tag_name", s("21.0.5+11")),
            (
                "assets",
                JsonValue::Array(vec![
                    obj(vec![("name", s("bellsoft-jre21.0.5+11-linux-amd64.tar.gz")), ("browser_download_url", s(""))]),
                    obj(vec![
                        ("name", s("bellsoft-jdk21.0.5+11-linux-amd64.tar.gz")),
                        ("browser_download_url", s("https://example.org/21.tar.gz")),
                    ]),
                ]),
            ),
        ]),
        obj(vec![
            ("tag_name", s("21.0.4")),
            (
                "assets",
                JsonValue::Array(vec![obj(vec![
                    ("name", s("bellsoft-jre21.0.4-linux-amd64.tar.gz")),
                    ("browser_download_url", s("https://example.org/21-jre.tar.gz")),
                ])]),
            ),
        ]),
    ]
}

#[test]
fn liberica_picks_the_first_release_with_the_asset() {
    assert_eq!(liberica_api_url(), "https://api.github.com/repos/bell-sw/Liberica/releases?per_page=30");
    assert_eq!(
        liberica_release(21, "jdk", &platform("linux", "x64"), &liberica_releases()),
        Ok(fetched("21.0.5", 11, "https://example.org/21.tar.gz", "tar.gz", "liberica-github"))
    );
    assert_eq!(
        liberica_release(17, "jdk", &platform("linux", "x64"), &liberica_releases()),
        Ok(fetched("17.0.9", 11, "https://example.org/17.tar.gz", "tar.gz", "liberica-github"))
    );
}

#[test]
fn liberica_skips_empty_addresses_and_reads_no_build_as_zero() {
    assert_eq!(
        liberica_release(21, "JRE", &platform("linux", "x64"), &liberica_releases()),
        Ok(fetched("21.0.4", 0, "https://example.org/21-jre.tar.gz", "tar.gz", "liberica-github"))
    );
}

#[test]
fn liberica_refusals() {
    assert_eq!(
        liberica_release(11, "jdk", &platform("linux", "x64"), &liberica_releases()),
        Err("No Liberica release found for Java 11 jdk on linux-amd64".to_string())
    );
    assert_eq!(
        liberica_release(21, "jdk", &platform("mac", "x64"), &vec![]),
        Err("No Liberica release found for Java 21 jdk on macos-x64".to_string())
    );
    assert_eq!(
        liberica_release(21, "jdk", &platform("windows", "x32"), &liberica_releases()),
        Err("Liberica has no build for windows-x32".to_string())
    );
}

#[test]
fn zulu_query_address() {
    assert_eq!(
        zulu_api_url(21, "jdk", &platform("windows", "x64")),
        Ok("https://api.azul.com/metadata/v1/zulu/packages?availability_types=ca&release_status=ga&java_version=21&os=windows&arch=x86&hw_bitness=64&bundle_type=jdk&features=latest&latest=true&page_size=50".to_string())
    );
    assert_eq!(
        zulu_api_url(17, "JRE", &platform("mac", "aarch64")),
        Ok("https://api.azul.com/metadata/v1/zulu/packages?availability_types=ca&release_status=ga&java_version=17&os=macos&arch=aarch64&hw_bitness=64&bundle_type=jre&features=latest&latest=true&page_size=50".to_string())
    );
    assert_eq!(
        zulu_api_url(17, "jdk", &platform("unknown", "x64")),
        Err("Zulu has no build for unknown-x64".to_string())
    );
}

fn zulu_packages() -> Vec<JsonValue> {
    vec![
        obj(vec![("name", s("zulu21.38.21-ca-fx-jdk21.0.5-linux_x64.tar.gz")), ("download_url", s("fx"))]),
        obj(vec![("name", s("zulu21.38.21-ca-jdk21.0.5-linux_x64.zip")), ("download_url", s("zip"))]),
        obj(vec![("name", s("other-jdk21.tar.gz")), ("download_url", s("other"))]),
        obj(vec![
            ("name", s("zulu21.38.21-ca-jdk21.0.5-linux_x64.tar.gz")),
            ("download_url", s("https://cdn.azul.com/zulu21.tar.gz")),
            ("java_version", JsonValue::Array(vec![n(21), n(0), s("x"), n(5)])),
            ("openjdk_build_number", n(11)),
        ]),
    ]
}

#[test]
fn zulu_picks_the_first_plain_package() {
    assert_eq!(
        zulu_release(21, "jdk", &platform("linux", "x64"), &zulu_packages()),
        Ok(fetched("21.0.5", 11, "https://cdn.azul.com/zulu21.tar.gz", "tar.gz", "azul-metadata"))
    );
    assert_eq!(
        zulu_release(21, "jdk", &platform("windows", "x64"), &zulu_packages()),
        Ok(fetched("", 0, "zip", "zip", "azul-metadata"))
    );
}

#[test]
fn zulu_build_number_is_truncated_to_32_bits() {
    let pkgs = vec![obj(vec![
        ("name", s("zulu-jdk.tar.gz")),
        ("download_url", s("u")),
        ("openjdk_build_number", n((1u64 << 32) + 3)),
    ])];
    assert_eq!(zulu_release(21, "jdk", &platform("linux", "x64"), &pkgs).unwrap().1, 3);
}

#[test]
fn zulu_refusals() {
    assert_eq!(
        zulu_release(21, "jre", &platform("linux", "x64"), &zulu_packages()),
        Err("No Zulu jre found for major 21 on linux-x64".to_string())
    );
    let pkgs = vec![obj(vec![("name", s("zulu-jdk.tar.gz"))])];
    assert_eq!(
        zulu_release(21, "jdk", &platform("linux", "x64"), &pkgs),
        Err("Zulu: no download_url".to_string())
    );
    assert_eq!(
        zulu_release(21, "jdk", &platform("linux", "arm"), &pkgs),
        Err("Zulu has no build for linux-arm".to_string())
    );
}

#[test]
fn temurin_query_address() {
    assert_eq!(
        temurin_api_url(21, "jdk", &platform("linux", "x64")),
        Ok("https://api.adoptium.net/v3/assets/feature_releases/21/ga?architecture=x64&os=linux&image_type=jdk&page=0&size=1&sort=timestamp&order=DESC".to_string())
    );
    assert_eq!(
        temurin_api_url(8, "jre", &platform("windows", "x32")),
        Ok("https://api.adoptium.net/v3/assets/feature_releases/8/ga?architecture=x86&os=windows&image_type=jre&page=0&size=1&sort=timestamp&order=DESC".to_string())
    );
    assert_eq!(
        temurin_api_url(8, "jre", &platform("unknown", "x32")),
        Err("Adoptium has no binary for OS 'unknown'".to_string())
    );
}

fn binary(os: &str, arch: &str, image: &str, link: &str) -> AdoptiumBinary {
    AdoptiumBinary {
        os: os.to_string(),
        architecture: arch.to_string(),
        image_type: image.to_string(),
        package: AdoptiumPackage { name: String::new(), link: link.to_string(), size: 0 },
    }
}

fn temurin_releases() -> Vec<AdoptiumRelease> {
    vec![AdoptiumRelease {
        release_name: "jdk-21.0.5+11".to_string(),
        binaries: vec![
            binary("linux", "x64", "jre", "jre-link"),
            binary("Linux", "X64", "JDK", "jdk-link"),
            binary("linux", "x64", "jdk", "second-link"),
        ],
        version: AdoptiumVersion { semver: "21.0.5+11".to_string(), major: 21, minor: 0, patch: 5, build: 11 },
    }]
}

#[test]
fn temurin_picks_the_matching_binary() {
    assert_eq!(
        temurin_release(21, "jdk", &platform("linux", "x64"), &temurin_releases()),
        Ok(fetched("21.0.5+11", 11, "jdk-link", "tar.gz", "adoptium-api"))
    );
}

#[test]
fn temurin_refusals() {
    assert_eq!(
        temurin_release(21, "jdk", &platform("windows", "x64"), &temurin_releases()),
        Err("No matching Temurin binary for windows-x64-jdk".to_string())
    );
    assert_eq!(
        temurin_release(21, "jdk", &platform("linux", "x32"), &vec![]),
        Err("No Adoptium release for 21/jdk/x86".to_string())
    );
    assert_eq!(
        temurin_release(21, "jdk", &platform("linux", "unknown"), &vec![]),
        Err("Adoptium has no binary for arch 'unknown'".to_string())
    );
}
