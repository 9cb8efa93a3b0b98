use ogulniega_manager::java_name::parse_java_name;
use ogulniega_manager::text::{parse_u32, trimmed, u64_to_string};

fn chars(s: &str) -> Vec<char> {
    s.chars().collect()
}

#[test]
fn parses_a_jdk_build_name() {
    let p = parse_java_name("jdk-21.0.5+11").unwrap();
    assert_eq!(p.java_name, "jdk-21.0.5+11");
    assert_eq!(p.major, 21);
    assert_eq!(p.version, "21.0.5");
    assert_eq!(p.build, 11);
    assert!(!p.is_jre);
}

#[test]
fn parses_a_jre_build_name_in_any_case() {
    let p = parse_java_name("jdk-17.0.2+8-jre").unwrap();
    assert_eq!(p.major, 17);
    assert_eq!(p.version, "17.0.2");
    assert_eq!(p.build, 8);
    assert!(p.is_jre);
    assert!(parse_java_name("jdk-17.0.2+8-JRE").unwrap().is_jre);
    assert!(!parse_java_name("jdk-17.0.2+8-jdk").unwrap().is_jre);
}

#[test]
fn a_kind_with_more_dashes_is_not_jre() {
    let p = parse_java_name("jdk-17+35-jre-x").unwrap();
    assert_eq!(p.major, 17);
    assert_eq!(p.version, "17");
    assert_eq!(p.build, 35);
    assert!(!p.is_jre);
}

#[test]
fn missing_prefix_is_refused() {
    assert_eq!(
        parse_java_name("21.0.5+11").unwrap_err(),
        "Invalid java_name (missing 'jdk-' prefix): 21.0.5+11"
    );
}

#[test]
fn missing_or_repeated_plus_is_refused() {
    assert_eq!(
        parse_java_name("jdk-21.0.5").unwrap_err(),
        "Invalid java_name (expected 'jdk-VERSION+BUILD-KIND'): jdk-21.0.5"
    );
    assert_eq!(
        parse_java_name("jdk-21+1+2").unwrap_err(),
        "Invalid java_name (expected 'jdk-VERSION+BUILD-KIND'): jdk-21+1+2"
    );
}

#[test]
fn bad_build_number_is_refused() {
    assert_eq!(
        parse_java_name("jdk-21+x-jre").unwrap_err(),
        "Invalid build number in jdk-21+x-jre: x"
    );
    assert_eq!(parse_java_name("jdk-21+").unwrap_err(), "Invalid build number in jdk-21+: ");
    assert_eq!(
        parse_java_name("jdk-21+4294967296").unwrap_err(),
        "Invalid build number in jdk-21+4294967296: 4294967296"
    );
}

#[test]
fn bad_version_is_refused() {
    assert_eq!(parse_java_name("jdk-abc+5").unwrap_err(), "Invalid version in jdk-abc+5: abc");
    assert_eq!(parse_java_name("jdk-+5").unwrap_err(), "Invalid version in jdk-+5: ");
    assert_eq!(
        parse_java_name("jdk-4294967296.1+5").unwrap_err(),
        "Invalid version in jdk-4294967296.1+5: 4294967296.1"
    );
}

#[test]
fn the_build_check_comes_before_the_version_check() {
    assert_eq!(parse_java_name("jdk-abc+x").unwrap_err(), "Invalid build number in jdk-abc+x: x");
}

#[test]
fn numbers_parse_as_rust_does() {
    assert_eq!(parse_u32(&chars("0")), Some(0));
    assert_eq!(parse_u32(&chars("4294967295")), Some(u32::MAX));
    assert_eq!(parse_u32(&chars("4294967296")), None);
    assert_eq!(parse_u32(&chars("+7")), Some(7));
    assert_eq!(parse_u32(&chars("+")), None);
    assert_eq!(parse_u32(&chars("")), None);
    assert_eq!(parse_u32(&chars("-1")), None);
    assert_eq!(parse_u32(&chars("007")), Some(7));
    assert_eq!(parse_u32(&chars("1a")), None);
}

#[test]
fn decimal_text_round_trips() {
    for n in [0u32, 1, 9, 10, 99, 100, 65535, u32::MAX] {
        let text = u64_to_string(n as u64);
        assert_eq!(text, n.to_string());
        assert_eq!(parse_u32(&chars(&text)), Some(n));
    }
    assert_eq!(u64_to_string(u64::MAX), u64::MAX.to_string());
}

#[test]
fn trimming_removes_unicode_whitespace() {
    assert_eq!(trimmed("  a b \n\t"), "a b");
    assert_eq!(trimmed("\u{3000}x\u{a0}"), "x");
    assert_eq!(trimmed("   "), "");
    assert_eq!(trimmed(""), "");
}

#[test]
fn composed_build_names_parse_back() {
    for version in ["21", "21.0.5", "17.0.2.1", "11.x", "007"] {
        for build in [0u32, 7, 35, u32::MAX] {
            for jre in [false, true] {
                let name = format!("jdk-{}+{}{}", version, build, if jre { "-jre" } else { "" });
                let p = parse_java_name(&name).unwrap();
                assert_eq!(p.java_name, name);
                assert_eq!(p.version, version);
                assert_eq!(p.build, build);
                assert_eq!(p.is_jre, jre);
                let major: u32 = version.split('.').next().unwrap().parse().unwrap();
                assert_eq!(p.major, major);
            }
        }
    }
}
