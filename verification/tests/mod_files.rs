use ogulniega_manager::json::{JsonNumber, JsonValue};
use ogulniega_manager::mods::{
    collect_mods_with_ids, disabled_mod_id, extract_mod_id_from_json, find_duplicate_mods,
    is_jar_file_name, is_manifest_name, list_mods, next_disabled_index, parse_disabled_id,
    plan_disable, read_fabric_mod_id, DisablePlan, ModEntry, ModInfo,
};
use ogulniega_manager::stub_jar::{stub_entry_name, stub_mod_json};

fn s(text: &str) -> JsonValue {
    JsonValue::Str(text.to_string())
}

fn obj(members: Vec<(&str, JsonValue)>) -> JsonValue {
    JsonValue::Object(members.into_iter().map(|(k, v)| (k.to_string(), v)).collect())
}

fn entry(filename: &str, sub_path: &str, id: Option<&str>) -> ModEntry {
    ModEntry {
        filename: filename.to_string(),
        sub_path: sub_path.to_string(),
        id: id.map(|x| x.to_string()),
    }
}

fn file(name: &str, id: Option<&str>) -> (String, Option<String>) {
    (name.to_string(), id.map(|x| x.to_string()))
}

fn info(filename: &str, sub_path: &str) -> ModInfo {
    ModInfo { filename: filename.to_string(), sub_path: sub_path.to_string(), is_disabled: false }
}

#[test]
fn disabled_ids_parse() {
    assert_eq!(parse_disabled_id("disabledmod7"), Some(7));
    assert_eq!(parse_disabled_id("disabledmod0"), Some(0));
    assert_eq!(parse_disabled_id("disabledmod+3"), Some(3));
    assert_eq!(parse_disabled_id("disabledmod"), None);
    assert_eq!(parse_disabled_id("disabledmodx"), None);
    assert_eq!(parse_disabled_id("DisabledMod7"), None);
    assert_eq!(parse_disabled_id("mod7"), None);
    assert_eq!(parse_disabled_id("disabledmod4294967296"), None);
}

#[test]
fn disabled_id_round_trips() {
    for n in [0u32, 1, 42, 1000, u32::MAX] {
        let id = disabled_mod_id(n);
        assert_eq!(id, format!("disabledmod{}", n));
        assert_eq!(parse_disabled_id(&id), Some(n));
    }
}

#[test]
fn jar_names_ignore_case() {
    assert!(is_jar_file_name("sodium.jar"));
    assert!(is_jar_file_name("SODIUM.JAR"));
    assert!(is_jar_file_name("Mod.Jar"));
    assert!(is_jar_file_name(".jar"));
    assert!(!is_jar_file_name("mod.jar.disabled"));
    assert!(!is_jar_file_name("jar"));
    assert!(!is_jar_file_name("mod.zip"));
}

#[test]
fn manifest_names() {
    assert!(is_manifest_name("fabric.mod.json"));
    assert!(is_manifest_name("quilt.mod.json"));
    assert!(is_manifest_name("META-INF/jars/fabric.mod.json"));
    assert!(is_manifest_name("x/quilt.mod.json"));
    assert!(!is_manifest_name("xfabric.mod.json"));
    assert!(!is_manifest_name("fabric.mod.json.bak"));
    assert!(!is_manifest_name("FABRIC.MOD.JSON"));
}

#[test]
fn mod_id_is_the_trimmed_id_member() {
    assert_eq!(extract_mod_id_from_json(&obj(vec![("id", s("  sodium \n"))])), Some("sodium".to_string()));
}

#[test]
fn mod_id_falls_back_to_the_quilt_loader() {
    let json = obj(vec![("id", s("   ")), ("quilt_loader", obj(vec![("id", s(" qsl "))]))]);
    assert_eq!(extract_mod_id_from_json(&json), Some("qsl".to_string()));
    let json = obj(vec![("quilt_loader", obj(vec![("id", s("lib"))]))]);
    assert_eq!(extract_mod_id_from_json(&json), Some("lib".to_string()));
}

#[test]
fn mod_id_is_absent_without_a_usable_text() {
    assert_eq!(extract_mod_id_from_json(&obj(vec![])), None);
    assert_eq!(
        extract_mod_id_from_json(&obj(vec![("id", JsonValue::Number(JsonNumber::PosInt(5)))])),
        None
    );
    assert_eq!(extract_mod_id_from_json(&obj(vec![("quilt_loader", obj(vec![("id", s(""))]))])), None);
    assert_eq!(extract_mod_id_from_json(&s("id")), None);
}

#[test]
fn first_manifest_with_an_id_wins() {
    let manifests = vec![
        None,
        Some(obj(vec![("name", s("no id"))])),
        Some(obj(vec![("id", s("first"))])),
        Some(obj(vec![("id", s("second"))])),
    ];
    assert_eq!(read_fabric_mod_id(&manifests), Some("first".to_string()));
    assert_eq!(read_fabric_mod_id(&vec![None, None]), None);
    assert_eq!(read_fabric_mod_id(&vec![]), None);
}

#[test]
fn mods_are_listed_by_folder_then_lowercase_name() {
    let entries = vec![
        entry("b.jar", "preinstalled", Some("x")),
        entry("Zeta.jar", "", Some("zeta")),
        entry("readme.txt", "", None),
        entry("alpha.JAR", "", Some("disabledmod2")),
        entry("a.jar", "preinstalled", None),
        entry("beta.jar", "", None),
    ];
    let r = list_mods(&entries);
    let listed: Vec<(&str, &str, bool)> =
        r.iter().map(|m| (m.sub_path.as_str(), m.filename.as_str(), m.is_disabled)).collect();
    assert_eq!(
        listed,
        vec![
            ("", "alpha.JAR", true),
            ("", "beta.jar", false),
            ("", "Zeta.jar", false),
            ("preinstalled", "a.jar", false),
            ("preinstalled", "b.jar", false),
        ]
    );
}

#[test]
fn mods_of_equal_rank_keep_their_order() {
    let entries = vec![entry("MOD.jar", "", None), entry("mod.jar", "", None), entry("Mod.jar", "", None)];
    let r = list_mods(&entries);
    let names: Vec<&str> = r.iter().map(|m| m.filename.as_str()).collect();
    assert_eq!(names, vec!["MOD.jar", "mod.jar", "Mod.jar"]);
}

#[test]
fn next_index_follows_the_largest_in_use() {
    let files = vec![
        file("a.jar", Some("disabledmod3")),
        file("notes.txt", Some("disabledmod9")),
        file("c.jar", Some("sodium")),
        file("d.JAR", Some("disabledmod5")),
        file("e.jar", None),
    ];
    assert_eq!(next_disabled_index(&files), Some(6));
    assert_eq!(next_disabled_index(&vec![]), Some(1));
}

#[test]
fn next_index_is_fresh() {
    let files = vec![file("a.jar", Some("disabledmod1")), file("b.jar", Some("disabledmod2"))];
    let n = next_disabled_index(&files).unwrap();
    for (_, id) in &files {
        assert_ne!(parse_disabled_id(id.as_deref().unwrap()), Some(n));
    }
}

#[test]
fn next_index_has_no_room_past_the_largest_number() {
    let files = vec![file("a.jar", Some("disabledmod4294967295"))];
    assert_eq!(next_disabled_index(&files), None);
}

#[test]
fn mods_with_ids_skip_disabled_and_unidentified_files() {
    let files = vec![
        file("a.jar", Some("sodium")),
        file("b.jar", Some("disabledmod1")),
        file("c.jar", None),
        file("d.txt", Some("lithium")),
        file("E.JAR", Some("iris")),
    ];
    let r = collect_mods_with_ids(&files, "preinstalled");
    let got: Vec<(&str, &str, &str, bool)> = r
        .iter()
        .map(|(id, m)| (id.as_str(), m.filename.as_str(), m.sub_path.as_str(), m.is_disabled))
        .collect();
    assert_eq!(
        got,
        vec![("sodium", "a.jar", "preinstalled", false), ("iris", "E.JAR", "preinstalled", false)]
    );
}

#[test]
fn duplicates_are_grouped_by_id() {
    let regular = vec![
        ("sodium".to_string(), info("sodium-1.jar", "")),
        ("lithium".to_string(), info("lithium.jar", "")),
        ("sodium".to_string(), info("sodium-2.jar", "")),
        ("alone".to_string(), info("alone.jar", "")),
    ];
    let preinstalled = vec![
        ("lithium".to_string(), info("lithium-pre.jar", "preinstalled")),
        ("iris".to_string(), info("iris.jar", "preinstalled")),
        ("sodium".to_string(), info("sodium-pre.jar", "preinstalled")),
    ];
    let groups = find_duplicate_mods(&regular, &preinstalled);
    assert_eq!(groups.len(), 2);
    assert_eq!(groups[0].mod_id, "lithium");
    let names = |v: &Vec<ModInfo>| v.iter().map(|m| m.filename.clone()).collect::<Vec<_>>();
    assert_eq!(names(&groups[0].regular), vec!["lithium.jar"]);
    assert_eq!(names(&groups[0].preinstalled), vec!["lithium-pre.jar"]);
    assert_eq!(groups[1].mod_id, "sodium");
    assert_eq!(names(&groups[1].regular), vec!["sodium-1.jar", "sodium-2.jar"]);
    assert_eq!(names(&groups[1].preinstalled), vec!["sodium-pre.jar"]);
}

#[test]
fn duplicates_within_the_preinstalled_folder_count() {
    let preinstalled = vec![
        ("b".to_string(), info("b1.jar", "preinstalled")),
        ("a".to_string(), info("a.jar", "preinstalled")),
        ("b".to_string(), info("b2.jar", "preinstalled")),
    ];
    let groups = find_duplicate_mods(&vec![], &preinstalled);
    assert_eq!(groups.len(), 1);
    assert_eq!(groups[0].mod_id, "b");
    assert!(groups[0].regular.is_empty());
    assert_eq!(groups[0].preinstalled.len(), 2);
    assert!(find_duplicate_mods(&vec![], &vec![]).is_empty());
}

#[test]
fn duplicate_ids_are_ordered_by_character_code() {
    let regular = vec![
        ("b".to_string(), info("1.jar", "")),
        ("B".to_string(), info("2.jar", "")),
        ("b".to_string(), info("3.jar", "")),
        ("B".to_string(), info("4.jar", "")),
    ];
    let groups = find_duplicate_mods(&regular, &vec![]);
    let ids: Vec<&str> = groups.iter().map(|g| g.mod_id.as_str()).collect();
    assert_eq!(ids, vec!["B", "b"]);
}

#[test]
fn placeholder_manifest_is_compact_sorted_json() {
    assert_eq!(
        stub_mod_json("disabledmod1"),
        "{\"description\":\"Placeholder\",\"entrypoints\":{},\"environment\":\"*\",\"id\":\"disabledmod1\",\"name\":\"mod is disabled, check files\",\"schemaVersion\":1,\"version\":\"1.0.0\"}"
    );
    assert_eq!(stub_entry_name(), "fabric.mod.json");
}

#[test]
fn placeholder_manifest_escapes_the_id() {
    let json = stub_mod_json("a\"b\\c");
    assert!(json.contains("\"id\":\"a\\\"b\\\\c\","));
}

#[test]
fn disabling_a_placeholder_keeps_its_id() {
    let files = vec![file("a.jar", Some("disabledmod4"))];
    match plan_disable(Some("disabledmod4"), &files) {
        Some(DisablePlan::AlreadyDisabled(id)) => assert_eq!(id, "disabledmod4"),
        other => panic!("unexpected plan {:?}", other),
    }
}

#[test]
fn disabling_a_mod_takes_the_next_free_placeholder() {
    let files = vec![
        file("a.jar", Some("disabledmod4")),
        file("b.jar", Some("sodium")),
        file("c.jar", None),
    ];
    for current in [Some("sodium"), None, Some("disabledmodx")] {
        match plan_disable(current, &files) {
            Some(DisablePlan::Replace(id)) => {
                assert_eq!(id, "disabledmod5");
                assert_eq!(parse_disabled_id(&id), Some(5));
            }
            other => panic!("unexpected plan {:?}", other),
        }
    }
    assert!(plan_disable(Some("x"), &vec![file("a.jar", Some("disabledmod4294967295"))]).is_none());
}

#[test]
fn placeholder_manifest_escapes_control_characters() {
    let json = stub_mod_json("a\u{1}\n\t\u{8}\u{c}\r\u{1f}é");
    assert!(json.contains("\"id\":\"a\\u0001\\n\\t\\b\\f\\r\\u001fé\","));
}

#[test]
fn placeholder_manifest_reads_back_as_disabled() {
    let id = disabled_mod_id(12);
    let manifest = obj(vec![("id", s(&id)), ("schemaVersion", JsonValue::Number(JsonNumber::PosInt(1)))]);
    assert_eq!(extract_mod_id_from_json(&manifest), Some(id.clone()));
    assert_eq!(parse_disabled_id(&id), Some(12));
    assert!(stub_mod_json(&id).contains("\"id\":\"disabledmod12\","));
    match plan_disable(Some(&id), &vec![file("x.jar", Some(&id))]) {
        Some(DisablePlan::AlreadyDisabled(again)) => assert_eq!(again, id),
        other => panic!("unexpected plan {:?}", other),
    }
}
