use right_panel::manifest::{api_one, safe, semverish, valid_id, Manifest, Permission, Setting};
use right_panel::plugins::safe_relative;

#[test]
fn ids() {
    assert!(valid_id("hello-world.2"));
    for s in ["", "../x", "hello/world", "UPPER"] {
        assert!(!valid_id(s));
    }
}

#[test]
fn rejects_unsafe_paths() {
    for p in ["../x", "/etc/passwd", "C:\\x", "a/../../x"] {
        assert!(!safe_relative(p));
    }
}

#[test]
fn safe_relative_accepts_plain_paths() {
    assert!(safe_relative("index.html"));
    assert!(safe_relative("assets/icon.svg"));
    assert!(safe_relative("a/./b"));
    assert!(!safe_relative(""));
    assert!(!safe_relative("./a"));
    assert!(!safe_relative("a\\b"));
}

#[test]
fn id_edge_cases() {
    assert!(valid_id("a"));
    assert!(valid_id("0.a_b-c"));
    assert!(!valid_id(".hidden"));
    assert!(!valid_id("-x"));
    assert!(valid_id(&"a".repeat(64)));
    assert!(!valid_id(&"a".repeat(65)));
    assert!(!valid_id("café"));
}

#[test]
fn semver_shapes() {
    assert!(semverish("1.0.0"));
    assert!(semverish("10.20.30"));
    assert!(!semverish("1.0"));
    assert!(!semverish("1.0.0.0"));
    assert!(!semverish("1..0"));
    assert!(!semverish("1.0.x"));
    assert!(!semverish("v1.0.0"));
}

#[test]
fn manifest_paths() {
    assert!(safe("index.html"));
    assert!(safe("ui/index.html"));
    assert!(!safe("/index.html"));
    assert!(!safe("../index.html"));
    assert!(!safe("c:index.html"));
    assert!(safe(""));
    assert!(!safe("..\\x"));
    assert!(!safe("\\x"));
    assert!(!safe("a\\..\\x"));
    assert!(!safe(".\\x"));
    assert!(safe("ui\\index.html"));
}

fn manifest() -> Manifest {
    Manifest {
        manifest_version: 1,
        api_version: api_one(),
        id: "notes".to_string(),
        name: "Notes".to_string(),
        version: "1.2.3".to_string(),
        description: String::new(),
        author: String::new(),
        homepage: String::new(),
        icon: "icon.svg".to_string(),
        entry: "index.html".to_string(),
        permissions: vec![Permission::Storage],
        settings: vec![Setting {
            key: "color".to_string(),
            kind: "select".to_string(),
            label: "Color".to_string(),
            default_json: "\"red\"".to_string(),
            options: vec!["red".to_string()],
        }],
    }
}

fn err(m: &Manifest, entry: bool, icon: bool) -> String {
    m.validate(entry, icon).unwrap_err()
}

#[test]
fn validate_accepts_a_good_manifest() {
    assert_eq!(api_one(), 1);
    assert!(manifest().validate(true, true).is_ok());
    let mut m = manifest();
    m.icon = String::new();
    assert!(m.validate(true, false).is_ok());
}

#[test]
fn validate_reports_each_rule() {
    let mut m = manifest();
    m.api_version = 2;
    assert_eq!(err(&m, true, true), "unsupported manifest or API version");
    let mut m = manifest();
    m.id = "Bad".to_string();
    assert_eq!(err(&m, true, true), "invalid plugin id");
    let mut m = manifest();
    m.name = " \t ".to_string();
    assert_eq!(err(&m, true, true), "invalid manifest text field");
    let mut m = manifest();
    m.author = "x".repeat(101);
    assert_eq!(err(&m, true, true), "invalid manifest text field");
    let mut m = manifest();
    m.version = "1.2".to_string();
    assert_eq!(err(&m, true, true), "version must look like SemVer");
    assert_eq!(err(&manifest(), true, false), "entry/icon must be an existing safe relative path");
    let mut m = manifest();
    m.entry = "../index.html".to_string();
    assert_eq!(err(&m, true, true), "entry/icon must be an existing safe relative path");
    let mut m = manifest();
    m.entry = String::new();
    assert_eq!(err(&m, false, true), "entry is required");
    let mut m = manifest();
    m.permissions = vec![Permission::Storage; 9];
    assert_eq!(err(&m, true, true), "too many permissions or settings");
    let mut m = manifest();
    m.settings[0].options.clear();
    assert_eq!(err(&m, true, true), "invalid settings schema");
    let mut m = manifest();
    m.settings[0].kind = "color".to_string();
    assert_eq!(err(&m, true, true), "invalid settings schema");
}
