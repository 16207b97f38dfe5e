use right_panel::bridge::{plugin_request, storage_op_name, web_url, BridgeCall};
use right_panel::document::{build_document, check_entry_size, MAX_FILE};
use right_panel::manifest::{Manifest, Permission};
use right_panel::plugins::{check_archive_entry, check_package_size, Manager, PluginInfo};
use right_panel::storage::{PluginStore, StorageOp};
use right_panel::util::{base64, icon_is_svg, png_data_uri, svg_data_uri, tray_rgba};

fn manifest(id: &str, name: &str, permissions: Vec<Permission>) -> Manifest {
    Manifest {
        manifest_version: 1,
        api_version: 1,
        id: id.to_string(),
        name: name.to_string(),
        version: "1.0.0".to_string(),
        description: String::new(),
        author: String::new(),
        homepage: String::new(),
        icon: String::new(),
        entry: "index.html".to_string(),
        permissions,
        settings: Vec::new(),
    }
}

fn plugin(id: &str, name: &str, permissions: Vec<Permission>) -> PluginInfo {
    PluginInfo::read(manifest(id, name, permissions), true, false, "<p>".to_string(), None, None)
        .unwrap()
}

#[test]
fn reading_a_plugin_validates_it() {
    let p = PluginInfo::read(manifest("a", "A", vec![]), true, false, "doc".to_string(), None, Some(false))
        .unwrap();
    assert!(!p.enabled);
    assert!(p.error.is_none());
    assert_eq!(p.document.as_deref(), Some("doc"));
    assert_eq!(
        PluginInfo::read(manifest("a", "A", vec![]), false, false, "doc".to_string(), None, None).err().unwrap(),
        "entry/icon must be an existing safe relative path"
    );
    assert_eq!(
        PluginInfo::read(manifest("A", "A", vec![]), true, false, "doc".to_string(), None, None).err().unwrap(),
        "invalid plugin id"
    );
}

fn host() -> Manager {
    Manager::from_plugins(vec![
        plugin("zeta", "Zeta", vec![]),
        plugin("alpha", "Alpha", vec![Permission::Storage, Permission::SystemOpenUrl]),
        plugin("alpha", "Second Alpha", vec![]),
        plugin("clip", "Clip", vec![Permission::ClipboardRead]),
    ])
}

#[test]
fn load_keeps_first_of_each_id_in_id_order() {
    let m = host();
    let ids: Vec<&str> = m.infos().iter().map(|p| p.manifest.id.as_str()).collect();
    assert_eq!(ids, vec!["alpha", "clip", "zeta"]);
    assert_eq!(m.get("alpha").unwrap().manifest.name, "Alpha");
    assert!(m.get("beta").is_none());
    assert_eq!(m.permissions("clip").unwrap(), &vec![Permission::ClipboardRead]);
    assert!(m.permissions("nope").is_none());
}

#[test]
fn loaded_plugins_follow_enabled_setting() {
    let on = PluginInfo::loaded(manifest("a", "A", vec![]), None, None, "x".to_string());
    assert!(on.enabled);
    assert_eq!(on.document.as_deref(), Some("x"));
    assert!(on.error.is_none());
    let off = PluginInfo::loaded(manifest("a", "A", vec![]), Some(false), None, "x".to_string());
    assert!(!off.enabled);
}

#[test]
fn install_and_uninstall() {
    let mut m = host();
    assert_eq!(m.check_new("alpha").unwrap_err(), "plugin 'alpha' is already installed");
    assert!(m.check_new("beta").is_ok());
    m.add(plugin("beta", "Beta", vec![]));
    assert_eq!(m.get("beta").unwrap().manifest.name, "Beta");
    assert!(m.uninstall("beta").is_ok());
    assert!(m.get("beta").is_none());
    assert_eq!(m.uninstall("beta").unwrap_err(), "plugin not found");
}

#[test]
fn package_rules() {
    assert_eq!(check_package_size(0).unwrap_err(), "package has an invalid number of files");
    assert!(check_package_size(1).is_ok());
    assert!(check_package_size(128).is_ok());
    assert!(check_package_size(129).is_err());
    assert_eq!(check_archive_entry("index.html", 10, false), Ok(true));
    assert_eq!(check_archive_entry("assets/", 0, true), Ok(false));
    assert_eq!(check_archive_entry("../evil", 10, false).unwrap_err(), "unsafe archive entry");
    assert!(check_archive_entry("big.bin", 2 * 1024 * 1024, false).is_ok());
    assert!(check_archive_entry("big.bin", 2 * 1024 * 1024 + 1, false).is_err());
}

#[test]
fn storage_read_after_write() {
    let m = host();
    let s = PluginStore::new();
    let r = m.storage("alpha", "set", Some("k"), Some("[1,2]".to_string()), s).unwrap();
    assert_eq!(r.value, "null");
    assert_eq!(r.body, "{\"k\":[1,2]}");
    let r = m.storage("alpha", "get", Some("k"), None, r.store).unwrap();
    assert_eq!(r.value, "[1,2]");
    let r = m.storage("alpha", "get", Some("other"), None, r.store).unwrap();
    assert_eq!(r.value, "null");
    let r = m.storage("alpha", "set", Some("a\"b"), None, r.store).unwrap();
    assert_eq!(r.body, "{\"a\\\"b\":null,\"k\":[1,2]}");
    let r = m.storage("alpha", "remove", Some("k"), None, r.store).unwrap();
    assert_eq!(r.body, "{\"a\\\"b\":null}");
    let r = m.storage("alpha", "clear", Some("_"), None, r.store).unwrap();
    assert_eq!(r.body, "{}");
}

#[test]
fn storage_errors() {
    let m = host();
    assert_eq!(m.storage("nobody", "get", Some("k"), None, PluginStore::new()).err().unwrap(), "unknown plugin");
    assert_eq!(m.storage("alpha", "get", None, None, PluginStore::new()).err().unwrap(), "invalid storage key");
    assert_eq!(m.storage("alpha", "get", Some(""), None, PluginStore::new()).err().unwrap(), "invalid storage key");
    let long = "k".repeat(129);
    assert_eq!(m.storage("alpha", "get", Some(&long), None, PluginStore::new()).err().unwrap(), "invalid storage key");
    assert_eq!(m.storage("alpha", "drop", Some("k"), None, PluginStore::new()).err().unwrap(), "unknown storage operation");
    let big = format!("\"{}\"", "x".repeat(70000));
    assert_eq!(
        m.storage("alpha", "set", Some("k"), Some(big), PluginStore::new()).err().unwrap(),
        "plugin storage limit is 64 KiB"
    );
}

#[test]
fn plugin_store_insert_and_lookup() {
    let mut s = PluginStore::new();
    s.insert("b".to_string(), "2".to_string());
    s.insert("a".to_string(), "1".to_string());
    s.insert("b".to_string(), "3".to_string());
    assert_eq!(s.lookup(&"b".to_string()), "3");
    assert_eq!(s.lookup(&"c".to_string()), "null");
    assert_eq!(s.to_json(), "{\"a\":1,\"b\":3}");
}

#[test]
fn bridge_permissions() {
    let m = host();
    assert!(plugin_request(&m, "alpha", "storage.get", "") == Ok(BridgeCall::Storage(StorageOp::Read)));
    assert!(plugin_request(&m, "alpha", "storage.clear", "") == Ok(BridgeCall::Storage(StorageOp::Wipe)));
    assert_eq!(plugin_request(&m, "clip", "storage.set", "").err().unwrap(), "storage permission denied");
    assert!(plugin_request(&m, "clip", "clipboard.read", "") == Ok(BridgeCall::ClipboardRead));
    assert_eq!(plugin_request(&m, "clip", "clipboard.write", "").err().unwrap(), "clipboard.write permission denied");
    assert_eq!(plugin_request(&m, "alpha", "clipboard.read", "").err().unwrap(), "clipboard.read permission denied");
    assert!(plugin_request(&m, "alpha", "system.openUrl", "https://example.com") == Ok(BridgeCall::OpenUrl));
    assert!(plugin_request(&m, "alpha", "system.openUrl", "http://example.com") == Ok(BridgeCall::OpenUrl));
    assert_eq!(plugin_request(&m, "alpha", "system.openUrl", "file:///etc/passwd").err().unwrap(), "only http(s) URLs are allowed");
    assert_eq!(plugin_request(&m, "zeta", "system.openUrl", "https://example.com").err().unwrap(), "system.openUrl permission denied");
    assert!(plugin_request(&m, "zeta", "ui.close", "") == Ok(BridgeCall::Close));
    assert!(plugin_request(&m, "zeta", "ui.toast", "") == Ok(BridgeCall::Toast));
    assert_eq!(plugin_request(&m, "zeta", "fs.read", "").err().unwrap(), "unknown plugin API operation");
    assert_eq!(plugin_request(&m, "ghost", "storage.get", "").err().unwrap(), "storage permission denied");
    assert!(m.allows("alpha", Permission::Storage));
    assert!(!m.allows("ghost", Permission::Storage));
    assert!(web_url("https://a"));
    assert!(!web_url("HTTPS://a"));
    assert_eq!(storage_op_name(StorageOp::Delete), "remove");
}

#[test]
fn bridge_precedes_entry_markup() {
    assert!(
        format!("<script>bridge</script>{}", "<button>plugin</button>")
            .starts_with("<script>bridge")
    );
    let html = "<button>plugin</button>".to_string();
    let doc = build_document(&html, None, None, "demo", "1.0.0");
    assert!(doc.starts_with("<script>(function(){const ID=\"demo\";"));
    assert!(doc.contains("plugin:{id:ID,version:\"1.0.0\"}"));
    assert!(doc.ends_with("</script><button>plugin</button>"));
}

#[test]
fn document_inlines_style_and_script() {
    let html = "<link href=\"style.css\"></link><p>x</p><script src=\"plugin.js\"></script><link href=\"style.css\"></link>".to_string();
    let css = "p{color:red}".to_string();
    let js = "go()".to_string();
    let doc = build_document(&html, Some(&css), Some(&js), "a\"b", "1.0.0");
    assert!(doc.ends_with("<style>p{color:red}</style><p>x</p><script>go()</script><style>p{color:red}</style>"));
    assert!(doc.starts_with("<script>(function(){const ID=\"a\\\"b\";"));
    let plain = build_document(&html, None, None, "a", "1.0.0");
    assert!(plain.ends_with(&html));
}

#[test]
fn entry_size_limit() {
    assert!(check_entry_size(MAX_FILE).is_ok());
    assert_eq!(check_entry_size(MAX_FILE + 1).unwrap_err(), "entry is too large");
}

#[test]
fn base64_and_icons() {
    assert_eq!(base64(&b"".to_vec()), "");
    assert_eq!(base64(&b"f".to_vec()), "Zg==");
    assert_eq!(base64(&b"fo".to_vec()), "Zm8=");
    assert_eq!(base64(&b"foo".to_vec()), "Zm9v");
    assert_eq!(base64(&b"foobar".to_vec()), "Zm9vYmFy");
    assert_eq!(base64(&vec![0xfb, 0xff]), "+/8=");
    assert!(icon_is_svg("icon.svg"));
    assert!(!icon_is_svg("icon.png"));
    assert!(!icon_is_svg("svg"));
    assert_eq!(svg_data_uri(&b"<svg/>".to_vec()).unwrap(), "data:image/svg+xml;base64,PHN2Zy8+");
    assert!(svg_data_uri(&vec![0u8; 128 * 1024]).is_some());
    assert!(svg_data_uri(&vec![0u8; 128 * 1024 + 1]).is_none());
    assert_eq!(png_data_uri(&b"png".to_vec()), "data:image/png;base64,cG5n");
}

#[test]
fn tray_icon_pixels() {
    let px = tray_rgba();
    assert_eq!(px.len(), 32 * 32 * 4);
    assert_eq!(&px[0..4], &[0, 0, 0, 0]);
    let at = |x: usize, y: usize| &px[4 * (32 * y + x)..4 * (32 * y + x) + 4];
    assert_eq!(at(10, 10), &[40, 44, 60, 255]);
    assert_eq!(at(25, 10), &[235, 240, 250, 255]);
    assert_eq!(at(25, 2), &[40, 44, 60, 255]);
    assert_eq!(at(31, 31), &[0, 0, 0, 0]);
}
