//! Tests of manifests, installed-plugin decisions, string helpers, the
//! asset protocol and the bundled-plugin listing.

use yaof_core::embedded::{EmbeddedPlugins, should_extract_plugins};
use yaof_core::error::Error;
use yaof_core::hot_reload::{extract_plugin_id_from_path, is_dist_path};
use yaof_core::manifest::{
    InstalledPlugin, NativeConfig, PluginManifest, PluginSource, PositionPreset,
    position_preset_to_string,
};
use yaof_core::protocol::{RequestPlan, get_mime_type, is_safe_path_component, plan_plugin_request};
use yaof_core::strutil::{parse_u32, replace_char, split_char, str_contains, trim};

fn manifest(id: &str, entry: &str, native: Option<NativeConfig>) -> PluginManifest {
    PluginManifest {
        id: String::from(id),
        name: String::from("A plugin"),
        version: String::from("1.0.0"),
        entry: String::from(entry),
        core: false,
        provides: Vec::new(),
        consumes: Vec::new(),
        permissions: Vec::new(),
        native,
        dev: None,
    }
}

fn native_config() -> NativeConfig {
    NativeConfig {
        platforms: vec![String::from("linux-x64"), String::from("darwin-arm64")],
        libraries: vec![(String::from("linux-x64"), String::from("native/libp.so"))],
        library: Some(String::from("native/libp.dylib")),
        tick_interval_ms: Some(250),
    }
}

#[test]
fn native_config_platform_lookup() {
    let c = native_config();
    assert_eq!(
        c.library_for_current_platform("linux-x64").as_deref(),
        Some("native/libp.so")
    );
    // No per-platform entry: the legacy single path stands in.
    assert_eq!(
        c.library_for_current_platform("darwin-arm64").as_deref(),
        Some("native/libp.dylib")
    );
    assert!(c.supports_current_platform("linux-x64"));
    assert!(!c.supports_current_platform("win32-x64"));

    let legacy = NativeConfig {
        platforms: Vec::new(),
        libraries: Vec::new(),
        library: Some(String::from("lib.so")),
        tick_interval_ms: None,
    };
    // An empty platform list supports everything as long as a library is
    // declared.
    assert!(legacy.supports_current_platform("anything"));
}

#[test]
fn current_platform_mapping() {
    assert_eq!(NativeConfig::current_platform("macos", "aarch64"), "darwin-arm64");
    assert_eq!(NativeConfig::current_platform("macos", "x86_64"), "darwin-x64");
    assert_eq!(NativeConfig::current_platform("linux", "x86_64"), "linux-x64");
    assert_eq!(NativeConfig::current_platform("windows", "x86_64"), "win32-x64");
    assert_eq!(NativeConfig::current_platform("freebsd", "x86_64"), "unknown");
}

#[test]
fn manifest_validation_rules() {
    assert!(manifest("p", "index.html", None).validate().is_ok());
    // Native-only plugins need no entry point.
    assert!(manifest("p", "", Some(native_config())).validate().is_ok());
    match manifest("", "index.html", None).validate() {
        Err(Error::ManifestParse(m)) => assert_eq!(m, "id is required"),
        other => panic!("unexpected: {:?}", other),
    }
    match manifest("p", "", None).validate() {
        Err(Error::ManifestParse(m)) => {
            assert_eq!(m, "entry is required for non-native plugins")
        }
        other => panic!("unexpected: {:?}", other),
    }
}

#[test]
fn manifest_flags() {
    let m = manifest("p", "", Some(native_config()));
    assert!(m.has_native());
    assert!(m.is_native_only());
    let m = manifest("p", "index.html", None);
    assert!(!m.has_native());
    assert!(!m.is_native_only());
    let mut core = manifest("yaof-core-settings", "index.html", None);
    core.core = true;
    assert!(core.is_valid_core_plugin());
    let mut imposter = manifest("sneaky", "index.html", None);
    imposter.core = true;
    assert!(!imposter.is_valid_core_plugin());
}

#[test]
fn installed_plugin_paths_and_loadability() {
    let p = InstalledPlugin {
        manifest: manifest("p", "", Some(native_config())),
        path: String::from("/home/u/.yaof/plugins/p"),
        source: PluginSource::Local(String::from("/src/p")),
    };
    assert_eq!(
        p.native_library_path("linux-x64").as_deref(),
        Some("/home/u/.yaof/plugins/p/native/libp.so")
    );
    assert!(p.can_load_native("linux-x64"));
    assert!(!p.can_load_native("win32-x64"));
    assert!(p.is_native_only());
    assert!(!p.has_ui());
}

#[test]
fn position_presets_spell_out() {
    assert_eq!(position_preset_to_string(&PositionPreset::TopLeft), "top-left");
    assert_eq!(position_preset_to_string(&PositionPreset::Center), "center");
    assert_eq!(
        position_preset_to_string(&PositionPreset::BottomRight),
        "bottom-right"
    );
}

#[test]
fn string_helpers() {
    assert_eq!(trim("  hello\n"), "hello");
    assert_eq!(trim("\t\r\n "), "");
    assert_eq!(trim("no-space"), "no-space");
    assert_eq!(replace_char("a_b_c", '_', '-'), "a-b-c");
    assert_eq!(parse_u32("042"), Some(42));
    assert_eq!(parse_u32(""), None);
    assert_eq!(parse_u32("12x"), None);
    assert_eq!(parse_u32("4294967295"), Some(u32::MAX));
    assert_eq!(parse_u32("4294967296"), None);
    assert!(str_contains("a * b", " * "));
    assert!(!str_contains("a*b", " * "));
    let parts = split_char("a::b", ':');
    assert_eq!(parts, vec!["a", "", "b"]);
    assert_eq!(split_char("", ':'), vec![""]);
}

#[test]
fn mime_types_follow_extensions() {
    assert_eq!(get_mime_type("index.html"), "text/html");
    assert_eq!(get_mime_type("app.JS"), "application/javascript");
    assert_eq!(get_mime_type("style.css"), "text/css");
    assert_eq!(get_mime_type("data.json"), "application/json");
    assert_eq!(get_mime_type("bundle.js.map"), "application/json");
    assert_eq!(get_mime_type("pic.jpeg"), "image/jpeg");
    assert_eq!(get_mime_type("font.woff2"), "font/woff2");
    assert_eq!(get_mime_type("mod.wasm"), "application/wasm");
    assert_eq!(get_mime_type("README"), "application/octet-stream");
    assert_eq!(get_mime_type("archive.tar.gz"), "application/octet-stream");
}

#[test]
fn safe_path_components() {
    assert!(is_safe_path_component("topbar"));
    assert!(!is_safe_path_component(""));
    assert!(!is_safe_path_component("."));
    assert!(!is_safe_path_component(".."));
}

#[test]
fn request_plans() {
    match plan_plugin_request("topbar", "/assets/app.js") {
        RequestPlan::Serve { file_path, mime_type } => {
            assert_eq!(file_path, "assets/app.js");
            assert_eq!(mime_type, "application/javascript");
        }
        other => panic!("unexpected plan: {:?}", plan_name(&other)),
    }
    // An empty path serves the index page.
    match plan_plugin_request("topbar", "/") {
        RequestPlan::Serve { file_path, mime_type } => {
            assert_eq!(file_path, "index.html");
            assert_eq!(mime_type, "text/html");
        }
        other => panic!("unexpected plan: {:?}", plan_name(&other)),
    }
    assert!(matches!(
        plan_plugin_request("..", "/index.html"),
        RequestPlan::InvalidPluginId
    ));
    assert!(matches!(
        plan_plugin_request("topbar", "/../secrets.txt"),
        RequestPlan::InvalidFilePath
    ));
}

fn plan_name(p: &RequestPlan) -> &'static str {
    match p {
        RequestPlan::InvalidPluginId => "InvalidPluginId",
        RequestPlan::InvalidFilePath => "InvalidFilePath",
        RequestPlan::Serve { .. } => "Serve",
    }
}

#[test]
fn embedded_listing_and_extraction() {
    let files = vec![
        String::from("core-settings/overlay.json"),
        String::from("core-settings/dist/index.html"),
        String::from("topbar/overlay.json"),
    ];
    let ids = EmbeddedPlugins::list_plugins(&files);
    assert_eq!(ids, vec!["core-settings", "topbar"]);
    assert!(!should_extract_plugins(&files));
    assert!(should_extract_plugins(&vec![String::from("topbar/overlay.json")]));
}

#[test]
fn hot_reload_path_mapping() {
    assert!(is_dist_path("/p/topbar/dist/index.html"));
    assert!(is_dist_path("/p/topbar/dist"));
    assert!(!is_dist_path("/p/topbar/src/main.ts"));
    let watched = vec![
        (String::from("/p/topbar/dist"), String::from("topbar")),
        (String::from("/p/clock"), String::from("clock")),
    ];
    assert_eq!(
        extract_plugin_id_from_path("/p/topbar/dist/app.js", &watched).as_deref(),
        Some("topbar")
    );
    assert_eq!(
        extract_plugin_id_from_path("/p/clock/dist/app.js", &watched).as_deref(),
        Some("clock")
    );
    assert_eq!(extract_plugin_id_from_path("/elsewhere/x", &watched), None);
}
