//! Tests of the plugin host and manager lifecycle.

use yaof_core::abi::{ABI_VERSION, NativePlugin, PluginContext, PluginVTable, level_label};
use yaof_core::error::Error;
use yaof_core::host::NativePluginHost;
use yaof_core::manager::{
    DEFAULT_TICK_INTERVAL_MS, LoadOutcome, NativePluginInfoResponse, NativePluginManager,
    derive_plugin_id,
};

/// A scripted module that records every call made through its entry
/// points and returns configured statuses.
#[derive(Default)]
struct MockPlugin {
    init_calls: u32,
    tick_calls: u32,
    shutdown_calls: u32,
    message_calls: u32,
    init_rc: i32,
    tick_rc: i32,
    last_message_type: Option<String>,
    last_payload: Option<Vec<u8>>,
}

impl MockPlugin {
    fn ok() -> Self {
        MockPlugin::default()
    }

    fn failing_init(rc: i32) -> Self {
        MockPlugin {
            init_rc: rc,
            ..MockPlugin::default()
        }
    }
}

impl NativePlugin for MockPlugin {
    fn init(&mut self, _ctx: &mut PluginContext) -> i32 {
        self.init_calls += 1;
        self.init_rc
    }

    fn tick(&mut self, _ctx: &mut PluginContext) -> i32 {
        self.tick_calls += 1;
        self.tick_rc
    }

    fn shutdown(&mut self, _ctx: &mut PluginContext) -> i32 {
        self.shutdown_calls += 1;
        0
    }

    fn handle_message(&mut self, _ctx: &mut PluginContext, msg_type: &str, payload: &[u8]) -> i32 {
        self.message_calls += 1;
        self.last_message_type = Some(msg_type.to_string());
        self.last_payload = Some(payload.to_vec());
        7
    }
}

/// A module that emits an event on every tick.
struct EmittingPlugin;

impl NativePlugin for EmittingPlugin {
    fn init(&mut self, ctx: &mut PluginContext) -> i32 {
        ctx.log(2, "starting up");
        0
    }

    fn tick(&mut self, ctx: &mut PluginContext) -> i32 {
        ctx.emit_event("battery", b"{\"level\": 42}")
    }

    fn shutdown(&mut self, _ctx: &mut PluginContext) -> i32 {
        0
    }

    fn handle_message(&mut self, _ctx: &mut PluginContext, _t: &str, _p: &[u8]) -> i32 {
        0
    }
}

#[test]
fn host_load_runs_init_once() {
    let vt = PluginVTable::declare(MockPlugin::ok());
    let host = NativePluginHost::load(vt, String::from("demo")).ok().unwrap();
    let (rc, vt) = host.unload();
    assert_eq!(rc, 0);
    let m = vt.into_module();
    assert_eq!(m.init_calls, 1);
    assert_eq!(m.shutdown_calls, 1);
}

#[test]
fn host_rejects_version_mismatch_without_calling_init() {
    let vt = PluginVTable::new(ABI_VERSION + 1, true, true, MockPlugin::ok());
    let err = NativePluginHost::load(vt, String::from("demo")).err().unwrap();
    match err.0 {
        Error::AbiMismatch { expected, found } => {
            assert_eq!(expected, ABI_VERSION);
            assert_eq!(found, ABI_VERSION + 1);
        }
        other => panic!("unexpected error: {:?}", other),
    }
    let m = err.1.into_module();
    assert_eq!(m.init_calls, 0);
    assert_eq!(m.shutdown_calls, 0);
}

#[test]
fn host_propagates_init_failure() {
    let vt = PluginVTable::declare(MockPlugin::failing_init(3));
    let err = NativePluginHost::load(vt, String::from("demo")).err().unwrap();
    assert!(matches!(err.0, Error::InitFailed(3)));
    let m = err.1.into_module();
    assert_eq!(m.init_calls, 1);
    assert_eq!(m.shutdown_calls, 0);
}

#[test]
fn host_tick_absent_entry_point_is_success() {
    let vt = PluginVTable::new(ABI_VERSION, false, false, MockPlugin::ok());
    let mut host = NativePluginHost::load(vt, String::from("demo")).ok().unwrap();
    assert_eq!(host.tick(), 0);
    assert_eq!(host.send_message("ping", b"x"), 0);
    let (_, vt) = host.unload();
    let m = vt.into_module();
    assert_eq!(m.tick_calls, 0);
    assert_eq!(m.message_calls, 0);
}

#[test]
fn host_delivers_messages() {
    let vt = PluginVTable::declare(MockPlugin::ok());
    let mut host = NativePluginHost::load(vt, String::from("demo")).ok().unwrap();
    let rc = host.send_message("config", b"payload-bytes");
    assert_eq!(rc, 7);
    let (_, vt) = host.unload();
    let m = vt.into_module();
    assert_eq!(m.message_calls, 1);
    assert_eq!(m.last_message_type.as_deref(), Some("config"));
    assert_eq!(m.last_payload.as_deref(), Some(b"payload-bytes".as_ref()));
}

#[test]
fn host_collects_emitted_events() {
    let vt = PluginVTable::declare(EmittingPlugin);
    let mut host = NativePluginHost::load(vt, String::from("emitter")).ok().unwrap();
    assert_eq!(host.tick(), 0);
    assert_eq!(host.tick(), 0);
    let events = host.take_events();
    assert_eq!(events.len(), 2);
    assert_eq!(events[0].channel, "yaof:service:battery");
    let expected: serde_json::Value = serde_json::from_str("{\"level\": 42}").unwrap();
    assert_eq!(events[0].payload, expected);
    assert!(host.take_events().is_empty());
    let logs = host.take_logs();
    assert_eq!(logs.len(), 1);
    assert_eq!(logs[0].level, 2);
    assert_eq!(logs[0].message, "starting up");
}

#[test]
fn context_rejects_bad_json_payloads() {
    let mut ctx = PluginContext::new();
    assert_eq!(ctx.emit_event("clock", b"{not json"), -1);
    assert!(ctx.take_events().is_empty());
    assert_eq!(ctx.emit_event("clock", b"[1, 2]"), 0);
    let events = ctx.take_events();
    assert_eq!(events.len(), 1);
    assert_eq!(events[0].channel, "yaof:service:clock");
}

#[test]
fn level_labels_match_log_levels() {
    assert_eq!(level_label(0), "TRACE");
    assert_eq!(level_label(1), "DEBUG");
    assert_eq!(level_label(2), "INFO");
    assert_eq!(level_label(3), "WARN");
    assert_eq!(level_label(4), "ERROR");
    assert_eq!(level_label(9), "UNKNOWN");
}

#[test]
fn derive_plugin_id_strips_prefix_and_extension() {
    let id = derive_plugin_id("/plugins/libtopbar_service.dylib").unwrap();
    assert_eq!(id, "topbar-service");
    let id = derive_plugin_id("status_widget.so").unwrap();
    assert_eq!(id, "status-widget");
    let id = derive_plugin_id("widget.dll").unwrap();
    assert_eq!(id, "widget");
    assert!(matches!(
        derive_plugin_id("/plugins/"),
        Err(Error::NotFound(_))
    ));
}

#[test]
fn manager_load_twice_fails_with_already_loaded() {
    let mut mgr: NativePluginManager<MockPlugin> =
        NativePluginManager::new(String::from("/plugins"));
    let id = mgr
        .load_plugin(PluginVTable::declare(MockPlugin::ok()), "/plugins/libdemo.so")
        .ok()
        .unwrap();
    assert_eq!(id, "demo");
    let err = mgr
        .load_plugin(PluginVTable::declare(MockPlugin::ok()), "/plugins/libdemo.so")
        .err()
        .unwrap();
    match err.0 {
        Error::AlreadyLoaded(s) => assert_eq!(s, "demo"),
        other => panic!("unexpected error: {:?}", other),
    }
    // The second module was never touched.
    let m = err.1.into_module();
    assert_eq!(m.init_calls, 0);
    assert!(mgr.is_loaded("demo"));
    assert_eq!(mgr.list_plugins().len(), 1);
}

#[test]
fn manager_unload_triggers_exactly_one_shutdown() {
    let mut mgr: NativePluginManager<MockPlugin> =
        NativePluginManager::new(String::from("/plugins"));
    mgr.load_plugin(PluginVTable::declare(MockPlugin::ok()), "/plugins/libdemo.so")
        .ok()
        .unwrap();
    let statuses = mgr.tick_all();
    assert_eq!(statuses, vec![0]);
    let vt = mgr.unload_plugin("demo").unwrap();
    let m = vt.into_module();
    assert_eq!(m.shutdown_calls, 1);
    assert_eq!(m.tick_calls, 1);
    assert!(!mgr.is_loaded("demo"));
    // Messages after unload find nothing: no stale state is reused.
    assert!(matches!(
        mgr.send_message("demo", "ping", b""),
        Err(Error::NotFound(_))
    ));
    // A fresh load starts from a fresh module.
    mgr.load_plugin(PluginVTable::declare(MockPlugin::ok()), "/plugins/libdemo.so")
        .ok()
        .unwrap();
    let vt = mgr.unload_plugin("demo").unwrap();
    let m = vt.into_module();
    assert_eq!(m.tick_calls, 0);
    assert_eq!(m.shutdown_calls, 1);
}

#[test]
fn manager_unload_unknown_id_is_not_found() {
    let mut mgr: NativePluginManager<MockPlugin> =
        NativePluginManager::new(String::from("/plugins"));
    match mgr.unload_plugin("ghost") {
        Err(Error::NotFound(s)) => assert_eq!(s, "ghost"),
        other => panic!("unexpected result: {:?}", other.map(|_| ())),
    }
}

#[test]
fn manager_tick_failure_keeps_plugin_loaded() {
    let mut mgr: NativePluginManager<MockPlugin> =
        NativePluginManager::new(String::from("/plugins"));
    let failing = MockPlugin {
        tick_rc: -2,
        ..MockPlugin::default()
    };
    mgr.load_plugin(PluginVTable::declare(failing), "/plugins/libflaky.so")
        .ok()
        .unwrap();
    assert_eq!(mgr.tick_all(), vec![-2]);
    assert_eq!(mgr.tick_all(), vec![-2]);
    assert!(mgr.is_loaded("flaky"));
    let m = mgr.unload_plugin("flaky").unwrap().into_module();
    // The failing tick was retried on the next cycle, unconditionally.
    assert_eq!(m.tick_calls, 2);
}

#[test]
fn manager_discovery_skips_failures_and_wrong_extensions() {
    let mut mgr: NativePluginManager<MockPlugin> =
        NativePluginManager::new(String::from("/plugins"));
    let candidates = vec![
        (
            String::from("/plugins/liba_one.so"),
            PluginVTable::declare(MockPlugin::ok()),
        ),
        (
            String::from("/plugins/notes.txt"),
            PluginVTable::declare(MockPlugin::ok()),
        ),
        (
            String::from("/plugins/libbad.so"),
            PluginVTable::declare(MockPlugin::failing_init(1)),
        ),
        (
            String::from("/plugins/libwrong_abi.so"),
            PluginVTable::new(99, true, true, MockPlugin::ok()),
        ),
        (
            String::from("/plugins/libc_two.so"),
            PluginVTable::declare(MockPlugin::ok()),
        ),
    ];
    let (loaded, outcomes) = mgr.discover_and_load(candidates, "so");
    assert_eq!(loaded, vec![String::from("a-one"), String::from("c-two")]);
    assert!(mgr.is_loaded("a-one"));
    assert!(mgr.is_loaded("c-two"));
    assert!(!mgr.is_loaded("bad"));
    assert!(!mgr.is_loaded("wrong-abi"));
    assert!(!mgr.is_loaded("notes"));
    let infos = mgr.list_plugins();
    assert_eq!(infos.len(), 2);
    assert_eq!(infos[0].tick_interval_ms, DEFAULT_TICK_INTERVAL_MS);
    assert_eq!(infos[0].path, "/plugins/liba_one.so");

    // Every candidate is accounted for, in order.
    assert_eq!(outcomes.len(), 5);
    match &outcomes[0] {
        LoadOutcome::Loaded(id) => assert_eq!(id, "a-one"),
        _ => panic!("first candidate must load"),
    }
    match &outcomes[1] {
        LoadOutcome::Skipped(vt) => {
            // Never touched: the extension does not match.
            assert_eq!(vt.module().init_calls, 0);
        }
        _ => panic!("text file must be skipped"),
    }
    match &outcomes[2] {
        LoadOutcome::Refused(Error::InitFailed(rc), vt) => {
            assert_eq!(*rc, 1);
            assert_eq!(vt.module().init_calls, 1);
            assert_eq!(vt.module().shutdown_calls, 0);
        }
        _ => panic!("failing init must be refused"),
    }
    match &outcomes[3] {
        LoadOutcome::Refused(Error::AbiMismatch { expected, found }, vt) => {
            assert_eq!(*expected, ABI_VERSION);
            assert_eq!(*found, 99);
            assert_eq!(vt.module().init_calls, 0);
        }
        _ => panic!("wrong contract version must be refused untouched"),
    }
    match &outcomes[4] {
        LoadOutcome::Loaded(id) => assert_eq!(id, "c-two"),
        _ => panic!("last candidate must load"),
    }
}

#[test]
fn discovery_refuses_duplicate_within_batch() {
    let mut mgr: NativePluginManager<MockPlugin> =
        NativePluginManager::new(String::from("/plugins"));
    let candidates = vec![
        (
            String::from("/plugins/libsame.so"),
            PluginVTable::declare(MockPlugin::ok()),
        ),
        (
            String::from("/plugins/libsame.so"),
            PluginVTable::declare(MockPlugin::ok()),
        ),
    ];
    let (loaded, outcomes) = mgr.discover_and_load(candidates, "so");
    assert_eq!(loaded, vec![String::from("same")]);
    match &outcomes[1] {
        LoadOutcome::Refused(Error::AlreadyLoaded(id), vt) => {
            assert_eq!(id, "same");
            assert_eq!(vt.module().init_calls, 0);
        }
        _ => panic!("second module with the same id must be refused untouched"),
    }
}

#[test]
fn manager_shutdown_all_is_idempotent() {
    let mut mgr: NativePluginManager<MockPlugin> =
        NativePluginManager::new(String::from("/plugins"));
    mgr.load_plugin(PluginVTable::declare(MockPlugin::ok()), "/plugins/liba.so")
        .ok()
        .unwrap();
    mgr.load_plugin(PluginVTable::declare(MockPlugin::ok()), "/plugins/libb.so")
        .ok()
        .unwrap();
    let tables = mgr.shutdown_all();
    assert_eq!(tables.len(), 2);
    for vt in tables {
        assert_eq!(vt.into_module().shutdown_calls, 1);
    }
    assert_eq!(mgr.list_plugins().len(), 0);
    assert!(mgr.shutdown_all().is_empty());
}

#[test]
fn info_response_copies_descriptor() {
    let mut mgr: NativePluginManager<MockPlugin> =
        NativePluginManager::new(String::from("/plugins"));
    mgr.load_plugin(PluginVTable::declare(MockPlugin::ok()), "/plugins/libx.so")
        .ok()
        .unwrap();
    let infos = mgr.list_plugins();
    let resp = NativePluginInfoResponse::from_info(&infos[0]);
    assert_eq!(resp.id, "x");
    assert_eq!(resp.path, "/plugins/libx.so");
    assert_eq!(resp.tick_interval_ms, 1000);
}

fn installed(id: &str, interval: Option<u64>) -> yaof_core::manifest::InstalledPlugin {
    yaof_core::manifest::InstalledPlugin {
        manifest: yaof_core::manifest::PluginManifest {
            id: String::from(id),
            name: String::from("n"),
            version: String::from("1"),
            entry: String::new(),
            core: false,
            provides: Vec::new(),
            consumes: Vec::new(),
            permissions: Vec::new(),
            native: Some(yaof_core::manifest::NativeConfig {
                platforms: vec![String::from("linux-x64")],
                libraries: vec![(String::from("linux-x64"), String::from("native/lib.so"))],
                library: None,
                tick_interval_ms: interval,
            }),
            dev: None,
        },
        path: format!("/plugins/{}", id),
        source: yaof_core::manifest::PluginSource::Local(String::from("/src")),
    }
}

#[test]
fn installed_plans_respect_platform_and_loaded_set() {
    let mut mgr: NativePluginManager<MockPlugin> =
        NativePluginManager::new(String::from("/plugins"));
    mgr.load_plugin(PluginVTable::declare(MockPlugin::ok()), "/x/libalready.so")
        .ok()
        .unwrap();
    let installed = vec![
        installed("already", Some(50)),
        installed("fresh", Some(250)),
        installed("defaulted", None),
    ];
    let plans = mgr.plan_installed_loads(&installed, "linux-x64");
    assert_eq!(plans.len(), 2);
    assert_eq!(plans[0].id, "fresh");
    assert_eq!(plans[0].path, "/plugins/fresh/native/lib.so");
    assert_eq!(plans[0].tick_interval_ms, 250);
    assert_eq!(plans[1].id, "defaulted");
    assert_eq!(plans[1].tick_interval_ms, 1000);
    // On an unsupported platform nothing is planned.
    assert!(mgr.plan_installed_loads(&installed, "win32-x64").is_empty());

    let loads = plans
        .into_iter()
        .map(|p| (p, PluginVTable::declare(MockPlugin::ok())))
        .collect();
    let (loaded, outcomes) = mgr.load_from_installed_plugins(loads);
    assert_eq!(loaded, vec![String::from("fresh"), String::from("defaulted")]);
    assert!(mgr.is_loaded("fresh"));
    assert!(mgr.is_loaded("defaulted"));
    assert_eq!(outcomes.len(), 2);
    assert!(outcomes.iter().all(|o| matches!(o, LoadOutcome::Loaded(_))));
}

#[test]
fn load_plugin_by_id_decision_chain() {
    let mut mgr: NativePluginManager<MockPlugin> =
        NativePluginManager::new(String::from("/plugins"));
    let installed = vec![installed("widget", Some(100))];

    let err = mgr
        .load_plugin_by_id("ghost", &installed, "linux-x64", PluginVTable::declare(MockPlugin::ok()))
        .err()
        .unwrap();
    assert!(matches!(err.0, Error::NotFound(_)));

    let err = mgr
        .load_plugin_by_id("widget", &installed, "win32-x64", PluginVTable::declare(MockPlugin::ok()))
        .err()
        .unwrap();
    assert!(matches!(err.0, Error::NotFound(_)));

    mgr.load_plugin_by_id("widget", &installed, "linux-x64", PluginVTable::declare(MockPlugin::ok()))
        .ok()
        .unwrap();
    let infos = mgr.list_plugins();
    assert_eq!(infos[0].id, "widget");
    assert_eq!(infos[0].path, "/plugins/widget/native/lib.so");
    assert_eq!(infos[0].tick_interval_ms, 100);

    let err = mgr
        .load_plugin_by_id("widget", &installed, "linux-x64", PluginVTable::declare(MockPlugin::ok()))
        .err()
        .unwrap();
    assert!(matches!(err.0, Error::AlreadyLoaded(_)));
}

#[test]
fn manager_drains_plugin_logs() {
    let mut mgr: NativePluginManager<EmittingPlugin> =
        NativePluginManager::new(String::from("/plugins"));
    mgr.load_plugin(PluginVTable::declare(EmittingPlugin), "/plugins/libemitter.so")
        .ok()
        .unwrap();
    let logs = mgr.take_plugin_logs("emitter").unwrap();
    assert_eq!(logs.len(), 1);
    assert_eq!(logs[0].level, 2);
    assert_eq!(logs[0].message, "starting up");
    // Drained: a second take finds nothing new.
    assert!(mgr.take_plugin_logs("emitter").unwrap().is_empty());
    assert!(matches!(
        mgr.take_plugin_logs("ghost"),
        Err(Error::NotFound(_))
    ));
}

#[test]
fn emitted_events_carry_their_name() {
    let vt = PluginVTable::declare(EmittingPlugin);
    let mut host = NativePluginHost::load(vt, String::from("emitter")).ok().unwrap();
    host.tick();
    let events = host.take_events();
    assert_eq!(events[0].name, "battery");
    assert_eq!(events[0].channel, "yaof:service:battery");
}

#[test]
fn derive_plugin_id_handles_backslash_separators() {
    let id = derive_plugin_id("C:\\plugins\\libstatus_bar.dll").unwrap();
    assert_eq!(id, "status-bar");
    let id = derive_plugin_id("/mixed\\libdeep_one.so").unwrap();
    assert_eq!(id, "deep-one");
}

#[test]
fn error_messages_name_their_kind() {
    assert_eq!(
        Error::NotFound(String::from("x")).message(),
        "not found: x"
    );
    assert_eq!(
        Error::AlreadyLoaded(String::from("x")).message(),
        "already loaded: x"
    );
    assert_eq!(
        Error::AbiMismatch { expected: 1, found: 2 }.message(),
        "ABI version mismatch"
    );
    assert_eq!(Error::InitFailed(3).message(), "plugin init failed");
}
