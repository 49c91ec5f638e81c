//! Tests of the system telemetry services over canned probe output.

use yaof_core::system::{
    DesktopProbe, DesktopService, MediaStatus, NetInterface, NetworkProbe, NetworkService,
    NetworkStatus, WindowProbe, WindowService, WindowStatus,
};

#[test]
fn desktop_number_from_first_tool() {
    let svc = DesktopService::new();
    let status = svc.get_status(&DesktopProbe {
        xdotool: Some(String::from("2\n")),
        wmctrl: None,
        xprop: None,
    });
    // The tool counts from zero; the status counts from one.
    assert_eq!(status.number, 3);
    assert_eq!(status.name, None);
}

#[test]
fn desktop_number_from_marked_listing() {
    let svc = DesktopService::new();
    let listing = "0  DG: 3840x1080\n1  * DG: 3840x1080\n2  DG: 3840x1080";
    let status = svc.get_status(&DesktopProbe {
        xdotool: Some(String::from("not a number")),
        wmctrl: Some(String::from(listing)),
        xprop: None,
    });
    assert_eq!(status.number, 2);
}

#[test]
fn desktop_number_from_root_property() {
    let svc = DesktopService::new();
    let status = svc.get_status(&DesktopProbe {
        xdotool: None,
        wmctrl: None,
        xprop: Some(String::from("_NET_CURRENT_DESKTOP(CARDINAL) = 4")),
    });
    assert_eq!(status.number, 5);
}

#[test]
fn desktop_number_defaults_to_one() {
    let svc = DesktopService::new();
    let status = svc.get_status(&DesktopProbe {
        xdotool: None,
        wmctrl: Some(String::from("no marker here")),
        xprop: Some(String::from("garbage")),
    });
    assert_eq!(status.number, 1);
}

#[test]
fn network_status_from_manager_listing() {
    let svc = NetworkService::new();
    let status = svc.get_status(&NetworkProbe {
        nmcli: Some(String::from("ethernet:unavailable:\nwifi:connected:87\nlo:unmanaged:")),
        interfaces: Vec::new(),
    });
    assert!(status.connected);
    assert_eq!(status.connection_type, "wifi");
    assert_eq!(status.strength, Some(87));

    let status = svc.get_status(&NetworkProbe {
        nmcli: Some(String::from("ethernet:connected:\nwifi:disconnected:")),
        interfaces: Vec::new(),
    });
    assert!(status.connected);
    assert_eq!(status.connection_type, "ethernet");
    assert_eq!(status.strength, None);

    let status = svc.get_status(&NetworkProbe {
        nmcli: Some(String::from("wifi:disconnected:")),
        interfaces: Vec::new(),
    });
    assert!(!status.connected);
    assert_eq!(status.connection_type, "disconnected");
}

#[test]
fn network_status_from_interface_fallback() {
    let svc = NetworkService::new();
    let status = svc.get_status(&NetworkProbe {
        nmcli: None,
        interfaces: vec![
            NetInterface { name: String::from("lo"), up: true },
            NetInterface { name: String::from("wlp3s0"), up: true },
        ],
    });
    assert!(status.connected);
    assert_eq!(status.connection_type, "wifi");
    assert_eq!(status.strength, None);

    let status = svc.get_status(&NetworkProbe {
        nmcli: None,
        interfaces: vec![
            NetInterface { name: String::from("eth0"), up: false },
        ],
    });
    assert!(!status.connected);
}

#[test]
fn window_status_from_probe() {
    let svc = WindowService::new();
    let status = svc.get_status(&WindowProbe {
        title: Some(String::from("Editor — main.rs\n")),
        pid: Some(String::from("4242\n")),
        class_name: Some(String::from("editor\n")),
    });
    assert_eq!(status.title.as_deref(), Some("Editor — main.rs"));
    assert_eq!(status.process_id, Some(4242));
    assert_eq!(status.app_name.as_deref(), Some("editor"));

    let status = svc.get_status(&WindowProbe {
        title: None,
        pid: None,
        class_name: None,
    });
    assert_eq!(status.title, None);
    assert_eq!(status.app_name, None);
    assert_eq!(status.process_id, None);
}

#[test]
fn default_statuses() {
    let n = NetworkStatus::default();
    assert!(!n.connected);
    assert_eq!(n.connection_type, "disconnected");
    let w = WindowStatus::default();
    assert_eq!(w.title, None);
    let m = MediaStatus::default();
    assert!(!m.playing);
    assert_eq!(m.title, None);
}
