//! Built-in system telemetry services.
//!
//! Each service turns the raw output of the platform's probing tools into a
//! status record.  Running those tools is I/O and stays with the caller; a
//! probe struct hands their captured output in, and the parsing and
//! fallback decisions here are verified against it.  A field left `None`
//! stands for a tool that failed or is absent, which sends the service to
//! its next fallback.

use vstd::prelude::*;
use vstd::string::StringExecFns;

use crate::strutil::{
    parse_u32, spec_all_digits, spec_digits_value, spec_contains_str, spec_has_prefix,
    spec_split, spec_str_eq_ci, spec_trim, split_char, str_contains, str_eq,
    str_eq_ignore_ascii_case, str_has_prefix, trim,
};

verus! {

/// Network connection status.
pub struct NetworkStatus {
    pub connected: bool,
    pub connection_type: String,
    pub strength: Option<u8>,
}

impl Default for NetworkStatus {
    /// The disconnected status.
    fn default() -> (r: Self)
        ensures
            !r.connected,
            r.connection_type@ == "disconnected"@,
            r.strength is None,
    {
        NetworkStatus {
            connected: false,
            connection_type: String::from_str("disconnected"),
            strength: None,
        }
    }
}

/// Focused-window status.
pub struct WindowStatus {
    pub title: Option<String>,
    pub app_name: Option<String>,
    pub process_id: Option<u32>,
}

impl Default for WindowStatus {
    /// The status with nothing known about the focused window.
    fn default() -> (r: Self)
        ensures
            r.title is None,
            r.app_name is None,
            r.process_id is None,
    {
        WindowStatus { title: None, app_name: None, process_id: None }
    }
}

/// Active desktop/workspace status.
pub struct DesktopStatus {
    pub number: u32,
    pub name: Option<String>,
}

impl Default for DesktopStatus {
    /// The zero status.
    fn default() -> (r: Self)
        ensures
            r.number == 0,
            r.name is None,
    {
        DesktopStatus { number: 0, name: None }
    }
}

/// Now-playing media status.
pub struct MediaStatus {
    pub playing: bool,
    pub title: Option<String>,
    pub artist: Option<String>,
    pub album: Option<String>,
    pub duration_ms: Option<u64>,
    pub position_ms: Option<u64>,
    pub app_name: Option<String>,
}

impl Default for MediaStatus {
    /// The status with nothing playing.
    fn default() -> (r: Self)
        ensures
            !r.playing,
            r.title is None,
            r.artist is None,
            r.album is None,
            r.duration_ms is None,
            r.position_ms is None,
            r.app_name is None,
    {
        MediaStatus {
            playing: false,
            title: None,
            artist: None,
            album: None,
            duration_ms: None,
            position_ms: None,
            app_name: None,
        }
    }
}

/// A desktop number parsed from one tool's output: the trimmed text as a
/// decimal, converted from the tool's zero-based count to one-based.
pub open spec fn spec_parsed_desktop(out: Seq<char>) -> Option<u32> {
    let t = spec_trim(out);
    if spec_all_digits(t) && spec_digits_value(t) < u32::MAX {
        Option::Some((spec_digits_value(t) + 1) as u32)
    } else {
        Option::None
    }
}

/// Parses one tool's output as a zero-based desktop number.
fn parsed_desktop(out: &str) -> (r: Option<u32>)
    ensures
        r == spec_parsed_desktop(out@),
{
    let t = trim(out);
    match parse_u32(t.as_str()) {
        Some(v) => {
            if v < u32::MAX {
                Some(v + 1)
            } else {
                None
            }
        },
        None => None,
    }
}

/// The first line marked as current in a desktop listing: the lowest index
/// whose line contains `" * "`.
pub open spec fn spec_marked_line(lines: Seq<Seq<char>>) -> Option<int>
    decreases lines.len(),
{
    if lines.len() == 0 {
        Option::None
    } else if spec_contains_str(lines[0], " * "@) {
        Option::Some(0)
    } else {
        match spec_marked_line(lines.skip(1)) {
            Option::Some(i) => Option::Some(i + 1),
            Option::None => Option::None,
        }
    }
}

/// Finds the first line containing the current-desktop marker.
fn find_marked_line(lines: &Vec<String>) -> (r: Option<usize>)
    ensures
        match r {
            Some(i) => spec_marked_line(lines.deep_view()) == Option::Some(i as int),
            None => spec_marked_line(lines.deep_view()) is None,
        },
{
    let ghost dv = lines.deep_view();
    let mut i: usize = 0;
    proof {
        assert(dv.skip(0) =~= dv);
    }
    while i < lines.len()
        invariant
            i <= dv.len(),
            dv.len() == lines@.len(),
            dv == lines.deep_view(),
            spec_marked_line(dv) == match spec_marked_line(dv.skip(i as int)) {
                Option::Some(k) => Option::Some(k + i),
                Option::None => Option::None,
            },
        decreases dv.len() - i,
    {
        proof {
            assert(dv.skip(i as int)[0] == dv[i as int]);
            assert(dv[i as int] == lines@[i as int]@);
        }
        if str_contains(lines[i].as_str(), " * ") {
            proof {
                assert(spec_marked_line(dv.skip(i as int)) == Option::Some(0int));
            }
            return Some(i);
        }
        proof {
            assert(dv.skip(i as int).skip(1) =~= dv.skip(i + 1));
        }
        i += 1;
    }
    proof {
        assert(dv.skip(i as int) =~= Seq::<Seq<char>>::empty());
    }
    None
}

/// The captured output of the desktop-probing tools, in fallback order.
pub struct DesktopProbe {
    /// `xdotool get-desktop`, when it ran successfully.
    pub xdotool: Option<String>,
    /// `wmctrl -d`, when it ran successfully.
    pub wmctrl: Option<String>,
    /// `xprop -root _NET_CURRENT_DESKTOP`, when it ran successfully.
    pub xprop: Option<String>,
}

/// The desktop number a marked listing yields: one-based position of the
/// marked line, when one exists and fits.
pub open spec fn spec_wmctrl_desktop(out: Seq<char>) -> Option<u32> {
    match spec_marked_line(spec_split(out, '\n')) {
        Option::Some(i) => if i + 1 <= u32::MAX {
            Option::Some((i + 1) as u32)
        } else {
            Option::None
        },
        Option::None => Option::None,
    }
}

/// The desktop number a root-property dump yields: the decimal after the
/// `=`, one-based.
pub open spec fn spec_xprop_desktop(out: Seq<char>) -> Option<u32> {
    let parts = spec_split(out, '=');
    if parts.len() >= 2 {
        spec_parsed_desktop(parts[1])
    } else {
        Option::None
    }
}

/// The active desktop number a probe decides on: the first tool in the
/// fallback order whose output parses, else 1.
pub open spec fn spec_desktop_number(p: &DesktopProbe) -> u32 {
    let a = match p.xdotool {
        Option::Some(out) => spec_parsed_desktop(out@),
        Option::None => Option::None,
    };
    match a {
        Option::Some(n) => n,
        Option::None => {
            let b = match p.wmctrl {
                Option::Some(out) => spec_wmctrl_desktop(out@),
                Option::None => Option::None,
            };
            match b {
                Option::Some(n) => n,
                Option::None => {
                    let c = match p.xprop {
                        Option::Some(out) => spec_xprop_desktop(out@),
                        Option::None => Option::None,
                    };
                    match c {
                        Option::Some(n) => n,
                        Option::None => 1u32,
                    }
                },
            }
        },
    }
}

/// Service for the active desktop/workspace.
pub struct DesktopService {
}

impl DesktopService {
    /// A fresh desktop service.
    pub fn new() -> (r: Self)
        ensures
            r == (DesktopService {  }),
    {
        DesktopService {  }
    }

    /// The current desktop status decided from the probe: the first
    /// tool whose output parses wins, and with no usable output the
    /// desktop is reported as 1.
    pub fn get_status(&self, probe: &DesktopProbe) -> (r: DesktopStatus)
        ensures
            r.number == spec_desktop_number(probe),
            r.name is None,
    {
        if let Some(out) = &probe.xdotool {
            if let Some(n) = parsed_desktop(out.as_str()) {
                return DesktopStatus { number: n, name: None };
            }
        }
        if let Some(out) = &probe.wmctrl {
            let lines = split_char(out.as_str(), '\n');
            if let Some(i) = find_marked_line(&lines) {
                if i < u32::MAX as usize {
                    return DesktopStatus { number: (i + 1) as u32, name: None };
                }
            }
        }
        if let Some(out) = &probe.xprop {
            let parts = split_char(out.as_str(), '=');
            if parts.len() >= 2 {
                proof {
                    assert(parts.deep_view()[1] == parts@[1]@);
                }
                if let Some(n) = parsed_desktop(parts[1].as_str()) {
                    return DesktopStatus { number: n, name: None };
                }
            }
        }
        DesktopStatus { number: 1, name: None }
    }
}

impl Default for DesktopService {
    /// Same as [`DesktopService::new`].
    fn default() -> (r: Self)
        ensures
            r == (DesktopService {  }),
    {
        DesktopService::new()
    }
}

/// One network interface the fallback probe saw: its name and whether its
/// operational state is up.
pub struct NetInterface {
    pub name: String,
    pub up: bool,
}

/// The captured output of the network-probing tools.
pub struct NetworkProbe {
    /// `nmcli -t -f TYPE,STATE,SIGNAL device`, when it ran successfully.
    pub nmcli: Option<String>,
    /// The interface listing used when the manager tool is unavailable.
    pub interfaces: Vec<NetInterface>,
}

/// The strength field of a connected wireless row: its decimal value when
/// it fits a `u8`.
pub open spec fn spec_strength(field: Seq<char>) -> Option<u8> {
    if spec_all_digits(field) && spec_digits_value(field) <= u8::MAX {
        Option::Some(spec_digits_value(field) as u8)
    } else {
        Option::None
    }
}

/// The first connected row of the manager tool's listing: whether it is
/// wireless, and its signal strength when wireless and present.
pub open spec fn spec_nmcli_scan(lines: Seq<Seq<char>>) -> Option<(bool, Option<u8>)>
    decreases lines.len(),
{
    if lines.len() == 0 {
        Option::None
    } else {
        let parts = spec_split(lines[0], ':');
        if parts.len() >= 2 && parts[1] == "connected"@ {
            let wifi = spec_str_eq_ci(parts[0], "wifi"@);
            let strength = if wifi && parts.len() >= 3 {
                spec_strength(parts[2])
            } else {
                Option::None
            };
            Option::Some((wifi, strength))
        } else {
            spec_nmcli_scan(lines.skip(1))
        }
    }
}

/// The first usable interface of the fallback listing: loopback and down
/// interfaces are skipped, and a wireless name is one starting `wl`.
pub open spec fn spec_iface_scan(ifaces: Seq<NetInterface>) -> Option<bool>
    decreases ifaces.len(),
{
    if ifaces.len() == 0 {
        Option::None
    } else if ifaces[0].name@ == "lo"@ || !ifaces[0].up {
        spec_iface_scan(ifaces.skip(1))
    } else {
        Option::Some(spec_has_prefix(ifaces[0].name@, "wl"@))
    }
}

/// The connection the probe decides on: the manager tool's first connected
/// row when its output is available, else the first usable interface, else
/// disconnected.
pub open spec fn spec_network_conn(p: &NetworkProbe) -> Option<(bool, Option<u8>)> {
    match p.nmcli {
        Option::Some(out) => spec_nmcli_scan(spec_split(out@, '\n')),
        Option::None => match spec_iface_scan(p.interfaces@) {
            Option::Some(wifi) => Option::Some((wifi, Option::None)),
            Option::None => Option::None,
        },
    }
}

/// Service for the network connection status.
pub struct NetworkService {
}

impl NetworkService {
    /// A fresh network service.
    pub fn new() -> (r: Self)
        ensures
            r == (NetworkService {  }),
    {
        NetworkService {  }
    }

    /// The current network status decided from the probe: connected with
    /// type `wifi` or `ethernet` (signal strength only for wireless rows
    /// that report one), else the disconnected status.
    pub fn get_status(&self, probe: &NetworkProbe) -> (r: NetworkStatus)
        ensures
            match spec_network_conn(probe) {
                Option::Some((wifi, strength)) => {
                    &&& r.connected
                    &&& wifi ==> r.connection_type@ == "wifi"@
                    &&& !wifi ==> r.connection_type@ == "ethernet"@
                    &&& r.strength == strength
                },
                Option::None => {
                    &&& !r.connected
                    &&& r.connection_type@ == "disconnected"@
                    &&& r.strength is None
                },
            },
    {
        if probe.nmcli.is_some() {
            let out = probe.nmcli.as_ref().unwrap();
            let lines = split_char(out.as_str(), '\n');
            let ghost dv = lines.deep_view();
            let mut i: usize = 0;
            proof {
                assert(dv.skip(0) =~= dv);
            }
            while i < lines.len()
                invariant
                    probe.nmcli is Some,
                    probe.nmcli->Some_0 == *out,
                    i <= dv.len(),
                    dv.len() == lines@.len(),
                    dv == lines.deep_view(),
                    dv =~= spec_split(out@, '\n'),
                    spec_nmcli_scan(spec_split(out@, '\n')) == spec_nmcli_scan(
                        dv.skip(i as int),
                    ),
                decreases dv.len() - i,
            {
                proof {
                    assert(dv.skip(i as int)[0] == dv[i as int]);
                    assert(dv[i as int] == lines@[i as int]@);
                }
                let parts = split_char(lines[i].as_str(), ':');
                proof {
                    assert(parts.deep_view() =~= spec_split(lines@[i as int]@, ':'));
                    assert(parts.deep_view()[0] == parts@[0]@);
                }
                if parts.len() >= 2 && str_eq(parts[1].as_str(), "connected") {
                    proof {
                        assert(parts.deep_view()[1] == parts@[1]@);
                        reveal_strlit("connected");
                    }
                    let wifi = str_eq_ignore_ascii_case(parts[0].as_str(), "wifi");
                    let strength: Option<u8> = if wifi && parts.len() >= 3 {
                        proof {
                            assert(parts.deep_view()[2] == parts@[2]@);
                        }
                        match parse_u32(parts[2].as_str()) {
                            Some(v) => {
                                if v <= 255 {
                                    Some(v as u8)
                                } else {
                                    None
                                }
                            },
                            None => None,
                        }
                    } else {
                        None
                    };
                    let connection_type = if wifi {
                        String::from_str("wifi")
                    } else {
                        String::from_str("ethernet")
                    };
                    proof {
                        assert(dv.skip(i as int).len() == dv.len() - i);
                        let sparts = spec_split(dv[i as int], ':');
                        assert(parts.deep_view() == sparts);
                        assert(sparts.len() >= 2 && sparts[1] == "connected"@);
                        assert(wifi == spec_str_eq_ci(sparts[0], "wifi"@));
                        if wifi && sparts.len() >= 3 {
                            assert(strength == spec_strength(sparts[2]));
                        }
                        assert(spec_nmcli_scan(dv.skip(i as int)) == Option::Some(
                            (wifi, strength),
                        ));
                        assert(spec_nmcli_scan(spec_split(out@, '\n')) == Option::Some(
                            (wifi, strength),
                        ));
                        assert(spec_network_conn(probe) == Option::Some((wifi, strength)));
                    }
                    return NetworkStatus { connected: true, connection_type, strength };
                }
                proof {
                    assert(dv.skip(i as int).skip(1) =~= dv.skip(i + 1));
                }
                i += 1;
            }
            proof {
                assert(dv.skip(i as int) =~= Seq::<Seq<char>>::empty());
            }
            return NetworkStatus::default();
        }
        let mut i: usize = 0;
        proof {
            assert(probe.interfaces@.skip(0) =~= probe.interfaces@);
        }
        while i < probe.interfaces.len()
            invariant
                probe.nmcli is None,
                i <= probe.interfaces@.len(),
                spec_iface_scan(probe.interfaces@) == spec_iface_scan(
                    probe.interfaces@.skip(i as int),
                ),
            decreases probe.interfaces@.len() - i,
        {
            let iface = &probe.interfaces[i];
            proof {
                assert(probe.interfaces@.skip(i as int)[0] == probe.interfaces@[i as int]);
                reveal_strlit("lo");
            }
            if !str_eq(iface.name.as_str(), "lo") && iface.up {
                let wifi = str_has_prefix(iface.name.as_str(), "wl");
                let connection_type = if wifi {
                    String::from_str("wifi")
                } else {
                    String::from_str("ethernet")
                };
                proof {
                    let rest = probe.interfaces@.skip(i as int);
                    assert(rest.len() == probe.interfaces@.len() - i);
                    assert(rest[0] == probe.interfaces@[i as int]);
                    assert(spec_iface_scan(rest) == Option::Some(wifi));
                    assert(spec_iface_scan(probe.interfaces@) == Option::Some(wifi));
                    assert(probe.nmcli is None);
                    assert(spec_network_conn(probe) == Option::Some((wifi, Option::<u8>::None)));
                }
                return NetworkStatus { connected: true, connection_type, strength: None };
            }
            proof {
                assert(probe.interfaces@.skip(i as int).skip(1) =~= probe.interfaces@.skip(i + 1));
            }
            i += 1;
        }
        proof {
            assert(probe.interfaces@.skip(i as int) =~= Seq::<NetInterface>::empty());
        }
        NetworkStatus::default()
    }
}

impl Default for NetworkService {
    /// Same as [`NetworkService::new`].
    fn default() -> (r: Self)
        ensures
            r == (NetworkService {  }),
    {
        NetworkService::new()
    }
}

/// The captured output of the window-probing tool's three queries; each is
/// `None` when the query failed, and all three fail together when the tool
/// is absent.
pub struct WindowProbe {
    /// The focused window's title.
    pub title: Option<String>,
    /// The focused window's process id, as printed.
    pub pid: Option<String>,
    /// The focused window's class name.
    pub class_name: Option<String>,
}

/// A process id parsed from a tool's output: the trimmed text as a
/// decimal.
pub open spec fn spec_parsed_pid(out: Seq<char>) -> Option<u32> {
    let t = spec_trim(out);
    if spec_all_digits(t) && spec_digits_value(t) <= u32::MAX {
        Option::Some(spec_digits_value(t) as u32)
    } else {
        Option::None
    }
}

/// Service for the focused window.
pub struct WindowService {
}

impl WindowService {
    /// A fresh window service.
    pub fn new() -> (r: Self)
        ensures
            r == (WindowService {  }),
    {
        WindowService {  }
    }

    /// The focused-window status decided from the probe: with a title
    /// available, the trimmed title, the parsed process id and the trimmed
    /// class name; with none, nothing is known.
    pub fn get_status(&self, probe: &WindowProbe) -> (r: WindowStatus)
        ensures
            match probe.title {
                Option::Some(t) => {
                    &&& r.title matches Some(s) && s@ == spec_trim(t@)
                    &&& match probe.pid {
                        Option::Some(p) => r.process_id == spec_parsed_pid(p@),
                        Option::None => r.process_id is None,
                    }
                    &&& match probe.class_name {
                        Option::Some(c) => (r.app_name matches Some(s) && s@ == spec_trim(c@)),
                        Option::None => r.app_name is None,
                    }
                },
                Option::None => {
                    &&& r.title is None
                    &&& r.app_name is None
                    &&& r.process_id is None
                },
            },
    {
        let title_out = match &probe.title {
            Some(t) => t,
            None => {
                return WindowStatus::default();
            },
        };
        let title = Some(trim(title_out.as_str()));
        let process_id = match &probe.pid {
            Some(p) => {
                let t = trim(p.as_str());
                parse_u32(t.as_str())
            },
            None => None,
        };
        let app_name = match &probe.class_name {
            Some(c) => Some(trim(c.as_str())),
            None => None,
        };
        WindowStatus { title, app_name, process_id }
    }
}

impl Default for WindowService {
    /// Same as [`WindowService::new`].
    fn default() -> (r: Self)
        ensures
            r == (WindowService {  }),
    {
        WindowService::new()
    }
}

} // verus!
