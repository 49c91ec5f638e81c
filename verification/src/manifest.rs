//! Plugin manifests, as the runtime core consumes them.
//!
//! A manifest declares a plugin's identity, its optional native component
//! (which platforms it supports and where its library lives), the services
//! it provides, and presentation details.  Parsing the manifest file is the
//! installation collaborator's job; the types here carry the parsed fields
//! and the validity decisions the runtime makes over them.

use vstd::prelude::*;
use vstd::string::StringExecFns;

use crate::error::Error;
use crate::strutil::str_eq;

verus! {

/// A named position preset an overlay can anchor to.
#[derive(Debug, Clone, Copy, PartialEq, Eq, Structural)]
pub enum PositionPreset {
    TopLeft,
    TopCenter,
    TopRight,
    CenterLeft,
    Center,
    CenterRight,
    BottomLeft,
    BottomCenter,
    BottomRight,
}

/// The settings-file spelling of a position preset.
pub fn position_preset_to_string(preset: &PositionPreset) -> (r: String)
    ensures
        match preset {
            PositionPreset::TopLeft => r@ == "top-left"@,
            PositionPreset::TopCenter => r@ == "top-center"@,
            PositionPreset::TopRight => r@ == "top-right"@,
            PositionPreset::CenterLeft => r@ == "center-left"@,
            PositionPreset::Center => r@ == "center"@,
            PositionPreset::CenterRight => r@ == "center-right"@,
            PositionPreset::BottomLeft => r@ == "bottom-left"@,
            PositionPreset::BottomCenter => r@ == "bottom-center"@,
            PositionPreset::BottomRight => r@ == "bottom-right"@,
        },
{
    match preset {
        PositionPreset::TopLeft => String::from_str("top-left"),
        PositionPreset::TopCenter => String::from_str("top-center"),
        PositionPreset::TopRight => String::from_str("top-right"),
        PositionPreset::CenterLeft => String::from_str("center-left"),
        PositionPreset::Center => String::from_str("center"),
        PositionPreset::CenterRight => String::from_str("center-right"),
        PositionPreset::BottomLeft => String::from_str("bottom-left"),
        PositionPreset::BottomCenter => String::from_str("bottom-center"),
        PositionPreset::BottomRight => String::from_str("bottom-right"),
    }
}

/// One choice of a select-style setting field.
#[derive(Debug)]
pub struct SelectOption {
    pub value: String,
    pub label: String,
}

/// Development-mode configuration of a plugin.
#[derive(Clone, Debug)]
pub struct DevConfig {
    pub port: u16,
}

/// A service a plugin declares it provides, with the schema its payloads
/// are expected to match.
#[derive(Clone)]
pub struct ServiceDefinition {
    pub id: String,
    pub schema: serde_json::Value,
}

/// The native component a manifest declares: supported platforms, the
/// library location per platform, a legacy single location, and the tick
/// interval the plugin asks for.
#[derive(Clone)]
pub struct NativeConfig {
    /// Platform identifiers this native component supports.
    pub platforms: Vec<String>,
    /// Platform identifier to library path, first entry winning on a
    /// duplicate key.
    pub libraries: Vec<(String, String)>,
    /// Legacy single library path, used when no per-platform entry matches.
    pub library: Option<String>,
    /// Declared tick interval in milliseconds.
    pub tick_interval_ms: Option<u64>,
}

/// The first library path recorded for a platform, if any.
pub open spec fn spec_library_lookup(libs: Seq<(String, String)>, platform: Seq<char>) -> Option<
    Seq<char>,
>
    decreases libs.len(),
{
    if libs.len() == 0 {
        Option::None
    } else if libs[0].0@ == platform {
        Option::Some(libs[0].1@)
    } else {
        spec_library_lookup(libs.skip(1), platform)
    }
}

/// The library path a native config yields for a platform: the
/// platform-specific entry when one exists, else the legacy single path.
pub open spec fn spec_library_for(c: &NativeConfig, platform: Seq<char>) -> Option<Seq<char>> {
    match spec_library_lookup(c.libraries@, platform) {
        Option::Some(l) => Option::Some(l),
        Option::None => match c.library {
            Option::Some(l) => Option::Some(l@),
            Option::None => Option::None,
        },
    }
}

/// Whether a native config supports a platform: listed explicitly, or, with
/// an empty platform list, whenever any library location is declared at all.
pub open spec fn spec_supports_platform(c: &NativeConfig, platform: Seq<char>) -> bool {
    if c.platforms@.len() == 0 {
        c.library is Some || c.libraries@.len() > 0
    } else {
        exists|i: int| 0 <= i < c.platforms@.len() && c.platforms@[i]@ == platform
    }
}

impl NativeConfig {
    /// The library path for the platform the host is running on, handed in
    /// by the caller as a platform identifier.
    pub fn library_for_current_platform(&self, current_platform: &str) -> (r: Option<String>)
        ensures
            match spec_library_for(self, current_platform@) {
                Option::Some(l) => r matches Some(s) && s@ == l,
                Option::None => r is None,
            },
    {
        let mut i: usize = 0;
        proof {
            assert(self.libraries@.skip(0) =~= self.libraries@);
        }
        while i < self.libraries.len()
            invariant
                i <= self.libraries@.len(),
                spec_library_lookup(self.libraries@, current_platform@)
                    == spec_library_lookup(self.libraries@.skip(i as int), current_platform@),
        decreases self.libraries@.len() - i,
        {
            let entry = &self.libraries[i];
            if str_eq(entry.0.as_str(), current_platform) {
                assert(spec_library_lookup(self.libraries@.skip(i as int), current_platform@)
                    == Option::Some(self.libraries@[i as int].1@));
                return Some(entry.1.clone());
            }
            proof {
                assert(self.libraries@.skip(i as int).skip(1) =~= self.libraries@.skip(i + 1));
            }
            i += 1;
        }
        proof {
            assert(self.libraries@.skip(i as int) =~= Seq::<(String, String)>::empty());
        }
        match &self.library {
            Some(l) => Some(l.clone()),
            None => None,
        }
    }

    /// Whether this native component supports the platform the host is
    /// running on.
    pub fn supports_current_platform(&self, current_platform: &str) -> (r: bool)
        ensures
            r == spec_supports_platform(self, current_platform@),
    {
        if self.platforms.len() == 0 {
            return self.library.is_some() || self.libraries.len() > 0;
        }
        let mut i: usize = 0;
        while i < self.platforms.len()
            invariant
                i <= self.platforms@.len(),
                forall|j: int| 0 <= j < i ==> self.platforms@[j]@ != current_platform@,
            decreases self.platforms@.len() - i,
        {
            if str_eq(self.platforms[i].as_str(), current_platform) {
                return true;
            }
            i += 1;
        }
        false
    }

    /// The platform identifier for a host built for the given operating
    /// system and architecture; every combination without a native
    /// toolchain is reported as `unknown`, so the result is always one of
    /// five values.
    pub fn current_platform(os: &str, arch: &str) -> (r: String)
        ensures
            os@ == "macos"@ && arch@ == "aarch64"@ ==> r@ == "darwin-arm64"@,
            os@ == "macos"@ && arch@ == "x86_64"@ ==> r@ == "darwin-x64"@,
            os@ == "linux"@ && arch@ == "x86_64"@ ==> r@ == "linux-x64"@,
            os@ == "windows"@ && arch@ == "x86_64"@ ==> r@ == "win32-x64"@,
            !((os@ == "macos"@ && arch@ == "aarch64"@) || (os@ == "macos"@ && arch@
                == "x86_64"@) || (os@ == "linux"@ && arch@ == "x86_64"@) || (os@ == "windows"@
                && arch@ == "x86_64"@)) ==> r@ == "unknown"@,
    {
        proof {
            reveal_strlit("macos");
            reveal_strlit("linux");
            reveal_strlit("windows");
            reveal_strlit("aarch64");
            reveal_strlit("x86_64");
            assert("aarch64"@.len() == 7);
            assert("x86_64"@.len() == 6);
            assert("macos"@.len() == 5);
            assert("linux"@.len() == 5);
            assert("windows"@.len() == 7);
            assert("aarch64"@ != "x86_64"@);
            assert("macos"@[0] == 'm' && "linux"@[0] == 'l');
            assert("macos"@ != "linux"@);
            assert("macos"@ != "windows"@ && "linux"@ != "windows"@);
        }
        if str_eq(os, "macos") && str_eq(arch, "aarch64") {
            String::from_str("darwin-arm64")
        } else if str_eq(os, "macos") && str_eq(arch, "x86_64") {
            String::from_str("darwin-x64")
        } else if str_eq(os, "linux") && str_eq(arch, "x86_64") {
            String::from_str("linux-x64")
        } else if str_eq(os, "windows") && str_eq(arch, "x86_64") {
            String::from_str("win32-x64")
        } else {
            String::from_str("unknown")
        }
    }
}

/// A plugin's manifest, reduced to the fields the runtime core consumes.
#[derive(Clone)]
pub struct PluginManifest {
    pub id: String,
    pub name: String,
    pub version: String,
    pub entry: String,
    /// Whether the plugin claims to be a core plugin bundled with the host.
    pub core: bool,
    pub provides: Vec<ServiceDefinition>,
    pub consumes: Vec<String>,
    pub permissions: Vec<String>,
    pub native: Option<NativeConfig>,
    pub dev: Option<DevConfig>,
}

impl PluginManifest {
    /// Whether the plugin may be treated as a core plugin: it must both
    /// claim the `core` flag and carry an allow-listed id, so third-party
    /// plugins cannot claim core status.
    pub fn is_valid_core_plugin(&self) -> (r: bool)
        ensures
            r == (self.core && self.id@ == "yaof-core-settings"@),
    {
        self.core && str_eq(self.id.as_str(), "yaof-core-settings")
    }

    /// Checks the manifest's required fields: id, name and version must be
    /// present, and an entry point is required unless the plugin is
    /// native-only.
    pub fn validate(&self) -> (r: Result<(), Error>)
        ensures
            r is Ok <==> {
                &&& self.id@.len() > 0
                &&& self.name@.len() > 0
                &&& self.version@.len() > 0
                &&& (self.entry@.len() > 0 || self.native is Some)
            },
            r matches Err(e) ==> (e matches Error::ManifestParse(m) && {
                if self.id@.len() == 0 {
                    m@ == "id is required"@
                } else if self.name@.len() == 0 {
                    m@ == "name is required"@
                } else if self.version@.len() == 0 {
                    m@ == "version is required"@
                } else {
                    m@ == "entry is required for non-native plugins"@
                }
            }),
    {
        if self.id.as_str().unicode_len() == 0 {
            return Err(Error::ManifestParse(String::from_str("id is required")));
        }
        if self.name.as_str().unicode_len() == 0 {
            return Err(Error::ManifestParse(String::from_str("name is required")));
        }
        if self.version.as_str().unicode_len() == 0 {
            return Err(Error::ManifestParse(String::from_str("version is required")));
        }
        if self.entry.as_str().unicode_len() == 0 && self.native.is_none() {
            return Err(Error::ManifestParse(String::from_str(
                "entry is required for non-native plugins",
            )));
        }
        Ok(())
    }

    /// Whether the plugin declares a native component.
    pub fn has_native(&self) -> (r: bool)
        ensures
            r == (self.native is Some),
    {
        self.native.is_some()
    }

    /// Whether the plugin is native-only: a native component and no UI
    /// entry point.
    pub fn is_native_only(&self) -> (r: bool)
        ensures
            r == (self.entry@.len() == 0 && self.native is Some),
    {
        self.entry.as_str().unicode_len() == 0 && self.native.is_some()
    }
}

/// Where an installed plugin came from.
#[derive(Clone, Debug)]
pub enum PluginSource {
    Local(String),
    Git { url: String, reference: Option<String> },
    Npm { package: String, version: Option<String> },
}

/// An installed plugin: its manifest, the directory it lives in, and where
/// it came from.
#[derive(Clone)]
pub struct InstalledPlugin {
    pub manifest: PluginManifest,
    pub path: String,
    pub source: PluginSource,
}

/// The library path an installed plugin yields for a platform: the
/// manifest's relative path resolved against the plugin's directory.
pub open spec fn spec_native_library_path(p: &InstalledPlugin, platform: Seq<char>) -> Option<
    Seq<char>,
> {
    match p.manifest.native {
        Option::None => Option::None,
        Option::Some(c) => match spec_library_for(&c, platform) {
            Option::None => Option::None,
            Option::Some(rel) => Option::Some(p.path@ + "/"@ + rel),
        },
    }
}

impl InstalledPlugin {
    /// The absolute path of the native library for the given platform, or
    /// `None` when the manifest declares none.  Whether the file actually
    /// exists on disk is for the caller to check.
    pub fn native_library_path(&self, current_platform: &str) -> (r: Option<String>)
        ensures
            match spec_native_library_path(self, current_platform@) {
                Option::Some(p) => r matches Some(s) && s@ == p,
                Option::None => r is None,
            },
    {
        match &self.manifest.native {
            None => None,
            Some(c) => match c.library_for_current_platform(current_platform) {
                None => None,
                Some(rel) => {
                    let joined = self.path.clone().concat("/").concat(rel.as_str());
                    Some(joined)
                },
            },
        }
    }

    /// Whether this plugin has a native component loadable on the given
    /// platform: the platform is supported and a library path is declared.
    pub fn can_load_native(&self, current_platform: &str) -> (r: bool)
        ensures
            r == (self.manifest.native matches Some(c) && spec_supports_platform(
                &c,
                current_platform@,
            ) && spec_native_library_path(self, current_platform@) is Some),
    {
        match &self.manifest.native {
            None => false,
            Some(c) => {
                c.supports_current_platform(current_platform)
                    && self.native_library_path(current_platform).is_some()
            },
        }
    }

    /// Whether this plugin is native-only (no UI entry point).
    pub fn is_native_only(&self) -> (r: bool)
        ensures
            r == (self.manifest.entry@.len() == 0 && self.manifest.native is Some),
    {
        self.manifest.is_native_only()
    }

    /// Whether this plugin has a UI component.
    pub fn has_ui(&self) -> (r: bool)
        ensures
            r == (self.manifest.entry@.len() > 0),
    {
        self.manifest.entry.as_str().unicode_len() > 0
    }
}

} // verus!
