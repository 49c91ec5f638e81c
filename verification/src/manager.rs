//! The manager of the loaded plugin set.
//!
//! Owns one host per loaded module, keyed by plugin id (unique, no implicit
//! replace), and drives the shared tick cycle over all of them.  Loading an
//! id twice without an intervening unload fails; unloading removes the host
//! and triggers its single `shutdown` call; a failing tick is reported but
//! never removes or disables a plugin.

use vstd::prelude::*;
use vstd::string::StringExecFns;

use crate::abi::{ABI_VERSION, LifecycleCall, NativePlugin, PluginVTable, shutdown_count};
use crate::error::Error;
use crate::host::NativePluginHost;
use crate::manifest::{InstalledPlugin, spec_native_library_path, spec_supports_platform};
use crate::strutil::{
    find_after_last, replace_char, spec_after_last, spec_has_prefix, spec_replace_char,
    str_eq, str_has_prefix, substring,
};

verus! {

/// Descriptor of a loaded plugin: its id, the path its module was loaded
/// from, and its declared tick interval in milliseconds.  Purely
/// descriptive, so listing plugins never touches foreign-code state.  The
/// scheduler drives every plugin from one shared period; the declared
/// interval is carried as information only.
pub struct NativePluginInfo {
    pub id: String,
    pub path: String,
    pub tick_interval_ms: u64,
}

/// The listing form of [`NativePluginInfo`] handed to outside callers.
pub struct NativePluginInfoResponse {
    pub id: String,
    pub path: String,
    pub tick_interval_ms: u64,
}

impl NativePluginInfoResponse {
    /// Copies a descriptor into its listing form.
    pub fn from_info(info: &NativePluginInfo) -> (r: Self)
        ensures
            r.id@ == info.id@,
            r.path@ == info.path@,
            r.tick_interval_ms == info.tick_interval_ms,
    {
        NativePluginInfoResponse {
            id: info.id.clone(),
            path: info.path.clone(),
            tick_interval_ms: info.tick_interval_ms,
        }
    }
}

/// The default tick interval, used when a manifest declares none.
pub const DEFAULT_TICK_INTERVAL_MS: u64 = 1000;

/// Where a path's file name starts: just after the last path separator,
/// `/` or `\\`, whichever comes later.
pub open spec fn spec_name_start(path: Seq<char>) -> int {
    let a = spec_after_last(path, '/');
    let b = spec_after_last(path, '\\');
    if a >= b {
        a
    } else {
        b
    }
}

/// The file name at the end of a path: everything after the last path
/// separator.
pub open spec fn spec_file_name(path: Seq<char>) -> Seq<char> {
    path.subrange(spec_name_start(path), path.len() as int)
}

/// The file stem of a name: everything before the last `.`, unless the only
/// `.` leads the name, in which case the whole name stands.
pub open spec fn spec_file_stem(name: Seq<char>) -> Seq<char> {
    if spec_after_last(name, '.') <= 1 {
        name
    } else {
        name.subrange(0, spec_after_last(name, '.') - 1)
    }
}

/// The plugin id a library path derives to: the file stem, with a leading
/// platform `lib` prefix stripped and `_` replaced by `-`.
pub open spec fn spec_plugin_id(path: Seq<char>) -> Seq<char> {
    let stem = spec_file_stem(spec_file_name(path));
    let bare = if spec_has_prefix(stem, "lib"@) {
        stem.subrange(3, stem.len() as int)
    } else {
        stem
    };
    spec_replace_char(bare, '_', '-')
}

/// Derives a plugin id deterministically from a module's path: the file
/// name's stem, without the platform's `lib` prefix, separators turned into
/// hyphens.  A path with an empty file name has no id.
pub fn derive_plugin_id(path: &str) -> (r: Result<String, Error>)
    ensures
        spec_file_name(path@).len() == 0 ==> (r matches Err(e) && e matches Error::NotFound(m)
            && m@ == "invalid plugin filename"@),
        spec_file_name(path@).len() > 0 ==> (r matches Ok(id) && id@ == spec_plugin_id(path@)),
{
    let len = path.unicode_len();
    let slash = find_after_last(path, '/');
    let backslash = find_after_last(path, '\\');
    let start = if slash >= backslash {
        slash
    } else {
        backslash
    };
    if start == len {
        return Err(Error::NotFound(String::from_str("invalid plugin filename")));
    }
    let name = substring(path, start, len);
    let dot = find_after_last(name.as_str(), '.');
    let stem = if dot <= 1 {
        name
    } else {
        substring(name.as_str(), 0, dot - 1)
    };
    let bare = if str_has_prefix(stem.as_str(), "lib") {
        proof {
            reveal_strlit("lib");
        }
        let stem_len = stem.as_str().unicode_len();
        substring(stem.as_str(), 3, stem_len)
    } else {
        stem
    };
    Ok(replace_char(bare.as_str(), '_', '-'))
}

/// One loaded plugin: its descriptor and the host that owns its module.
pub struct PluginEntry<M: NativePlugin> {
    pub info: NativePluginInfo,
    pub host: NativePluginHost<M>,
}

/// Whether a plugin set holds an entry under the given id.
pub open spec fn has_id<M: NativePlugin>(s: Seq<PluginEntry<M>>, id: Seq<char>) -> bool {
    exists|i: int| 0 <= i < s.len() && s[i].info.id@ == id
}

/// The index of the entry under the given id.
pub open spec fn index_of_id<M: NativePlugin>(s: Seq<PluginEntry<M>>, id: Seq<char>) -> int {
    choose|i: int| 0 <= i < s.len() && s[i].info.id@ == id
}

/// A well-formed plugin set: ids unique, every host live and agreeing with
/// its descriptor's id.
pub open spec fn entries_wf<M: NativePlugin>(s: Seq<PluginEntry<M>>) -> bool {
    &&& forall|i: int, j: int|
        #![trigger s[i].info.id@, s[j].info.id@]
        0 <= i < j < s.len() ==> s[i].info.id@ != s[j].info.id@
    &&& forall|i: int| 0 <= i < s.len() ==> (#[trigger] s[i]).host.wf()
    &&& forall|i: int| 0 <= i < s.len() ==> (#[trigger] s[i]).host.id() == s[i].info.id@
}

/// Within a well-formed plugin set, an id determines its entry's position.
pub proof fn lemma_id_index_unique<M: NativePlugin>(s: Seq<PluginEntry<M>>, a: int, b: int)
    requires
        entries_wf(s),
        0 <= a < s.len(),
        0 <= b < s.len(),
        s[a].info.id@ == s[b].info.id@,
    ensures
        a == b,
{
    if a < b {
        assert(s[a].info.id@ != s[b].info.id@);
    } else if b < a {
        assert(s[b].info.id@ != s[a].info.id@);
    }
}

/// A host ticked once with status `rc`: its history grew by that one tick
/// call when the entry point is present, and is untouched (with status 0)
/// when it is not.
pub open spec fn ticked_once<M: NativePlugin>(
    pre: NativePluginHost<M>,
    post: NativePluginHost<M>,
    rc: i32,
) -> bool {
    &&& post.id() == pre.id()
    &&& post.has_tick() == pre.has_tick()
    &&& post.has_handle_message() == pre.has_handle_message()
    &&& pre.has_tick() ==> post.history() == pre.history().push(LifecycleCall::Tick(rc))
    &&& !pre.has_tick() ==> rc == 0 && post.history() == pre.history()
}

/// Manages native plugins: discovery, loading, unloading, the tick cycle
/// and message delivery.
pub struct NativePluginManager<M: NativePlugin> {
    plugins: Vec<PluginEntry<M>>,
    plugins_dir: String,
}

impl<M: NativePlugin> NativePluginManager<M> {
    /// The loaded plugins, in load order.
    pub closed spec fn entries(&self) -> Seq<PluginEntry<M>> {
        self.plugins@
    }

    /// The directory plugins are discovered in.
    pub closed spec fn dir(&self) -> Seq<char> {
        self.plugins_dir@
    }

    /// A well-formed manager: see [`entries_wf`].
    pub open spec fn wf(&self) -> bool {
        entries_wf(self.entries())
    }

    /// A manager with no plugins loaded, rooted at the given directory.
    pub fn new(plugins_dir: String) -> (r: Self)
        ensures
            r.entries() =~= Seq::<PluginEntry<M>>::empty(),
            r.wf(),
            r.dir() == plugins_dir@,
    {
        NativePluginManager { plugins: Vec::new(), plugins_dir }
    }

    /// The native plugins directory path.
    pub fn plugins_dir(&self) -> (r: &String)
        ensures
            r@ == self.dir(),
    {
        &self.plugins_dir
    }

    /// The position of the entry under `plugin_id`, if one is loaded.
    fn find_index(&self, plugin_id: &str) -> (r: Option<usize>)
        requires
            self.wf(),
        ensures
            match r {
                Some(i) => i < self.entries().len() && self.entries()[i as int].info.id@
                    == plugin_id@ && i == index_of_id(self.entries(), plugin_id@),
                None => !has_id(self.entries(), plugin_id@),
            },
    {
        let mut i: usize = 0;
        while i < self.plugins.len()
            invariant
                self.wf(),
                i <= self.entries().len(),
                forall|j: int| 0 <= j < i ==> self.entries()[j].info.id@ != plugin_id@,
            decreases self.entries().len() - i,
        {
            if str_eq(self.plugins[i].info.id.as_str(), plugin_id) {
                proof {
                    assert(has_id(self.entries(), plugin_id@));
                    let w = index_of_id(self.entries(), plugin_id@);
                    assert(0 <= w < self.entries().len() && self.entries()[w].info.id@
                        == plugin_id@);
                    assert(self.entries()[i as int].info.id@ == plugin_id@);
                    lemma_id_index_unique(self.entries(), i as int, w);
                }
                return Some(i);
            }
            i += 1;
        }
        None
    }

    /// Whether a plugin with the given id is loaded.
    pub fn is_loaded(&self, plugin_id: &str) -> (r: bool)
        requires
            self.wf(),
        ensures
            r == has_id(self.entries(), plugin_id@),
    {
        self.find_index(plugin_id).is_some()
    }

    /// Loads one module from a path, under the id the path derives to, with
    /// the default tick interval.
    ///
    /// Fails — leaving the plugin set untouched and handing the function
    /// table back — when the path has no file name, when the id is already
    /// loaded (the module is then never touched), when the module's
    /// contract version differs from the host's (its `init` is then never
    /// called), and when `init` returns non-zero.
    pub fn load_plugin(&mut self, vtable: PluginVTable<M>, path: &str) -> (r: Result<
        String,
        (Error, PluginVTable<M>),
    >)
        requires
            old(self).wf(),
            vtable.history.calls() == Seq::<LifecycleCall>::empty(),
        ensures
            final(self).wf(),
            final(self).dir() == old(self).dir(),
            r matches Err(_) ==> final(self).entries() == old(self).entries(),
            spec_file_name(path@).len() == 0 ==> (r matches Err(e) && {
                &&& e.0 matches Error::NotFound(_)
                &&& e.1 == vtable
            }),
            spec_file_name(path@).len() > 0 && has_id(old(self).entries(), spec_plugin_id(path@))
                ==> (r matches Err(e) && {
                &&& e.0 matches Error::AlreadyLoaded(s) && s@ == spec_plugin_id(path@)
                &&& e.1 == vtable
            }),
            spec_file_name(path@).len() > 0 && !has_id(old(self).entries(), spec_plugin_id(path@))
                && vtable.abi_version != ABI_VERSION ==> (r matches Err(e) && {
                &&& e.0 == (Error::AbiMismatch { expected: ABI_VERSION, found: vtable.abi_version })
                &&& e.1 == vtable
            }),
            spec_file_name(path@).len() > 0 && !has_id(old(self).entries(), spec_plugin_id(path@))
                && vtable.abi_version == ABI_VERSION ==> (r matches Ok(_) || (r matches Err(e) && {
                &&& e.0 matches Error::InitFailed(rc)
                &&& rc != 0
                &&& e.1.history.calls() =~= seq![LifecycleCall::Init(rc)]
            })),
            r matches Ok(id) ==> {
                &&& id@ == spec_plugin_id(path@)
                &&& !has_id(old(self).entries(), id@)
                &&& vtable.abi_version == ABI_VERSION
                &&& final(self).entries().len() == old(self).entries().len() + 1
                &&& final(self).entries().take(old(self).entries().len() as int) == old(self).entries()
                &&& final(self).entries().last().info.id@ == id@
                &&& final(self).entries().last().info.path@ == path@
                &&& final(self).entries().last().info.tick_interval_ms
                    == DEFAULT_TICK_INTERVAL_MS
                &&& final(self).entries().last().host.wf()
                &&& final(self).entries().last().host.history() =~= seq![
                    LifecycleCall::Init(0i32),
                ]
            },
    {
        let plugin_id = match derive_plugin_id(path) {
            Ok(id) => id,
            Err(e) => {
                return Err((e, vtable));
            },
        };
        if self.find_index(plugin_id.as_str()).is_some() {
            return Err((Error::AlreadyLoaded(plugin_id), vtable));
        }
        let id_copy = plugin_id.clone();
        let host = match NativePluginHost::load(vtable, plugin_id) {
            Ok(h) => h,
            Err((e, vt)) => {
                return Err((e, vt));
            },
        };
        let info = NativePluginInfo {
            id: id_copy.clone(),
            path: String::from_str(path),
            tick_interval_ms: DEFAULT_TICK_INTERVAL_MS,
        };
        self.plugins.push(PluginEntry { info, host });
        proof {
            assert(final(self).entries().take(old(self).entries().len() as int) =~= old(self).entries());
            assert forall|i: int, j: int|
                0 <= i < j < final(self).entries().len() implies final(self).entries()[i].info.id@
                != final(self).entries()[j].info.id@ by {
                if j < final(self).entries().len() - 1 {
                } else {
                    assert(final(self).entries()[i] == old(self).entries()[i]);
                }
            }
        }
        Ok(id_copy)
    }

    /// Unloads the plugin with the given id: removes it from the set and
    /// destroys its host, which calls the module's `shutdown` entry point
    /// exactly once.  The function table is handed back with that single
    /// shutdown on record.  An unknown id is a not-found error.
    pub fn unload_plugin(&mut self, plugin_id: &str) -> (r: Result<PluginVTable<M>, Error>)
        requires
            old(self).wf(),
        ensures
            final(self).wf(),
            final(self).dir() == old(self).dir(),
            !has_id(old(self).entries(), plugin_id@) ==> (r matches Err(e) && {
                &&& e matches Error::NotFound(s) && s@ == plugin_id@
                &&& final(self).entries() == old(self).entries()
            }),
            has_id(old(self).entries(), plugin_id@) ==> (r matches Ok(vt) && {
                let i = index_of_id(old(self).entries(), plugin_id@);
                &&& final(self).entries() =~= old(self).entries().remove(i)
                &&& vt.history.calls().len() == old(self).entries()[i].host.history().len() + 1
                &&& vt.history.calls().drop_last() == old(self).entries()[i].host.history()
                &&& vt.history.calls().last() is Shutdown
                &&& shutdown_count(vt.history.calls()) == 1
            }),
    {
        let i = match self.find_index(plugin_id) {
            Some(i) => i,
            None => {
                return Err(Error::NotFound(String::from_str(plugin_id)));
            },
        };
        let entry = self.plugins.remove(i);
        let (rc, vtable) = entry.host.unload();
        Ok(vtable)
    }

    /// Runs one tick cycle: calls `tick` on every loaded plugin, in an
    /// order callers must treat as unspecified.  Each plugin's status is
    /// returned, paired with its position, so the host can log failures; a
    /// non-zero status neither removes nor disables the plugin — it will
    /// be tried again on the next cycle — so the set of loaded plugins is
    /// unchanged.
    pub fn tick_all(&mut self) -> (statuses: Vec<i32>)
        requires
            old(self).wf(),
        ensures
            final(self).wf(),
            final(self).dir() == old(self).dir(),
            final(self).entries().len() == old(self).entries().len(),
            statuses@.len() == old(self).entries().len(),
            forall|i: int|
                0 <= i < old(self).entries().len() ==> final(self).entries()[i].info == old(self).entries()[i].info,
            forall|i: int|
                0 <= i < old(self).entries().len() ==> ticked_once(
                    old(self).entries()[i].host,
                    #[trigger] final(self).entries()[i].host,
                    statuses@[i],
                ),
    {
        let n = self.plugins.len();
        let mut statuses: Vec<i32> = Vec::new();
        let mut i: usize = 0;
        while i < n
            invariant
                i <= n,
                n == self.entries().len(),
                n == old(self).entries().len(),
                self.dir() == old(self).dir(),
                statuses@.len() == i,
                forall|j: int|
                    0 <= j < n ==> self.entries()[j].info == old(self).entries()[j].info,
                forall|j: int|
                    0 <= j < i ==> ticked_once(
                        old(self).entries()[j].host,
                        #[trigger] self.entries()[j].host,
                        statuses@[j],
                    ),
                forall|j: int|
                    i <= j < n ==> self.entries()[j].host == old(self).entries()[j].host,
                entries_wf(self.entries()),
            decreases n - i,
        {
            let rc = self.plugins[i].host.tick();
            statuses.push(rc);
            i += 1;
        }
        statuses
    }

    /// Delivers a typed message to one plugin through its optional
    /// `handle_message` entry point.  An unknown id is a not-found error;
    /// otherwise the module's status is returned, with status 0 and no
    /// effect when the entry point is absent.
    pub fn send_message(&mut self, plugin_id: &str, msg_type: &str, payload: &[u8]) -> (r: Result<
        i32,
        Error,
    >)
        requires
            old(self).wf(),
        ensures
            final(self).wf(),
            final(self).dir() == old(self).dir(),
            final(self).entries().len() == old(self).entries().len(),
            !has_id(old(self).entries(), plugin_id@) ==> (r matches Err(e) && {
                &&& e matches Error::NotFound(s) && s@ == plugin_id@
                &&& final(self).entries() == old(self).entries()
            }),
            has_id(old(self).entries(), plugin_id@) ==> (r matches Ok(rc) && {
                let i = index_of_id(old(self).entries(), plugin_id@);
                &&& forall|j: int|
                    0 <= j < old(self).entries().len() && j != i ==> final(self).entries()[j]
                        == old(self).entries()[j]
                &&& final(self).entries()[i].info == old(self).entries()[i].info
                &&& final(self).entries()[i].host.id() == old(self).entries()[i].host.id()
                &&& old(self).entries()[i].host.has_handle_message() ==> final(self).entries()[i].host.history() == old(self).entries()[i].host.history().push(
                    LifecycleCall::Message(rc),
                )
                &&& !old(self).entries()[i].host.has_handle_message() ==> rc == 0 && final(self).entries()[i].host.history() == old(self).entries()[i].host.history()
            }),
    {
        let i = match self.find_index(plugin_id) {
            Some(i) => i,
            None => {
                return Err(Error::NotFound(String::from_str(plugin_id)));
            },
        };
        let rc = self.plugins[i].host.send_message(msg_type, payload);
        Ok(rc)
    }

    /// Drains the events one plugin's module has emitted so far, in
    /// emission order, for routing to the service bus.  An unknown id is a
    /// not-found error; no lifecycle entry point is touched.
    pub fn take_plugin_events(&mut self, plugin_id: &str) -> (r: Result<
        Vec<crate::abi::EmittedEvent>,
        Error,
    >)
        requires
            old(self).wf(),
        ensures
            final(self).wf(),
            final(self).dir() == old(self).dir(),
            final(self).entries().len() == old(self).entries().len(),
            !has_id(old(self).entries(), plugin_id@) ==> (r matches Err(e) && {
                &&& e matches Error::NotFound(s) && s@ == plugin_id@
                &&& final(self).entries() == old(self).entries()
            }),
            has_id(old(self).entries(), plugin_id@) ==> (r matches Ok(evs) && {
                let i = index_of_id(old(self).entries(), plugin_id@);
                &&& evs@ == old(self).entries()[i].host.pending_events()
                &&& forall|j: int|
                    0 <= j < old(self).entries().len() && j != i ==> final(self).entries()[j]
                        == old(self).entries()[j]
                &&& final(self).entries()[i].info == old(self).entries()[i].info
                &&& final(self).entries()[i].host.history() == old(
                    self,
                ).entries()[i].host.history()
                &&& final(self).entries()[i].host.pending_events()
                    =~= Seq::<crate::abi::EmittedEvent>::empty()
            }),
    {
        let i = match self.find_index(plugin_id) {
            Some(i) => i,
            None => {
                return Err(Error::NotFound(String::from_str(plugin_id)));
            },
        };
        let evs = self.plugins[i].host.take_events();
        Ok(evs)
    }

    /// Drains the log lines one plugin's module has produced so far, in
    /// writing order, for the host's log sink.  An unknown id is a
    /// not-found error; no lifecycle entry point is touched.
    pub fn take_plugin_logs(&mut self, plugin_id: &str) -> (r: Result<
        Vec<crate::abi::LogEntry>,
        Error,
    >)
        requires
            old(self).wf(),
        ensures
            final(self).wf(),
            final(self).dir() == old(self).dir(),
            final(self).entries().len() == old(self).entries().len(),
            !has_id(old(self).entries(), plugin_id@) ==> (r matches Err(e) && {
                &&& e matches Error::NotFound(s) && s@ == plugin_id@
                &&& final(self).entries() == old(self).entries()
            }),
            has_id(old(self).entries(), plugin_id@) ==> (r matches Ok(ls) && {
                let i = index_of_id(old(self).entries(), plugin_id@);
                &&& ls@ == old(self).entries()[i].host.pending_logs()
                &&& forall|j: int|
                    0 <= j < old(self).entries().len() && j != i ==> final(self).entries()[j]
                        == old(self).entries()[j]
                &&& final(self).entries()[i].info == old(self).entries()[i].info
                &&& final(self).entries()[i].host.history() == old(
                    self,
                ).entries()[i].host.history()
                &&& final(self).entries()[i].host.pending_events() == old(
                    self,
                ).entries()[i].host.pending_events()
                &&& final(self).entries()[i].host.pending_logs()
                    =~= Seq::<crate::abi::LogEntry>::empty()
            }),
    {
        let i = match self.find_index(plugin_id) {
            Some(i) => i,
            None => {
                return Err(Error::NotFound(String::from_str(plugin_id)));
            },
        };
        let ls = self.plugins[i].host.take_logs();
        Ok(ls)
    }

    /// Lists the loaded plugins' descriptors; foreign-code state is never
    /// touched.
    pub fn list_plugins(&self) -> (r: Vec<NativePluginInfo>)
        ensures
            r@.len() == self.entries().len(),
            forall|i: int|
                0 <= i < r@.len() ==> {
                    &&& (#[trigger] r@[i]).id@ == self.entries()[i].info.id@
                    &&& r@[i].path@ == self.entries()[i].info.path@
                    &&& r@[i].tick_interval_ms == self.entries()[i].info.tick_interval_ms
                },
    {
        let mut out: Vec<NativePluginInfo> = Vec::new();
        let mut i: usize = 0;
        while i < self.plugins.len()
            invariant
                i <= self.entries().len(),
                out@.len() == i,
                forall|j: int|
                    0 <= j < i ==> {
                        &&& (#[trigger] out@[j]).id@ == self.entries()[j].info.id@
                        &&& out@[j].path@ == self.entries()[j].info.path@
                        &&& out@[j].tick_interval_ms == self.entries()[j].info.tick_interval_ms
                    },
            decreases self.entries().len() - i,
        {
            let info = &self.plugins[i].info;
            out.push(NativePluginInfo {
                id: info.id.clone(),
                path: info.path.clone(),
                tick_interval_ms: info.tick_interval_ms,
            });
            i += 1;
        }
        out
    }

    /// Destroys every host: each module sees exactly one `shutdown` call,
    /// and the plugin set ends empty.  Calling this again is a no-op.  The
    /// function tables are handed back in the order the plugins stood.
    pub fn shutdown_all(&mut self) -> (r: Vec<PluginVTable<M>>)
        requires
            old(self).wf(),
        ensures
            final(self).wf(),
            final(self).dir() == old(self).dir(),
            final(self).entries() =~= Seq::<PluginEntry<M>>::empty(),
            r@.len() == old(self).entries().len(),
            forall|i: int|
                0 <= i < r@.len() ==> {
                    &&& (#[trigger] r@[i]).history.calls().len() == old(self).entries()[i].host.history().len() + 1
                    &&& r@[i].history.calls().drop_last() == old(self).entries()[i].host.history()
                    &&& r@[i].history.calls().last() is Shutdown
                    &&& shutdown_count(r@[i].history.calls()) == 1
                },
    {
        let mut out: Vec<PluginVTable<M>> = Vec::new();
        let ghost orig = self.plugins@;
        let mut pending: Vec<PluginEntry<M>> = Vec::new();
        core::mem::swap(&mut pending, &mut self.plugins);
        while pending.len() > 0
            invariant
                out@.len() + pending@.len() == orig.len(),
                pending@ =~= orig.skip(out@.len() as int),
                entries_wf(orig),
                forall|i: int|
                    0 <= i < out@.len() ==> {
                        &&& (#[trigger] out@[i]).history.calls().len() == orig[i].host.history().len()
                            + 1
                        &&& out@[i].history.calls().drop_last() == orig[i].host.history()
                        &&& out@[i].history.calls().last() is Shutdown
                        &&& shutdown_count(out@[i].history.calls()) == 1
                    },
            decreases pending@.len(),
        {
            let entry = pending.remove(0);
            proof {
                assert(entry == orig[out@.len() as int]);
                assert(orig[out@.len() as int].host.wf());
            }
            let (rc, vtable) = entry.host.unload();
            out.push(vtable);
            proof {
                assert(pending@ =~= orig.skip(out@.len() as int));
            }
        }
        out
    }
}

/// The extension of a file name: what follows the last `.`, provided that
/// dot neither leads the name nor is absent.
pub open spec fn spec_extension(name: Seq<char>) -> Option<Seq<char>> {
    if spec_after_last(name, '.') <= 1 {
        Option::None
    } else {
        Option::Some(name.subrange(spec_after_last(name, '.'), name.len() as int))
    }
}

/// Whether a path names a file with the given extension.
pub open spec fn spec_has_extension(path: Seq<char>, ext: Seq<char>) -> bool {
    spec_extension(spec_file_name(path)) == Option::Some(ext)
}

/// Exec test of [`spec_has_extension`].
pub fn path_has_extension(path: &str, ext: &str) -> (r: bool)
    ensures
        r == spec_has_extension(path@, ext@),
{
    let len = path.unicode_len();
    let slash = find_after_last(path, '/');
    let backslash = find_after_last(path, '\\');
    let start = if slash >= backslash {
        slash
    } else {
        backslash
    };
    let name = substring(path, start, len);
    let name_len = name.as_str().unicode_len();
    let dot = find_after_last(name.as_str(), '.');
    if dot <= 1 {
        return false;
    }
    let found = substring(name.as_str(), dot, name_len);
    str_eq(found.as_str(), ext)
}

/// A freshly loaded entry: its host is live with exactly its successful
/// `init` call on record.
pub open spec fn fresh_entry<M: NativePlugin>(e: PluginEntry<M>) -> bool {
    &&& e.host.wf()
    &&& e.host.history() =~= seq![LifecycleCall::Init(0i32)]
    &&& e.host.id() == e.info.id@
}

/// Whether an appended entry is explained by one of the discovery
/// candidates: its path is that candidate's, its id derives from the path,
/// the interval is the default, and the candidate's file name carries the
/// platform's library extension.
pub open spec fn entry_from_candidate<M: NativePlugin>(
    cands: Seq<(String, PluginVTable<M>)>,
    ext: Seq<char>,
    e: PluginEntry<M>,
) -> bool {
    exists|i: int|
        0 <= i < cands.len() && {
            &&& e.info.path@ == (#[trigger] cands[i]).0@
            &&& e.info.id@ == spec_plugin_id(cands[i].0@)
            &&& e.info.tick_interval_ms == DEFAULT_TICK_INTERVAL_MS
            &&& spec_has_extension(cands[i].0@, ext)
        }
}

/// Whether an appended entry is explained by one of the planned installed
/// loads: id, path and tick interval are that plan's.
pub open spec fn entry_from_plan<M: NativePlugin>(
    loads: Seq<(NativePluginInfo, PluginVTable<M>)>,
    e: PluginEntry<M>,
) -> bool {
    exists|i: int|
        0 <= i < loads.len() && {
            &&& e.info.id@ == (#[trigger] loads[i]).0.id@
            &&& e.info.path@ == loads[i].0.path@
            &&& e.info.tick_interval_ms == loads[i].0.tick_interval_ms
        }
}

/// The fate of one batch-load candidate: loaded under an id, skipped with
/// its module untouched because the file is not a module of this platform,
/// or attempted and refused with the error and the function table handed
/// back — the table's recorded history then shows exactly what was done to
/// the module.
pub enum LoadOutcome<M: NativePlugin> {
    Loaded(String),
    Skipped(PluginVTable<M>),
    Refused(Error, PluginVTable<M>),
}

/// A refusal's accounting, for a module handed in as `given` that would
/// load under `id`: the error names the reason, and the handed-back table
/// shows the module either untouched (id already live, or wrong contract
/// version — its `init` never called) or with exactly its one failed
/// `init` call on record.
pub open spec fn refusal_ok<M: NativePlugin>(
    id: Seq<char>,
    given: PluginVTable<M>,
    entries: Seq<PluginEntry<M>>,
    e: Error,
    vt: PluginVTable<M>,
) -> bool {
    match e {
        Error::AlreadyLoaded(s) => s@ == id && vt == given && has_id(entries, id),
        Error::AbiMismatch { expected, found } => expected == ABI_VERSION && found
            == given.abi_version && found != ABI_VERSION && vt == given,
        Error::InitFailed(rc) => rc != 0 && given.abi_version == ABI_VERSION && vt.history.calls()
            =~= seq![LifecycleCall::Init(rc)],
        _ => false,
    }
}

/// What a discovery outcome means for its candidate: loaded under the id
/// the path derives to, skipped untouched for want of the platform's
/// library extension, or refused with full accounting.
pub open spec fn discovery_outcome_ok<M: NativePlugin>(
    cand: (String, PluginVTable<M>),
    ext: Seq<char>,
    entries: Seq<PluginEntry<M>>,
    outcome: LoadOutcome<M>,
) -> bool {
    match outcome {
        LoadOutcome::Loaded(id) => {
            &&& spec_has_extension(cand.0@, ext)
            &&& id@ == spec_plugin_id(cand.0@)
            &&& has_id(entries, id@)
        },
        LoadOutcome::Skipped(vt) => {
            &&& !spec_has_extension(cand.0@, ext) || spec_file_name(cand.0@).len() == 0
            &&& vt == cand.1
        },
        LoadOutcome::Refused(e, vt) => {
            &&& spec_has_extension(cand.0@, ext)
            &&& refusal_ok(spec_plugin_id(cand.0@), cand.1, entries, e, vt)
        },
    }
}

/// What an installed-load outcome means for its plan: loaded under the
/// planned id, or refused with full accounting; plans are never skipped.
pub open spec fn installed_outcome_ok<M: NativePlugin>(
    plan: (NativePluginInfo, PluginVTable<M>),
    entries: Seq<PluginEntry<M>>,
    outcome: LoadOutcome<M>,
) -> bool {
    match outcome {
        LoadOutcome::Loaded(id) => id@ == plan.0.id@ && has_id(entries, id@),
        LoadOutcome::Skipped(_) => false,
        LoadOutcome::Refused(e, vt) => refusal_ok(plan.0.id@, plan.1, entries, e, vt),
    }
}

/// An id present in a plugin set stays present when the set only grows at
/// the end.
pub proof fn lemma_has_id_extend<M: NativePlugin>(
    pre: Seq<PluginEntry<M>>,
    post: Seq<PluginEntry<M>>,
    id: Seq<char>,
)
    requires
        pre.len() <= post.len(),
        post.take(pre.len() as int) == pre,
        has_id(pre, id),
    ensures
        has_id(post, id),
{
    let w = choose|w: int| 0 <= w < pre.len() && pre[w].info.id@ == id;
    assert(post.take(pre.len() as int)[w] == post[w]);
    assert(post[w].info.id@ == id);
}

/// A discovery outcome stays valid when the plugin set only grows.
proof fn lemma_discovery_outcome_extend<M: NativePlugin>(
    cand: (String, PluginVTable<M>),
    ext: Seq<char>,
    pre: Seq<PluginEntry<M>>,
    post: Seq<PluginEntry<M>>,
    outcome: LoadOutcome<M>,
)
    requires
        discovery_outcome_ok(cand, ext, pre, outcome),
        pre.len() <= post.len(),
        post.take(pre.len() as int) == pre,
    ensures
        discovery_outcome_ok(cand, ext, post, outcome),
{
    match outcome {
        LoadOutcome::Loaded(id) => {
            lemma_has_id_extend(pre, post, id@);
        },
        LoadOutcome::Skipped(_) => {},
        LoadOutcome::Refused(e, _vt) => {
            match e {
                Error::AlreadyLoaded(_s) => {
                    lemma_has_id_extend(pre, post, spec_plugin_id(cand.0@));
                },
                _ => {},
            }
        },
    }
}

/// An installed-load outcome stays valid when the plugin set only grows.
proof fn lemma_installed_outcome_extend<M: NativePlugin>(
    plan: (NativePluginInfo, PluginVTable<M>),
    pre: Seq<PluginEntry<M>>,
    post: Seq<PluginEntry<M>>,
    outcome: LoadOutcome<M>,
)
    requires
        installed_outcome_ok(plan, pre, outcome),
        pre.len() <= post.len(),
        post.take(pre.len() as int) == pre,
    ensures
        installed_outcome_ok(plan, post, outcome),
{
    match outcome {
        LoadOutcome::Loaded(id) => {
            lemma_has_id_extend(pre, post, id@);
        },
        LoadOutcome::Skipped(_) => {},
        LoadOutcome::Refused(e, _vt) => {
            match e {
                Error::AlreadyLoaded(_s) => {
                    lemma_has_id_extend(pre, post, plan.0.id@);
                },
                _ => {},
            }
        },
    }
}

impl<M: NativePlugin> NativePluginManager<M> {
    /// Loads one module under an explicit descriptor: fails, handing the
    /// function table back untouched, when the id is already loaded; else
    /// behaves as a host load.
    fn load_with_info(&mut self, vtable: PluginVTable<M>, info: NativePluginInfo) -> (r: Result<
        (),
        (Error, PluginVTable<M>),
    >)
        requires
            old(self).wf(),
            vtable.history.calls() == Seq::<LifecycleCall>::empty(),
        ensures
            final(self).wf(),
            final(self).dir() == old(self).dir(),
            r matches Err(_) ==> final(self).entries() == old(self).entries(),
            has_id(old(self).entries(), info.id@) ==> (r matches Err(e) && {
                &&& e.0 matches Error::AlreadyLoaded(s) && s@ == info.id@
                &&& e.1 == vtable
            }),
            !has_id(old(self).entries(), info.id@) && vtable.abi_version != ABI_VERSION ==> (
            r matches Err(e) && {
                &&& e.0 == (Error::AbiMismatch { expected: ABI_VERSION, found: vtable.abi_version })
                &&& e.1 == vtable
            }),
            !has_id(old(self).entries(), info.id@) && vtable.abi_version == ABI_VERSION ==> (
            r matches Ok(_) || (r matches Err(e) && {
                &&& e.0 matches Error::InitFailed(rc)
                &&& rc != 0
                &&& e.1.history.calls() =~= seq![LifecycleCall::Init(rc)]
            })),
            r matches Ok(_) ==> {
                &&& !has_id(old(self).entries(), info.id@)
                &&& final(self).entries().len() == old(self).entries().len() + 1
                &&& final(self).entries().take(old(self).entries().len() as int) == old(
                    self,
                ).entries()
                &&& final(self).entries().last().info == info
                &&& fresh_entry(final(self).entries().last())
            },
    {
        if self.find_index(info.id.as_str()).is_some() {
            let id_copy = info.id.clone();
            return Err((Error::AlreadyLoaded(id_copy), vtable));
        }
        let id_copy = info.id.clone();
        let host = match NativePluginHost::load(vtable, id_copy) {
            Ok(h) => h,
            Err((e, vt)) => {
                return Err((e, vt));
            },
        };
        self.plugins.push(PluginEntry { info, host });
        proof {
            assert(final(self).entries().take(old(self).entries().len() as int) =~= old(
                self,
            ).entries());
            assert forall|i: int, j: int|
                0 <= i < j < final(self).entries().len() implies final(self).entries()[i].info.id@
                != final(self).entries()[j].info.id@ by {
                if j < final(self).entries().len() - 1 {
                } else {
                    assert(final(self).entries()[i] == old(self).entries()[i]);
                }
            }
        }
        Ok(())
    }

    /// Attempts every candidate module found in the plugins directory whose
    /// file name carries the platform's library extension, deriving each id
    /// from its file name.  Every candidate is accounted for in order by
    /// the second result: loaded under its id, skipped untouched (no
    /// matching extension), or refused — wrong contract version or a live
    /// id with the module never touched, or a failed `init` as the
    /// module's single recorded call — so one candidate's failure never
    /// aborts the rest.  The first result lists the ids loaded, in the
    /// order their entries were added.
    #[verifier::rlimit(100)]
    pub fn discover_and_load(
        &mut self,
        candidates: Vec<(String, PluginVTable<M>)>,
        lib_extension: &str,
    ) -> (r: (Vec<String>, Vec<LoadOutcome<M>>))
        requires
            old(self).wf(),
            forall|i: int|
                0 <= i < candidates@.len() ==> (#[trigger] candidates@[i]).1.history.calls()
                    == Seq::<LifecycleCall>::empty(),
        ensures
            final(self).wf(),
            final(self).dir() == old(self).dir(),
            old(self).entries().len() <= final(self).entries().len(),
            final(self).entries().take(old(self).entries().len() as int) == old(self).entries(),
            r.0@.len() == final(self).entries().len() - old(self).entries().len(),
            forall|k: int|
                0 <= k < r.0@.len() ==> (#[trigger] r.0@[k])@ == final(self).entries()[old(
                    self,
                ).entries().len() + k].info.id@,
            forall|k: int|
                old(self).entries().len() <= k < final(self).entries().len() ==> {
                    &&& fresh_entry(#[trigger] final(self).entries()[k])
                    &&& entry_from_candidate(candidates@, lib_extension@, final(self).entries()[k])
                },
            r.1@.len() == candidates@.len(),
            forall|i: int|
                0 <= i < candidates@.len() ==> discovery_outcome_ok(
                    candidates@[i],
                    lib_extension@,
                    final(self).entries(),
                    #[trigger] r.1@[i],
                ),
    {
        let ghost gcands = candidates@;
        let ghost orig_len = self.entries().len();
        let mut out: Vec<String> = Vec::new();
        let mut outcomes: Vec<LoadOutcome<M>> = Vec::new();
        let mut pending = candidates;
        while pending.len() > 0
            invariant
                self.wf(),
                self.dir() == old(self).dir(),
                pending@.len() <= gcands.len(),
                forall|i: int|
                    0 <= i < gcands.len() ==> (#[trigger] gcands[i]).1.history.calls()
                        == Seq::<LifecycleCall>::empty(),
                pending@ =~= gcands.skip(gcands.len() - pending@.len()),
                orig_len == old(self).entries().len(),
                orig_len <= self.entries().len(),
                self.entries().take(orig_len as int) == old(self).entries(),
                out@.len() == self.entries().len() - orig_len,
                forall|k: int|
                    0 <= k < out@.len() ==> (#[trigger] out@[k])@ == self.entries()[orig_len
                        + k].info.id@,
                forall|k: int|
                    orig_len <= k < self.entries().len() ==> {
                        &&& fresh_entry(#[trigger] self.entries()[k])
                        &&& entry_from_candidate(gcands, lib_extension@, self.entries()[k])
                    },
                outcomes@.len() == gcands.len() - pending@.len(),
                forall|i: int|
                    0 <= i < outcomes@.len() ==> discovery_outcome_ok(
                        gcands[i],
                        lib_extension@,
                        self.entries(),
                        #[trigger] outcomes@[i],
                    ),
            decreases pending@.len(),
        {
            let ghost pos = gcands.len() - pending@.len();
            let ghost pend0 = pending@;
            let (path, vtable) = pending.remove(0);
            proof {
                broadcast use vstd::seq_lib::lemma_seq_skip_index;

                assert(pend0 =~= gcands.skip(pos));
                assert(gcands.skip(pos)[0] == gcands[pos]);
                assert((path, vtable) == gcands[pos]);
                assert(pending@ =~= pend0.remove(0));
                assert forall|k: int| 0 <= k < pending@.len() implies pending@[k] == gcands[pos + 1
                    + k] by {
                    assert(pend0.remove(0)[k] == pend0[k + 1]);
                    assert(gcands.skip(pos)[k + 1] == gcands[pos + 1 + k]);
                }
                assert(pending@ =~= gcands.skip(pos + 1));
            }
            if !path_has_extension(path.as_str(), lib_extension) {
                let ghost gvt = vtable;
                let ghost oc0 = outcomes@;
                outcomes.push(LoadOutcome::Skipped(vtable));
                proof {
                    assert forall|i: int|
                        0 <= i < outcomes@.len() implies discovery_outcome_ok(
                        gcands[i],
                        lib_extension@,
                        self.entries(),
                        #[trigger] outcomes@[i],
                    ) by {
                        if i < oc0.len() {
                            assert(outcomes@[i] == oc0[i]);
                        } else {
                            assert(outcomes@[i] == LoadOutcome::<M>::Skipped(gvt));
                        }
                    }
                }
                continue ;
            }
            let plugin_id = match derive_plugin_id(path.as_str()) {
                Ok(id) => id,
                Err(_e) => {
                    let ghost gvt = vtable;
                    let ghost oc0 = outcomes@;
                    outcomes.push(LoadOutcome::Skipped(vtable));
                    proof {
                        assert(spec_file_name(gcands[pos].0@).len() == 0);
                        assert forall|i: int|
                            0 <= i < outcomes@.len() implies discovery_outcome_ok(
                            gcands[i],
                            lib_extension@,
                            self.entries(),
                            #[trigger] outcomes@[i],
                        ) by {
                            if i < oc0.len() {
                                assert(outcomes@[i] == oc0[i]);
                            } else {
                                assert(outcomes@[i] == LoadOutcome::<M>::Skipped(gvt));
                            }
                        }
                    }
                    continue ;
                },
            };
            let ghost gid = spec_plugin_id(gcands[pos].0@);
            let id_for_outcome = plugin_id.clone();
            let ghost gidstr = id_for_outcome;
            let info = NativePluginInfo {
                id: plugin_id,
                path,
                tick_interval_ms: DEFAULT_TICK_INTERVAL_MS,
            };
            let ghost entries_before = self.entries();
            match self.load_with_info(vtable, info) {
                Ok(_) => {
                    let loaded = &self.plugins[self.plugins.len() - 1];
                    out.push(loaded.info.id.clone());
                    let ghost oc0 = outcomes@;
                    outcomes.push(LoadOutcome::Loaded(id_for_outcome));
                    proof {
                        assert(self.entries().take(orig_len as int) =~= entries_before.take(
                            orig_len as int,
                        ));
                        assert(entry_from_candidate(
                            gcands,
                            lib_extension@,
                            self.entries().last(),
                        )) by {
                            assert(self.entries().last().info.path@ == gcands[pos].0@);
                        }
                        assert(forall|k: int|
                            orig_len <= k < self.entries().len() - 1
                                ==> #[trigger] self.entries()[k] == entries_before[k]);
                        assert(has_id(self.entries(), gid)) by {
                            assert(self.entries().last().info.id@ == gid);
                        }
                        assert forall|i: int|
                            0 <= i < outcomes@.len() implies discovery_outcome_ok(
                            gcands[i],
                            lib_extension@,
                            self.entries(),
                            #[trigger] outcomes@[i],
                        ) by {
                            if i < oc0.len() {
                                assert(outcomes@[i] == oc0[i]);
                                lemma_discovery_outcome_extend(
                                    gcands[i],
                                    lib_extension@,
                                    entries_before,
                                    self.entries(),
                                    oc0[i],
                                );
                            } else {
                                assert(outcomes@[i] == LoadOutcome::<M>::Loaded(gidstr));
                            }
                        }
                    }
                },
                Err((e, vt)) => {
                    let ghost ge = e;
                    let ghost gvt = vt;
                    let ghost oc0 = outcomes@;
                    outcomes.push(LoadOutcome::Refused(e, vt));
                    proof {
                        assert(refusal_ok(gid, gcands[pos].1, self.entries(), ge, gvt)) by {
                            if has_id(entries_before, gid) {
                            } else if gcands[pos].1.abi_version != ABI_VERSION {
                            } else {
                            }
                        }
                        assert forall|i: int|
                            0 <= i < outcomes@.len() implies discovery_outcome_ok(
                            gcands[i],
                            lib_extension@,
                            self.entries(),
                            #[trigger] outcomes@[i],
                        ) by {
                            if i < oc0.len() {
                                assert(outcomes@[i] == oc0[i]);
                            } else {
                                assert(outcomes@[i] == LoadOutcome::<M>::Refused(ge, gvt));
                            }
                        }
                    }
                },
            }
        }
        (out, outcomes)
    }

    /// The declared tick interval of an installed plugin, with the default
    /// standing in where the manifest is silent.
    fn installed_tick_interval(p: &InstalledPlugin) -> (r: u64)
        ensures
            r == spec_installed_interval(p),
    {
        match &p.manifest.native {
            Some(c) => match c.tick_interval_ms {
                Some(t) => t,
                None => DEFAULT_TICK_INTERVAL_MS,
            },
            None => DEFAULT_TICK_INTERVAL_MS,
        }
    }

    /// Plans which installed plugins to load natively: those with a native
    /// component loadable on the given platform whose id is not already
    /// loaded.  Each plan carries the id, the resolved library path and the
    /// declared tick interval (default 1000 ms).  The caller opens each
    /// planned module and hands the pairs to
    /// [`NativePluginManager::load_from_installed_plugins`].
    pub fn plan_installed_loads(
        &self,
        installed: &Vec<InstalledPlugin>,
        current_platform: &str,
    ) -> (r: Vec<NativePluginInfo>)
        requires
            self.wf(),
        ensures
            ({
                let plan = spec_installed_plan(installed@, self.entries(), current_platform@);
                &&& r@.len() == plan.len()
                &&& forall|k: int|
                    0 <= k < plan.len() ==> {
                        &&& (#[trigger] r@[k]).id@ == plan[k].0
                        &&& r@[k].path@ == plan[k].1
                        &&& r@[k].tick_interval_ms == plan[k].2
                    }
            }),
    {
        let mut out: Vec<NativePluginInfo> = Vec::new();
        let mut i: usize = 0;
        while i < installed.len()
            invariant
                self.wf(),
                i <= installed@.len(),
                ({
                    let plan = spec_installed_plan(
                        installed@.take(i as int),
                        self.entries(),
                        current_platform@,
                    );
                    &&& out@.len() == plan.len()
                    &&& forall|k: int|
                        0 <= k < plan.len() ==> {
                            &&& (#[trigger] out@[k]).id@ == plan[k].0
                            &&& out@[k].path@ == plan[k].1
                            &&& out@[k].tick_interval_ms == plan[k].2
                        }
                }),
            decreases installed@.len() - i,
        {
            let p = &installed[i];
            proof {
                assert(installed@.take(i + 1).drop_last() =~= installed@.take(i as int));
                assert(installed@.take(i + 1).last() == installed@[i as int]);
            }
            if p.can_load_native(current_platform) && !self.is_loaded(p.manifest.id.as_str()) {
                let lib_path = match p.native_library_path(current_platform) {
                    Some(l) => l,
                    None => {
                        proof {
                            assert(false);
                        }
                        continue ;
                    },
                };
                let interval = Self::installed_tick_interval(p);
                out.push(NativePluginInfo {
                    id: p.manifest.id.clone(),
                    path: lib_path,
                    tick_interval_ms: interval,
                });
            }
            i += 1;
        }
        proof {
            assert(installed@.take(installed@.len() as int) =~= installed@);
        }
        out
    }

    /// Loads the planned native components of installed plugins, each
    /// opened module paired with its plan.  Every plan is accounted for in
    /// order by the second result: loaded under its planned id, or refused
    /// — a live id or wrong contract version with the module never
    /// touched, or a failed `init` as the module's single recorded call —
    /// so one plugin's failure never aborts the rest.  The first result
    /// lists the ids loaded, in the order their entries were added.
    #[verifier::rlimit(100)]
    pub fn load_from_installed_plugins(
        &mut self,
        loads: Vec<(NativePluginInfo, PluginVTable<M>)>,
    ) -> (r: (Vec<String>, Vec<LoadOutcome<M>>))
        requires
            old(self).wf(),
            forall|i: int|
                0 <= i < loads@.len() ==> (#[trigger] loads@[i]).1.history.calls()
                    == Seq::<LifecycleCall>::empty(),
        ensures
            final(self).wf(),
            final(self).dir() == old(self).dir(),
            old(self).entries().len() <= final(self).entries().len(),
            final(self).entries().take(old(self).entries().len() as int) == old(self).entries(),
            r.0@.len() == final(self).entries().len() - old(self).entries().len(),
            forall|k: int|
                0 <= k < r.0@.len() ==> (#[trigger] r.0@[k])@ == final(self).entries()[old(
                    self,
                ).entries().len() + k].info.id@,
            forall|k: int|
                old(self).entries().len() <= k < final(self).entries().len() ==> {
                    &&& fresh_entry(#[trigger] final(self).entries()[k])
                    &&& entry_from_plan(loads@, final(self).entries()[k])
                },
            r.1@.len() == loads@.len(),
            forall|i: int|
                0 <= i < loads@.len() ==> installed_outcome_ok(
                    loads@[i],
                    final(self).entries(),
                    #[trigger] r.1@[i],
                ),
    {
        let ghost gloads = loads@;
        let ghost orig_len = self.entries().len();
        let mut out: Vec<String> = Vec::new();
        let mut outcomes: Vec<LoadOutcome<M>> = Vec::new();
        let mut pending = loads;
        while pending.len() > 0
            invariant
                self.wf(),
                self.dir() == old(self).dir(),
                pending@.len() <= gloads.len(),
                forall|i: int|
                    0 <= i < gloads.len() ==> (#[trigger] gloads[i]).1.history.calls()
                        == Seq::<LifecycleCall>::empty(),
                pending@ =~= gloads.skip(gloads.len() - pending@.len()),
                orig_len == old(self).entries().len(),
                orig_len <= self.entries().len(),
                self.entries().take(orig_len as int) == old(self).entries(),
                out@.len() == self.entries().len() - orig_len,
                forall|k: int|
                    0 <= k < out@.len() ==> (#[trigger] out@[k])@ == self.entries()[orig_len
                        + k].info.id@,
                forall|k: int|
                    orig_len <= k < self.entries().len() ==> {
                        &&& fresh_entry(#[trigger] self.entries()[k])
                        &&& entry_from_plan(gloads, self.entries()[k])
                    },
                outcomes@.len() == gloads.len() - pending@.len(),
                forall|i: int|
                    0 <= i < outcomes@.len() ==> installed_outcome_ok(
                        gloads[i],
                        self.entries(),
                        #[trigger] outcomes@[i],
                    ),
            decreases pending@.len(),
        {
            let ghost pos = gloads.len() - pending@.len();
            let ghost pend0 = pending@;
            let (info, vtable) = pending.remove(0);
            proof {
                broadcast use vstd::seq_lib::lemma_seq_skip_index;

                assert(pend0 =~= gloads.skip(pos));
                assert(gloads.skip(pos)[0] == gloads[pos]);
                assert((info, vtable) == gloads[pos]);
                assert(pending@ =~= pend0.remove(0));
                assert forall|k: int| 0 <= k < pending@.len() implies pending@[k] == gloads[pos + 1
                    + k] by {
                    assert(pend0.remove(0)[k] == pend0[k + 1]);
                    assert(gloads.skip(pos)[k + 1] == gloads[pos + 1 + k]);
                }
                assert(pending@ =~= gloads.skip(pos + 1));
            }
            let ghost gid = gloads[pos].0.id@;
            let id_for_outcome = info.id.clone();
            let ghost gidstr = id_for_outcome;
            let ghost entries_before = self.entries();
            match self.load_with_info(vtable, info) {
                Ok(_) => {
                    let loaded = &self.plugins[self.plugins.len() - 1];
                    out.push(loaded.info.id.clone());
                    let ghost oc0 = outcomes@;
                    outcomes.push(LoadOutcome::Loaded(id_for_outcome));
                    proof {
                        assert(self.entries().take(orig_len as int) =~= entries_before.take(
                            orig_len as int,
                        ));
                        assert(entry_from_plan(gloads, self.entries().last())) by {
                            assert(self.entries().last().info.id@ == gloads[pos].0.id@);
                        }
                        assert(forall|k: int|
                            orig_len <= k < self.entries().len() - 1
                                ==> #[trigger] self.entries()[k] == entries_before[k]);
                        assert(has_id(self.entries(), gid)) by {
                            assert(self.entries().last().info.id@ == gid);
                        }
                        assert forall|i: int|
                            0 <= i < outcomes@.len() implies installed_outcome_ok(
                            gloads[i],
                            self.entries(),
                            #[trigger] outcomes@[i],
                        ) by {
                            if i < oc0.len() {
                                assert(outcomes@[i] == oc0[i]);
                                lemma_installed_outcome_extend(
                                    gloads[i],
                                    entries_before,
                                    self.entries(),
                                    oc0[i],
                                );
                            } else {
                                assert(outcomes@[i] == LoadOutcome::<M>::Loaded(gidstr));
                            }
                        }
                    }
                },
                Err((e, vt)) => {
                    let ghost ge = e;
                    let ghost gvt = vt;
                    let ghost oc0 = outcomes@;
                    outcomes.push(LoadOutcome::Refused(e, vt));
                    proof {
                        assert(refusal_ok(gid, gloads[pos].1, self.entries(), ge, gvt)) by {
                            if has_id(entries_before, gid) {
                            } else if gloads[pos].1.abi_version != ABI_VERSION {
                            } else {
                            }
                        }
                        assert forall|i: int|
                            0 <= i < outcomes@.len() implies installed_outcome_ok(
                            gloads[i],
                            self.entries(),
                            #[trigger] outcomes@[i],
                        ) by {
                            if i < oc0.len() {
                                assert(outcomes@[i] == oc0[i]);
                            } else {
                                assert(outcomes@[i] == LoadOutcome::<M>::Refused(ge, gvt));
                            }
                        }
                    }
                },
            }
        }
        (out, outcomes)
    }

    /// Loads the native component of one installed plugin by id.  Fails
    /// with a not-found error when no such plugin is installed or it has no
    /// native component loadable on this platform, with an already-loaded
    /// error when the id is live, and with the module's own load errors
    /// otherwise.  The opened module is handed in by the caller, who
    /// resolves the library path with [`InstalledPlugin::native_library_path`].
    pub fn load_plugin_by_id(
        &mut self,
        plugin_id: &str,
        installed: &Vec<InstalledPlugin>,
        current_platform: &str,
        vtable: PluginVTable<M>,
    ) -> (r: Result<(), (Error, PluginVTable<M>)>)
        requires
            old(self).wf(),
            vtable.history.calls() == Seq::<LifecycleCall>::empty(),
        ensures
            final(self).wf(),
            final(self).dir() == old(self).dir(),
            r matches Err(_) ==> final(self).entries() == old(self).entries(),
            spec_first_installed(installed@, plugin_id@) is None ==> (r matches Err(e) && {
                &&& e.0 matches Error::NotFound(_)
                &&& e.1.history.calls() == Seq::<LifecycleCall>::empty()
            }),
            spec_first_installed(installed@, plugin_id@) matches Some(p)
                && !spec_can_load_native(&p, current_platform@) ==> (r matches Err(e) && {
                &&& e.0 matches Error::NotFound(_)
                &&& e.1.history.calls() == Seq::<LifecycleCall>::empty()
            }),
            spec_first_installed(installed@, plugin_id@) matches Some(p) && spec_can_load_native(
                &p,
                current_platform@,
            ) && has_id(old(self).entries(), plugin_id@) ==> (r matches Err(e) && {
                &&& e.0 matches Error::AlreadyLoaded(_)
                &&& e.1.history.calls() == Seq::<LifecycleCall>::empty()
            }),
            r matches Ok(_) ==> (spec_first_installed(installed@, plugin_id@) matches Some(p) && {
                &&& spec_can_load_native(&p, current_platform@)
                &&& !has_id(old(self).entries(), plugin_id@)
                &&& final(self).entries().len() == old(self).entries().len() + 1
                &&& final(self).entries().take(old(self).entries().len() as int) == old(
                    self,
                ).entries()
                &&& fresh_entry(final(self).entries().last())
                &&& final(self).entries().last().info.id@ == plugin_id@
                &&& final(self).entries().last().info.path@ == spec_native_library_path(
                    &p,
                    current_platform@,
                )->Some_0
                &&& final(self).entries().last().info.tick_interval_ms
                    == spec_installed_interval(&p)
            }),
    {
        let p = match Self::find_installed(installed, plugin_id) {
            Some(p) => p,
            None => {
                return Err((
                    Error::NotFound(String::from_str(plugin_id)),
                    vtable,
                ));
            },
        };
        if !p.can_load_native(current_platform) {
            return Err((
                Error::NotFound(String::from_str("no native component for this platform")),
                vtable,
            ));
        }
        let lib_path = match p.native_library_path(current_platform) {
            Some(l) => l,
            None => {
                proof {
                    assert(false);
                }
                return Err((
                    Error::NotFound(String::from_str("no native component for this platform")),
                    vtable,
                ));
            },
        };
        let interval = Self::installed_tick_interval(p);
        let info = NativePluginInfo {
            id: String::from_str(plugin_id),
            path: lib_path,
            tick_interval_ms: interval,
        };
        match self.load_with_info(vtable, info) {
            Ok(_) => Ok(()),
            Err(e) => Err(e),
        }
    }

    /// The first installed plugin with the given manifest id.
    fn find_installed<'a>(installed: &'a Vec<InstalledPlugin>, plugin_id: &str) -> (r: Option<
        &'a InstalledPlugin,
    >)
        ensures
            match r {
                Some(p) => spec_first_installed(installed@, plugin_id@) == Option::Some(*p),
                None => spec_first_installed(installed@, plugin_id@) is None,
            },
    {
        let mut i: usize = 0;
        proof {
            assert(installed@.skip(0) =~= installed@);
        }
        while i < installed.len()
            invariant
                i <= installed@.len(),
                spec_first_installed(installed@, plugin_id@) == spec_first_installed(
                    installed@.skip(i as int),
                    plugin_id@,
                ),
            decreases installed@.len() - i,
        {
            if str_eq(installed[i].manifest.id.as_str(), plugin_id) {
                assert(spec_first_installed(installed@.skip(i as int), plugin_id@)
                    == Option::Some(installed@[i as int]));
                return Some(&installed[i]);
            }
            proof {
                assert(installed@.skip(i as int).skip(1) =~= installed@.skip(i + 1));
            }
            i += 1;
        }
        proof {
            assert(installed@.skip(i as int) =~= Seq::<InstalledPlugin>::empty());
        }
        None
    }
}

/// The first installed plugin carrying the given manifest id.
pub open spec fn spec_first_installed(s: Seq<InstalledPlugin>, id: Seq<char>) -> Option<
    InstalledPlugin,
>
    decreases s.len(),
{
    if s.len() == 0 {
        Option::None
    } else if s[0].manifest.id@ == id {
        Option::Some(s[0])
    } else {
        spec_first_installed(s.skip(1), id)
    }
}

/// Whether an installed plugin's native component is loadable on a
/// platform: declared, supported there, and with a resolvable library path.
pub open spec fn spec_can_load_native(p: &InstalledPlugin, platform: Seq<char>) -> bool {
    &&& p.manifest.native matches Some(c)
    &&& spec_supports_platform(&p.manifest.native->Some_0, platform)
    &&& spec_native_library_path(p, platform) is Some
}

/// The tick interval an installed plugin declares, defaulting to 1000 ms.
pub open spec fn spec_installed_interval(p: &InstalledPlugin) -> u64 {
    match p.manifest.native {
        Option::Some(c) => match c.tick_interval_ms {
            Option::Some(t) => t,
            Option::None => DEFAULT_TICK_INTERVAL_MS,
        },
        Option::None => DEFAULT_TICK_INTERVAL_MS,
    }
}

/// The loads planned from a list of installed plugins: for each plugin
/// whose native component is loadable on the platform and whose id is not
/// among the loaded entries, the triple of id, resolved library path and
/// declared tick interval, in list order.
pub open spec fn spec_installed_plan<M: NativePlugin>(
    s: Seq<InstalledPlugin>,
    entries: Seq<PluginEntry<M>>,
    platform: Seq<char>,
) -> Seq<(Seq<char>, Seq<char>, u64)>
    decreases s.len(),
{
    if s.len() == 0 {
        Seq::empty()
    } else {
        let rest = spec_installed_plan(s.drop_last(), entries, platform);
        let p = s.last();
        if spec_can_load_native(&p, platform) && !has_id(entries, p.manifest.id@) {
            rest.push(
                (
                    p.manifest.id@,
                    spec_native_library_path(&p, platform)->Some_0,
                    spec_installed_interval(&p),
                ),
            )
        } else {
            rest
        }
    }
}

} // verus!
