//! The binary calling contract between the host and a plugin module.
//!
//! A module exposes a fixed-layout function table: a contract version, a
//! mandatory `init` entry point, an optional `tick`, a mandatory `shutdown`
//! and an optional `handle_message`.  Every call hands the module a context
//! through which it can emit events onto the service bus and log messages.
//!
//! Here the function table is [`PluginVTable`]: the version and the presence
//! of the optional entry points are plain data, and the entry points
//! themselves are the methods of a [`NativePlugin`] implementation.  Nothing
//! is assumed of what those methods return; the table records every call made
//! through it, with its status, in a ghost history that the host's and
//! manager's contracts are stated over.

use vstd::prelude::*;

use crate::json::{json_parse_bytes, parsed_json};

verus! {

/// The binary-contract version this host supports.  A module reporting any
/// other version is rejected outright.
pub const ABI_VERSION: u32 = 1;

/// The well-known exported symbol a module's function table lives under.
pub const PLUGIN_SYMBOL: &'static str = "YAOF_PLUGIN";

/// The namespace prefix of every service broadcast channel.
pub const SERVICE_CHANNEL_PREFIX: &'static str = "yaof:service:";

/// The channel a service's or emitted event's data is published under:
/// the fixed namespace prefix followed by the id verbatim.
pub open spec fn service_channel(id: Seq<char>) -> Seq<char> {
    "yaof:service:"@ + id
}

/// One call made through a module's function table, with the status the
/// module returned from it.
pub enum LifecycleCall {
    Init(i32),
    Tick(i32),
    Shutdown(i32),
    Message(i32),
}

/// How many of the recorded calls went to the `shutdown` entry point.
pub open spec fn shutdown_count(h: Seq<LifecycleCall>) -> nat
    decreases h.len(),
{
    if h.len() == 0 {
        0
    } else {
        shutdown_count(h.drop_last()) + if h.last() is Shutdown {
            1nat
        } else {
            0nat
        }
    }
}

/// How many of the recorded calls went to the `init` entry point.
pub open spec fn init_count(h: Seq<LifecycleCall>) -> nat
    decreases h.len(),
{
    if h.len() == 0 {
        0
    } else {
        init_count(h.drop_last()) + if h.last() is Init {
            1nat
        } else {
            0nat
        }
    }
}

/// The history of a live module: initialised once, successfully, and since
/// then only ticked and messaged — never shut down.
pub open spec fn live_history(h: Seq<LifecycleCall>) -> bool {
    &&& h.len() >= 1
    &&& h[0] == LifecycleCall::Init(0i32)
    &&& forall|i: int| 1 <= i < h.len() ==> (h[i] is Tick || h[i] is Message)
}

/// A live module has been initialised exactly once.
pub proof fn lemma_live_history_init_once(h: Seq<LifecycleCall>)
    requires
        live_history(h),
    ensures
        init_count(h) == 1,
    decreases h.len(),
{
    assert(init_count(Seq::<LifecycleCall>::empty()) == 0);
    if h.len() == 1 {
        assert(h.last() == h[0]);
        assert(h.drop_last() =~= Seq::<LifecycleCall>::empty());
        assert(init_count(h) == init_count(h.drop_last()) + 1);
    } else {
        assert(live_history(h.drop_last()));
        lemma_live_history_init_once(h.drop_last());
        assert(h.last() == h[h.len() - 1]);
        assert(init_count(h) == init_count(h.drop_last()));
    }
}

/// A live module has never been shut down.
pub proof fn lemma_live_history_no_shutdown(h: Seq<LifecycleCall>)
    requires
        live_history(h),
    ensures
        shutdown_count(h) == 0,
    decreases h.len(),
{
    assert(shutdown_count(Seq::<LifecycleCall>::empty()) == 0);
    if h.len() == 1 {
        assert(h.last() == h[0]);
        assert(h.drop_last() =~= Seq::<LifecycleCall>::empty());
        assert(shutdown_count(h) == shutdown_count(h.drop_last()));
    } else {
        assert(live_history(h.drop_last()));
        lemma_live_history_no_shutdown(h.drop_last());
        assert(h.last() == h[h.len() - 1]);
        assert(shutdown_count(h) == shutdown_count(h.drop_last()));
    }
}

/// Destroying a live module triggers exactly one `shutdown` call: the
/// history it leaves behind records precisely one.
pub proof fn lemma_unload_shuts_down_once(h: Seq<LifecycleCall>, rc: i32)
    requires
        live_history(h),
    ensures
        shutdown_count(h.push(LifecycleCall::Shutdown(rc))) == 1,
{
    lemma_live_history_no_shutdown(h);
    assert(h.push(LifecycleCall::Shutdown(rc)).drop_last() =~= h);
}

/// The record of the calls made through one function table, oldest first.
/// Its content is writable only here: the table constructors start it
/// empty and the `call_` methods are its only writers, so a table's
/// history is always a faithful account of what was done to its module.
pub struct CallHistory {
    log: Ghost<Seq<LifecycleCall>>,
}

impl CallHistory {
    /// The recorded calls, oldest first.
    pub closed spec fn calls(&self) -> Seq<LifecycleCall> {
        self.log@
    }

    /// An empty record.
    fn empty() -> (h: CallHistory)
        ensures
            h.calls() =~= Seq::<LifecycleCall>::empty(),
    {
        CallHistory { log: Ghost(Seq::empty()) }
    }
}

/// An event a module emitted through its context: the name the module
/// gave it, the channel it is to be published under — the service channel
/// of that name — and its payload.
pub struct EmittedEvent {
    pub name: String,
    pub channel: String,
    pub payload: serde_json::Value,
}

/// A log line a module produced through its context.
pub struct LogEntry {
    pub level: u32,
    pub message: String,
}

/// The label of a log level, as it is written to the host's log.
pub fn level_label(level: u32) -> (r: &'static str)
    ensures
        level == 0 ==> r@ == "TRACE"@,
        level == 1 ==> r@ == "DEBUG"@,
        level == 2 ==> r@ == "INFO"@,
        level == 3 ==> r@ == "WARN"@,
        level == 4 ==> r@ == "ERROR"@,
        level > 4 ==> r@ == "UNKNOWN"@,
{
    if level == 0 {
        "TRACE"
    } else if level == 1 {
        "DEBUG"
    } else if level == 2 {
        "INFO"
    } else if level == 3 {
        "WARN"
    } else if level == 4 {
        "ERROR"
    } else {
        "UNKNOWN"
    }
}

/// The per-call record a module receives: its two callbacks write into the
/// queues held here, and the host drains them after each call.
///
/// The queues are the context's only state, so whatever a module does during
/// a call, the events the host later routes to the bus are exactly the ones
/// recorded here by `emit_event`.
pub struct PluginContext {
    events: Vec<EmittedEvent>,
    logs: Vec<LogEntry>,
}

impl PluginContext {
    /// The events emitted through this context and not yet drained.
    pub closed spec fn events_seq(&self) -> Seq<EmittedEvent> {
        self.events@
    }

    /// The log lines produced through this context and not yet drained.
    pub closed spec fn logs_seq(&self) -> Seq<LogEntry> {
        self.logs@
    }

    /// A fresh context with empty queues.
    pub fn new() -> (c: Self)
        ensures
            c.events_seq() =~= Seq::<EmittedEvent>::empty(),
            c.logs_seq() =~= Seq::<LogEntry>::empty(),
    {
        PluginContext { events: Vec::new(), logs: Vec::new() }
    }

    /// The `emit_event` callback: parses the payload bytes as JSON and
    /// queues the value for publication under the service channel named
    /// after the event.  Returns 0 on success and -1 when the payload is
    /// not well-formed JSON, in which case nothing is queued.
    pub fn emit_event(&mut self, event_name: &str, payload: &[u8]) -> (rc: i32)
        ensures
            final(self).logs_seq() == old(self).logs_seq(),
            match parsed_json(payload@) {
                Option::None => {
                    &&& rc == -1
                    &&& final(self).events_seq() == old(self).events_seq()
                },
                Option::Some(v) => {
                    &&& rc == 0
                    &&& final(self).events_seq().len() == old(self).events_seq().len() + 1
                    &&& final(self).events_seq().drop_last() == old(self).events_seq()
                    &&& final(self).events_seq().last().name@ == event_name@
                    &&& final(self).events_seq().last().channel@ == service_channel(event_name@)
                    &&& final(self).events_seq().last().payload == v
                },
            },
    {
        let parsed = json_parse_bytes(payload);
        match parsed {
            Option::None => -1,
            Option::Some(v) => {
                let name = String::from_str(event_name);
                let channel = String::from_str(SERVICE_CHANNEL_PREFIX).concat(event_name);
                proof {
                    reveal_strlit("yaof:service:");
                }
                self.events.push(EmittedEvent { name, channel, payload: v });
                proof {
                    assert(final(self).events_seq().drop_last() =~= old(self).events_seq());
                }
                0
            },
        }
    }

    /// The `log` callback: records the message at the given level.
    pub fn log(&mut self, level: u32, message: &str)
        ensures
            final(self).events_seq() == old(self).events_seq(),
            final(self).logs_seq().len() == old(self).logs_seq().len() + 1,
            final(self).logs_seq().drop_last() == old(self).logs_seq(),
            final(self).logs_seq().last().level == level,
            final(self).logs_seq().last().message@ == message@,
    {
        let entry = LogEntry { level, message: String::from_str(message) };
        self.logs.push(entry);
        proof {
            assert(final(self).logs_seq().drop_last() =~= old(self).logs_seq());
        }
    }

    /// Hands out every queued event and leaves the queue empty.
    pub fn take_events(&mut self) -> (evs: Vec<EmittedEvent>)
        ensures
            evs@ == old(self).events_seq(),
            final(self).events_seq() =~= Seq::<EmittedEvent>::empty(),
            final(self).logs_seq() == old(self).logs_seq(),
    {
        let mut out: Vec<EmittedEvent> = Vec::new();
        std::mem::swap(&mut out, &mut self.events);
        out
    }

    /// Hands out every queued log line and leaves the queue empty.
    pub fn take_logs(&mut self) -> (ls: Vec<LogEntry>)
        ensures
            ls@ == old(self).logs_seq(),
            final(self).logs_seq() =~= Seq::<LogEntry>::empty(),
            final(self).events_seq() == old(self).events_seq(),
    {
        let mut out: Vec<LogEntry> = Vec::new();
        std::mem::swap(&mut out, &mut self.logs);
        out
    }
}

/// The entry points a plugin module implements.
///
/// This is the capability the rest of the runtime depends on instead of raw
/// function-pointer calls.  The methods are foreign code: nothing is assumed
/// about their return values or about what they do to the context beyond
/// what the context's own methods allow.
pub trait NativePlugin {
    /// Called once when the module is loaded.  Zero means success.
    fn init(&mut self, ctx: &mut PluginContext) -> i32;

    /// Called periodically while the module is live.
    fn tick(&mut self, ctx: &mut PluginContext) -> i32;

    /// Called exactly once when the module is unloaded.
    fn shutdown(&mut self, ctx: &mut PluginContext) -> i32;

    /// Called to hand the module a typed message.
    fn handle_message(&mut self, ctx: &mut PluginContext, msg_type: &str, payload: &[u8]) -> i32;
}

/// A module's function table: the contract version, which optional entry
/// points are present, and the module itself.  Every call made through the
/// table is recorded in a ghost history.
pub struct PluginVTable<M: NativePlugin> {
    /// The contract version the module reports.
    pub abi_version: u32,
    /// Whether the optional `tick` entry point is present.
    pub has_tick: bool,
    /// Whether the optional `handle_message` entry point is present.
    pub has_handle_message: bool,
    /// The module the entry points belong to.
    pub module: M,
    /// The calls made through this table, oldest first: empty at
    /// construction, extended only by the `call_` methods.
    pub history: CallHistory,
}

impl<M: NativePlugin> PluginVTable<M> {
    /// A table with the given version and entry points, none of its calls
    /// made yet.
    pub fn new(abi_version: u32, has_tick: bool, has_handle_message: bool, module: M) -> (vt: Self)
        ensures
            vt.abi_version == abi_version,
            vt.has_tick == has_tick,
            vt.has_handle_message == has_handle_message,
            vt.history.calls() =~= Seq::<LifecycleCall>::empty(),
    {
        PluginVTable {
            abi_version,
            has_tick,
            has_handle_message,
            module,
            history: CallHistory::empty(),
        }
    }

    /// The table a well-formed module declares: the supported contract
    /// version, with every entry point present.
    pub fn declare(module: M) -> (vt: Self)
        ensures
            vt.abi_version == ABI_VERSION,
            vt.has_tick,
            vt.has_handle_message,
            vt.history.calls() =~= Seq::<LifecycleCall>::empty(),
    {
        Self::new(ABI_VERSION, true, true, module)
    }

    /// The module behind the table.
    pub fn module(&self) -> &M {
        &self.module
    }

    /// Consumes the table and hands the module back.
    pub fn into_module(self) -> M {
        self.module
    }

    /// Calls the module's `init` entry point and records the call.
    pub(crate) fn call_init(&mut self, ctx: &mut PluginContext) -> (rc: i32)
        ensures
            final(self).history.calls() == old(self).history.calls().push(LifecycleCall::Init(rc)),
            final(self).abi_version == old(self).abi_version,
            final(self).has_tick == old(self).has_tick,
            final(self).has_handle_message == old(self).has_handle_message,
    {
        let rc = self.module.init(ctx);
        proof {
            self.history.log@ = self.history.log@.push(LifecycleCall::Init(rc));
        }
        rc
    }

    /// Calls the module's `tick` entry point and records the call.
    pub(crate) fn call_tick(&mut self, ctx: &mut PluginContext) -> (rc: i32)
        requires
            old(self).has_tick,
        ensures
            final(self).history.calls() == old(self).history.calls().push(LifecycleCall::Tick(rc)),
            final(self).abi_version == old(self).abi_version,
            final(self).has_tick == old(self).has_tick,
            final(self).has_handle_message == old(self).has_handle_message,
    {
        let rc = self.module.tick(ctx);
        proof {
            self.history.log@ = self.history.log@.push(LifecycleCall::Tick(rc));
        }
        rc
    }

    /// Calls the module's `shutdown` entry point and records the call.
    pub(crate) fn call_shutdown(&mut self, ctx: &mut PluginContext) -> (rc: i32)
        ensures
            final(self).history.calls() == old(self).history.calls().push(LifecycleCall::Shutdown(rc)),
            final(self).abi_version == old(self).abi_version,
            final(self).has_tick == old(self).has_tick,
            final(self).has_handle_message == old(self).has_handle_message,
    {
        let rc = self.module.shutdown(ctx);
        proof {
            self.history.log@ = self.history.log@.push(LifecycleCall::Shutdown(rc));
        }
        rc
    }

    /// Calls the module's `handle_message` entry point and records the call.
    pub(crate) fn call_handle_message(
        &mut self,
        ctx: &mut PluginContext,
        msg_type: &str,
        payload: &[u8],
    ) -> (rc: i32)
        requires
            old(self).has_handle_message,
        ensures
            final(self).history.calls() == old(self).history.calls().push(LifecycleCall::Message(rc)),
            final(self).abi_version == old(self).abi_version,
            final(self).has_tick == old(self).has_tick,
            final(self).has_handle_message == old(self).has_handle_message,
    {
        let rc = self.module.handle_message(ctx, msg_type, payload);
        proof {
            self.history.log@ = self.history.log@.push(LifecycleCall::Message(rc));
        }
        rc
    }
}

} // verus!
