//! The host of one loaded plugin module.
//!
//! A host owns a module's function table, the context handed to every call,
//! and the plugin's identifier.  Loading checks the binary-contract version
//! before anything else — a module reporting the wrong version is rejected
//! with its `init` entry point never called — and then runs `init`, treating
//! a non-zero status as a failed load with every resource handed back.
//! A live host is destroyed only by [`NativePluginHost::unload`], which
//! triggers exactly one `shutdown` call.

use vstd::prelude::*;

use crate::abi::{
    ABI_VERSION, EmittedEvent, LifecycleCall, LogEntry, NativePlugin, PluginContext, PluginVTable,
    live_history, shutdown_count,
};
use crate::error::Error;

verus! {

/// Hosts exactly one loaded plugin module and exposes a safe call surface
/// over its entry points.
pub struct NativePluginHost<M: NativePlugin> {
    vtable: PluginVTable<M>,
    context: PluginContext,
    plugin_id: String,
}

impl<M: NativePlugin> NativePluginHost<M> {
    /// The calls made to the hosted module, oldest first.
    pub closed spec fn history(&self) -> Seq<LifecycleCall> {
        self.vtable.history.calls()
    }

    /// The hosted plugin's identifier.
    pub closed spec fn id(&self) -> Seq<char> {
        self.plugin_id@
    }

    /// Whether the module declares the optional `tick` entry point.
    pub closed spec fn has_tick(&self) -> bool {
        self.vtable.has_tick
    }

    /// Whether the module declares the optional `handle_message` entry point.
    pub closed spec fn has_handle_message(&self) -> bool {
        self.vtable.has_handle_message
    }

    /// The events the module has emitted and the host has not yet drained.
    pub closed spec fn pending_events(&self) -> Seq<EmittedEvent> {
        self.context.events_seq()
    }

    /// The log lines the module has produced and the host has not yet
    /// drained.
    pub closed spec fn pending_logs(&self) -> Seq<LogEntry> {
        self.context.logs_seq()
    }

    /// A live host: its module was accepted, initialised successfully once,
    /// and has seen nothing but ticks and messages since.
    pub open spec fn wf(&self) -> bool {
        live_history(self.history())
    }

    /// Loads a module from its function table.
    ///
    /// A version other than [`ABI_VERSION`] is rejected as an ABI mismatch
    /// with `init` never called; a non-zero `init` status fails the load.
    /// Either way the function table is handed back, so nothing from the
    /// failed attempt stays allocated here.  On success the host is live and
    /// holds whatever events `init` emitted.
    pub fn load(vtable: PluginVTable<M>, plugin_id: String) -> (r: Result<
        NativePluginHost<M>,
        (Error, PluginVTable<M>),
    >)
        requires
            vtable.history.calls() == Seq::<LifecycleCall>::empty(),
        ensures
            vtable.abi_version != ABI_VERSION ==> (r matches Err(e) && {
                &&& e.0 == (Error::AbiMismatch { expected: ABI_VERSION, found: vtable.abi_version })
                &&& e.1 == vtable
            }),
            r matches Ok(h) ==> {
                &&& vtable.abi_version == ABI_VERSION
                &&& h.wf()
                &&& h.history() =~= seq![LifecycleCall::Init(0i32)]
                &&& h.id() == plugin_id@
                &&& h.has_tick() == vtable.has_tick
                &&& h.has_handle_message() == vtable.has_handle_message
            },
            vtable.abi_version == ABI_VERSION ==> (r matches Ok(h) || (r matches Err(e) && {
                &&& e.0 matches Error::InitFailed(rc)
                &&& rc != 0
                &&& e.1.history.calls() =~= seq![LifecycleCall::Init(rc)]
            })),
    {
        let mut vtable = vtable;
        if vtable.abi_version != ABI_VERSION {
            let e = Error::AbiMismatch { expected: ABI_VERSION, found: vtable.abi_version };
            return Err((e, vtable));
        }
        let mut context = PluginContext::new();
        let rc = vtable.call_init(&mut context);
        if rc != 0 {
            return Err((Error::InitFailed(rc), vtable));
        }
        Ok(NativePluginHost { vtable, context, plugin_id })
    }

    /// Invokes the module's `tick` entry point if it is present; a missing
    /// entry point is not an error and yields status 0 without touching the
    /// module.
    pub fn tick(&mut self) -> (rc: i32)
        ensures
            old(self).has_tick() ==> final(self).history() == old(self).history().push(
                LifecycleCall::Tick(rc),
            ),
            !old(self).has_tick() ==> rc == 0 && final(self).history() == old(self).history(),
            final(self).id() == old(self).id(),
            final(self).has_tick() == old(self).has_tick(),
            final(self).has_handle_message() == old(self).has_handle_message(),
            old(self).wf() ==> final(self).wf(),
    {
        if self.vtable.has_tick {
            self.vtable.call_tick(&mut self.context)
        } else {
            0
        }
    }

    /// Hands the module a typed message through its optional
    /// `handle_message` entry point; a missing entry point yields status 0
    /// with no effect.
    pub fn send_message(&mut self, msg_type: &str, payload: &[u8]) -> (rc: i32)
        ensures
            old(self).has_handle_message() ==> final(self).history() == old(
                self,
            ).history().push(LifecycleCall::Message(rc)),
            !old(self).has_handle_message() ==> rc == 0 && final(self).history() == old(
                self,
            ).history(),
            final(self).id() == old(self).id(),
            final(self).has_tick() == old(self).has_tick(),
            final(self).has_handle_message() == old(self).has_handle_message(),
            old(self).wf() ==> final(self).wf(),
    {
        if self.vtable.has_handle_message {
            self.vtable.call_handle_message(&mut self.context, msg_type, payload)
        } else {
            0
        }
    }

    /// Drains the events the module has emitted so far, in emission order.
    pub fn take_events(&mut self) -> (evs: Vec<EmittedEvent>)
        ensures
            evs@ == old(self).pending_events(),
            final(self).pending_events() =~= Seq::<EmittedEvent>::empty(),
            final(self).pending_logs() == old(self).pending_logs(),
            final(self).history() == old(self).history(),
            final(self).id() == old(self).id(),
            final(self).has_tick() == old(self).has_tick(),
            final(self).has_handle_message() == old(self).has_handle_message(),
            old(self).wf() ==> final(self).wf(),
    {
        self.context.take_events()
    }

    /// Drains the log lines the module has produced so far, in the order
    /// they were written.
    pub fn take_logs(&mut self) -> (ls: Vec<LogEntry>)
        ensures
            ls@ == old(self).pending_logs(),
            final(self).pending_logs() =~= Seq::<LogEntry>::empty(),
            final(self).pending_events() == old(self).pending_events(),
            final(self).history() == old(self).history(),
            final(self).id() == old(self).id(),
            final(self).has_tick() == old(self).has_tick(),
            final(self).has_handle_message() == old(self).has_handle_message(),
            old(self).wf() ==> final(self).wf(),
    {
        self.context.take_logs()
    }

    /// Destroys the host: calls the module's `shutdown` entry point exactly
    /// once, strictly before the function table is handed back.  On a live
    /// host the returned history records precisely one shutdown.
    pub fn unload(self) -> (r: (i32, PluginVTable<M>))
        ensures
            r.1.history.calls() == self.history().push(LifecycleCall::Shutdown(r.0)),
            self.wf() ==> shutdown_count(r.1.history.calls()) == 1,
    {
        let mut vtable = self.vtable;
        let mut context = self.context;
        let rc = vtable.call_shutdown(&mut context);
        proof {
            if self.wf() {
                crate::abi::lemma_unload_shuts_down_once(self.history(), rc);
            }
        }
        (rc, vtable)
    }
}

} // verus!
