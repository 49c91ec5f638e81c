//! The service registry: provider and subscriber bookkeeping, schema
//! compilation, and the broadcast paths.
//!
//! A service id is either unregistered or registered — with or without a
//! compiled validator — and registration and unregistration are the only
//! transitions.  Subscribing attaches a consumer to a service id, creating
//! a synthetic provider when none is registered yet; the subscriber set is
//! bookkeeping only, and broadcast delivery is a host-wide publish under
//! the service's channel that never consults it.

use vstd::prelude::*;
use vstd::string::StringExecFns;

use crate::abi::service_channel;
use crate::json::{
    CompiledSchema, compile_schema, json_empty_object, json_is_empty_object,
    json_is_null, trivial_schema, validator_accepts, validator_errors, validator_schema,
};
use crate::keyed::{
    keyed_at, keyed_has, keyed_index, keyed_unique, lemma_keyed_index_unique, lemma_keyed_push,
    lemma_keyed_remove, lemma_keyed_update,
};
use crate::strutil::{spec_has_prefix, str_eq};

verus! {

/// A registered service provider: the service id it owns, the plugin that
/// registered it, and the JSON-schema document describing its payloads.
pub struct ProviderInfo {
    pub service_id: String,
    pub plugin_id: String,
    pub schema: serde_json::Value,
}

/// The compiled form of a provider's schema.
pub struct ServiceValidator {
    pub service_id: String,
    pub validator: CompiledSchema,
}

impl ServiceValidator {
    /// Compiles a schema document into a validator for the given service.
    /// On success the validator was built from exactly that document;
    /// whether a document compiles is the schema crate's decision (its
    /// external references may involve the network or the disk), so no
    /// success condition is promised.  On failure the message starts
    /// `Invalid schema: `.
    pub fn new(service_id: String, schema: &serde_json::Value) -> (r: Result<Self, String>)
        ensures
            r matches Ok(v) ==> v.service_id@ == service_id@ && validator_schema(v.validator)
                == *schema,
            r matches Err(m) ==> spec_has_prefix(m@, "Invalid schema: "@),
    {
        match compile_schema(schema) {
            Ok(validator) => Ok(ServiceValidator { service_id, validator }),
            Err(e) => {
                let msg = String::from_str("Invalid schema: ").concat(e.as_str());
                proof {
                    assert(msg@.subrange(0, "Invalid schema: "@.len() as int)
                        =~= "Invalid schema: "@);
                }
                Err(msg)
            },
        }
    }

    /// Runs the compiled validator: success exactly when the data
    /// satisfies it, else the collected violations, one message per
    /// violation, each annotated with the offending instance path.
    pub fn validate(&self, data: &serde_json::Value) -> (r: Result<(), Vec<String>>)
        ensures
            r is Ok <==> validator_accepts(self.validator, *data),
            r matches Err(errs) ==> errs@.len() > 0,
    {
        let errs = validator_errors(&self.validator, data);
        if errs.len() == 0 {
            Ok(())
        } else {
            Err(errs)
        }
    }
}

/// One service's recorded subscribers, in subscription order; duplicates
/// are kept.
pub struct SubscriberSet {
    pub service_id: String,
    pub subscribers: Vec<String>,
}

/// The key under which a provider stands in the registry.
pub open spec fn provider_key() -> spec_fn(ProviderInfo) -> Seq<char> {
    |p: ProviderInfo| p.service_id@
}

/// The key under which a validator stands in the registry.
pub open spec fn validator_key() -> spec_fn(ServiceValidator) -> Seq<char> {
    |v: ServiceValidator| v.service_id@
}

/// The key under which a subscriber set stands in the registry.
pub open spec fn subscriber_key() -> spec_fn(SubscriberSet) -> Seq<char> {
    |s: SubscriberSet| s.service_id@
}

/// The character sequences of a list of strings, in order.
pub open spec fn views_of(s: Seq<String>) -> Seq<Seq<char>> {
    Seq::new(s.len(), |i: int| s[i]@)
}

/// A subscriber list with every entry equal to `label` removed.  This is
/// the one place the removal predicate is written, so contracts, proofs
/// and the idempotence law below all speak of the same function.
pub open spec fn spec_without_label(subs: Seq<Seq<char>>, label: Seq<char>) -> Seq<Seq<char>> {
    subs.filter(|l: Seq<char>| l != label)
}

/// A message the broadcast path hands to the host for publication: the
/// channel and the payload every consumer listening on it receives.
pub struct BroadcastMessage {
    pub channel: String,
    pub payload: serde_json::Value,
}

/// Registry for service providers and subscribers.
pub struct ServiceRegistry {
    providers: Vec<ProviderInfo>,
    validators: Vec<ServiceValidator>,
    subscribers: Vec<SubscriberSet>,
    /// Whether payloads are validated against schemas; validation may be
    /// disabled wholesale for performance.
    pub validate_data: bool,
}

impl ServiceRegistry {
    /// The registered providers, in registration order.
    pub closed spec fn providers_seq(&self) -> Seq<ProviderInfo> {
        self.providers@
    }

    /// The compiled validators.
    pub closed spec fn validators_seq(&self) -> Seq<ServiceValidator> {
        self.validators@
    }

    /// The recorded subscriber sets.
    pub closed spec fn subscribers_seq(&self) -> Seq<SubscriberSet> {
        self.subscribers@
    }

    /// Whether payload validation is enabled.
    pub closed spec fn validation_enabled(&self) -> bool {
        self.validate_data
    }

    /// Whether a provider is registered under `id`.
    pub open spec fn has_provider(&self, id: Seq<char>) -> bool {
        keyed_has(self.providers_seq(), provider_key(), id)
    }

    /// The provider registered under `id`.
    pub open spec fn provider_at(&self, id: Seq<char>) -> ProviderInfo {
        keyed_at(self.providers_seq(), provider_key(), id)
    }

    /// Whether a compiled validator exists for `id`.
    pub open spec fn has_validator_for(&self, id: Seq<char>) -> bool {
        keyed_has(self.validators_seq(), validator_key(), id)
    }

    /// The validator compiled for `id`.
    pub open spec fn validator_at(&self, id: Seq<char>) -> ServiceValidator {
        keyed_at(self.validators_seq(), validator_key(), id)
    }

    /// The subscribers recorded for `id`, oldest first.
    pub open spec fn subscribers_for(&self, id: Seq<char>) -> Seq<Seq<char>> {
        if keyed_has(self.subscribers_seq(), subscriber_key(), id) {
            views_of(keyed_at(self.subscribers_seq(), subscriber_key(), id).subscribers@)
        } else {
            Seq::empty()
        }
    }

    /// A well-formed registry: each of the three collections keyed
    /// uniquely by service id.
    pub open spec fn wf(&self) -> bool {
        &&& keyed_unique(self.providers_seq(), provider_key())
        &&& keyed_unique(self.validators_seq(), validator_key())
        &&& keyed_unique(self.subscribers_seq(), subscriber_key())
    }

    /// Whether validation applies to a broadcast on `id`: it is enabled and
    /// a validator is compiled for the service.
    pub open spec fn validation_applies(&self, id: Seq<char>) -> bool {
        self.validation_enabled() && self.has_validator_for(id)
    }

    /// Whether a payload passes whatever validation applies to `id`: with
    /// validation disabled or no validator compiled, everything passes.
    pub open spec fn data_admitted(&self, id: Seq<char>, data: serde_json::Value) -> bool {
        self.validation_applies(id) ==> validator_accepts(
            self.validator_at(id).validator,
            data,
        )
    }

    /// An empty registry with validation enabled.
    pub fn new() -> (r: Self)
        ensures
            r.wf(),
            r.providers_seq() =~= Seq::<ProviderInfo>::empty(),
            r.validators_seq() =~= Seq::<ServiceValidator>::empty(),
            r.subscribers_seq() =~= Seq::<SubscriberSet>::empty(),
            r.validation_enabled(),
    {
        ServiceRegistry {
            providers: Vec::new(),
            validators: Vec::new(),
            subscribers: Vec::new(),
            validate_data: true,
        }
    }

    /// The position of the provider under `id`.
    fn find_provider(&self, id: &str) -> (r: Option<usize>)
        requires
            self.wf(),
        ensures
            match r {
                Some(i) => i < self.providers_seq().len() && self.providers_seq()[i as int]
                    .service_id@ == id@ && i == keyed_index(
                    self.providers_seq(),
                    provider_key(),
                    id@,
                ),
                None => !self.has_provider(id@),
            },
    {
        let mut i: usize = 0;
        while i < self.providers.len()
            invariant
                self.wf(),
                i <= self.providers_seq().len(),
                forall|j: int| 0 <= j < i ==> self.providers_seq()[j].service_id@ != id@,
            decreases self.providers_seq().len() - i,
        {
            if str_eq(self.providers[i].service_id.as_str(), id) {
                proof {
                    assert(provider_key()(self.providers_seq()[i as int]) == id@);
                    assert(self.has_provider(id@));
                    lemma_keyed_index_unique(
                        self.providers_seq(),
                        provider_key(),
                        keyed_index(self.providers_seq(), provider_key(), id@),
                        i as int,
                    );
                }
                return Some(i);
            }
            i += 1;
        }
        proof {
            if self.has_provider(id@) {
                let w = keyed_index(self.providers_seq(), provider_key(), id@);
                assert(provider_key()(self.providers_seq()[w]) == self.providers_seq()[w]
                    .service_id@);
                assert(false);
            }
        }
        None
    }

    /// The position of the validator under `id`.
    fn find_validator(&self, id: &str) -> (r: Option<usize>)
        requires
            self.wf(),
        ensures
            match r {
                Some(i) => i < self.validators_seq().len() && self.validators_seq()[i as int]
                    .service_id@ == id@ && i == keyed_index(
                    self.validators_seq(),
                    validator_key(),
                    id@,
                ),
                None => !self.has_validator_for(id@),
            },
    {
        let mut i: usize = 0;
        while i < self.validators.len()
            invariant
                self.wf(),
                i <= self.validators_seq().len(),
                forall|j: int| 0 <= j < i ==> self.validators_seq()[j].service_id@ != id@,
            decreases self.validators_seq().len() - i,
        {
            if str_eq(self.validators[i].service_id.as_str(), id) {
                proof {
                    assert(validator_key()(self.validators_seq()[i as int]) == id@);
                    assert(self.has_validator_for(id@));
                    lemma_keyed_index_unique(
                        self.validators_seq(),
                        validator_key(),
                        keyed_index(self.validators_seq(), validator_key(), id@),
                        i as int,
                    );
                }
                return Some(i);
            }
            i += 1;
        }
        proof {
            if self.has_validator_for(id@) {
                let w = keyed_index(self.validators_seq(), validator_key(), id@);
                assert(validator_key()(self.validators_seq()[w]) == self.validators_seq()[w]
                    .service_id@);
                assert(false);
            }
        }
        None
    }

    /// The position of the subscriber set under `id`.
    fn find_subscribers(&self, id: &str) -> (r: Option<usize>)
        requires
            self.wf(),
        ensures
            match r {
                Some(i) => i < self.subscribers_seq().len() && self.subscribers_seq()[i as int]
                    .service_id@ == id@ && i == keyed_index(
                    self.subscribers_seq(),
                    subscriber_key(),
                    id@,
                ),
                None => !keyed_has(self.subscribers_seq(), subscriber_key(), id@),
            },
    {
        let mut i: usize = 0;
        while i < self.subscribers.len()
            invariant
                self.wf(),
                i <= self.subscribers_seq().len(),
                forall|j: int| 0 <= j < i ==> self.subscribers_seq()[j].service_id@ != id@,
            decreases self.subscribers_seq().len() - i,
        {
            if str_eq(self.subscribers[i].service_id.as_str(), id) {
                proof {
                    assert(subscriber_key()(self.subscribers_seq()[i as int]) == id@);
                    assert(keyed_has(self.subscribers_seq(), subscriber_key(), id@));
                    lemma_keyed_index_unique(
                        self.subscribers_seq(),
                        subscriber_key(),
                        keyed_index(self.subscribers_seq(), subscriber_key(), id@),
                        i as int,
                    );
                }
                return Some(i);
            }
            i += 1;
        }
        proof {
            if keyed_has(self.subscribers_seq(), subscriber_key(), id@) {
                let w = keyed_index(self.subscribers_seq(), subscriber_key(), id@);
                assert(subscriber_key()(self.subscribers_seq()[w]) == self.subscribers_seq()[w]
                    .service_id@);
                assert(false);
            }
        }
        None
    }

    /// Registers a provider for `service_id`, overwriting any provider and
    /// validator already registered under it while preserving the
    /// service's subscribers.  When the schema is non-trivial — neither
    /// `null` nor `{}` — compiling a validator for it is attempted; a
    /// schema that fails to compile leaves the service registered without
    /// a validator rather than failing the call, so registration always
    /// succeeds.  Any validator the service ends up with was built from
    /// exactly the registered document.
    pub fn register_provider(
        &mut self,
        service_id: String,
        plugin_id: String,
        schema: serde_json::Value,
    ) -> (r: Result<(), String>)
        requires
            old(self).wf(),
        ensures
            final(self).wf(),
            r is Ok,
            final(self).has_provider(service_id@),
            final(self).provider_at(service_id@).service_id@ == service_id@,
            final(self).provider_at(service_id@).plugin_id@ == plugin_id@,
            final(self).provider_at(service_id@).schema == schema,
            forall|id2: Seq<char>|
                id2 != service_id@ ==> #[trigger] final(self).has_provider(id2) == old(self).has_provider(id2),
            forall|id2: Seq<char>|
                id2 != service_id@ && old(self).has_provider(id2) ==> #[trigger] final(self).provider_at(id2) == old(self).provider_at(id2),
            trivial_schema(schema) ==> !final(self).has_validator_for(service_id@),
            final(self).has_validator_for(service_id@) ==> !trivial_schema(schema)
                && validator_schema(final(self).validator_at(service_id@).validator) == schema
                && final(self).validator_at(service_id@).service_id@ == service_id@,
            forall|id2: Seq<char>|
                id2 != service_id@ ==> #[trigger] final(self).has_validator_for(id2) == old(self).has_validator_for(id2),
            forall|id2: Seq<char>|
                id2 != service_id@ && old(self).has_validator_for(id2) ==> #[trigger] final(self).validator_at(id2) == old(self).validator_at(id2),
            final(self).subscribers_seq() == old(self).subscribers_seq(),
            final(self).validation_enabled() == old(self).validation_enabled(),
    {
        let is_trivial = json_is_null(&schema) || json_is_empty_object(&schema);
        let compiled: Option<ServiceValidator> = if is_trivial {
            None
        } else {
            let sid = service_id.clone();
            match ServiceValidator::new(sid, &schema) {
                Ok(v) => Some(v),
                Err(_e) => {
                    // Compilation failure is a warning, not an error: the
                    // service stays registered without a validator.
                    None
                },
            }
        };
        match self.find_validator(service_id.as_str()) {
            Some(i) => match compiled {
                Some(v) => {
                    proof {
                        lemma_keyed_update(self.validators_seq(), validator_key(), i as int, v);
                    }
                    self.validators[i] = v;
                },
                None => {
                    proof {
                        lemma_keyed_remove(self.validators_seq(), validator_key(), i as int);
                    }
                    let _ = self.validators.remove(i);
                },
            },
            None => match compiled {
                Some(v) => {
                    proof {
                        lemma_keyed_push(self.validators_seq(), validator_key(), v);
                    }
                    self.validators.push(v);
                },
                None => {},
            },
        }
        let ghost vmid = *self;
        let provider = ProviderInfo {
            service_id,
            plugin_id,
            schema,
        };
        match self.find_provider(provider.service_id.as_str()) {
            Some(i) => {
                proof {
                    lemma_keyed_update(self.providers_seq(), provider_key(), i as int, provider);
                }
                self.providers[i] = provider;
            },
            None => {
                proof {
                    lemma_keyed_push(self.providers_seq(), provider_key(), provider);
                }
                self.providers.push(provider);
            },
        }
        proof {
            assert(self.validators_seq() == vmid.validators_seq());
        }
        Ok(())
    }

    /// Unregisters `service_id`: the provider, its compiled validator and
    /// its entire subscriber set are discarded.  Unregistering an id that
    /// is not registered is a no-op.
    pub fn unregister_provider(&mut self, service_id: &str)
        requires
            old(self).wf(),
        ensures
            final(self).wf(),
            !final(self).has_provider(service_id@),
            !final(self).has_validator_for(service_id@),
            final(self).subscribers_for(service_id@) =~= Seq::<Seq<char>>::empty(),
            forall|id2: Seq<char>|
                id2 != service_id@ ==> #[trigger] final(self).has_provider(id2) == old(self).has_provider(id2),
            forall|id2: Seq<char>|
                id2 != service_id@ && old(self).has_provider(id2) ==> #[trigger] final(self).provider_at(id2) == old(self).provider_at(id2),
            forall|id2: Seq<char>|
                id2 != service_id@ ==> #[trigger] final(self).has_validator_for(id2) == old(self).has_validator_for(id2),
            forall|id2: Seq<char>|
                id2 != service_id@ && old(self).has_validator_for(id2) ==> #[trigger] final(self).validator_at(id2) == old(self).validator_at(id2),
            forall|id2: Seq<char>|
                id2 != service_id@ ==> #[trigger] final(self).subscribers_for(id2) == old(self).subscribers_for(id2),
            final(self).validation_enabled() == old(self).validation_enabled(),
    {
        match self.find_provider(service_id) {
            Some(i) => {
                proof {
                    lemma_keyed_remove(self.providers_seq(), provider_key(), i as int);
                }
                let _ = self.providers.remove(i);
            },
            None => {},
        }
        match self.find_validator(service_id) {
            Some(i) => {
                proof {
                    lemma_keyed_remove(self.validators_seq(), validator_key(), i as int);
                }
                let _ = self.validators.remove(i);
            },
            None => {},
        }
        match self.find_subscribers(service_id) {
            Some(i) => {
                proof {
                    lemma_keyed_remove(self.subscribers_seq(), subscriber_key(), i as int);
                }
                let _ = self.subscribers.remove(i);
            },
            None => {},
        }
    }

    /// Lists every registered provider, in registration order, each entry
    /// equal to what was registered.
    pub fn list_providers(&self) -> (r: Vec<ProviderInfo>)
        ensures
            r@.len() == self.providers_seq().len(),
            forall|i: int|
                0 <= i < r@.len() ==> {
                    &&& (#[trigger] r@[i]).service_id@ == self.providers_seq()[i].service_id@
                    &&& r@[i].plugin_id@ == self.providers_seq()[i].plugin_id@
                    &&& r@[i].schema == self.providers_seq()[i].schema
                },
    {
        let mut out: Vec<ProviderInfo> = Vec::new();
        let mut i: usize = 0;
        while i < self.providers.len()
            invariant
                i <= self.providers_seq().len(),
                out@.len() == i,
                forall|j: int|
                    0 <= j < i ==> {
                        &&& (#[trigger] out@[j]).service_id@ == self.providers_seq()[j]
                            .service_id@
                        &&& out@[j].plugin_id@ == self.providers_seq()[j].plugin_id@
                        &&& out@[j].schema == self.providers_seq()[j].schema
                    },
            decreases self.providers_seq().len() - i,
        {
            let p = &self.providers[i];
            out.push(ProviderInfo {
                service_id: p.service_id.clone(),
                plugin_id: p.plugin_id.clone(),
                schema: p.schema.clone(),
            });
            i += 1;
        }
        out
    }

    /// Subscribes a consumer to `service_id`.  When the service is not yet
    /// registered it is auto-registered to a synthetic `native:`-prefixed
    /// owner with an empty schema, so consumers can attach before any
    /// plugin declares the service.  The consumer is then appended to the
    /// service's subscriber set — no deduplication, so subscribing twice
    /// records two entries.
    pub fn subscribe(&mut self, service_id: &str, window_label: &str) -> (r: Result<(), String>)
        requires
            old(self).wf(),
        ensures
            final(self).wf(),
            r is Ok,
            final(self).has_provider(service_id@),
            old(self).has_provider(service_id@) ==> final(self).provider_at(service_id@) == old(self).provider_at(service_id@),
            !old(self).has_provider(service_id@) ==> {
                &&& final(self).provider_at(service_id@).service_id@ == service_id@
                &&& final(self).provider_at(service_id@).plugin_id@ == "native:"@ + service_id@
                &&& crate::json::value_is_empty_object(final(self).provider_at(service_id@).schema)
            },
            forall|id2: Seq<char>|
                id2 != service_id@ ==> #[trigger] final(self).has_provider(id2) == old(self).has_provider(id2),
            forall|id2: Seq<char>|
                id2 != service_id@ && old(self).has_provider(id2) ==> #[trigger] final(self).provider_at(id2) == old(self).provider_at(id2),
            final(self).validators_seq() == old(self).validators_seq(),
            final(self).subscribers_for(service_id@) =~= old(self).subscribers_for(
                service_id@,
            ).push(window_label@),
            forall|id2: Seq<char>|
                id2 != service_id@ ==> #[trigger] final(self).subscribers_for(id2) == old(self).subscribers_for(id2),
            final(self).validation_enabled() == old(self).validation_enabled(),
    {
        if self.find_provider(service_id).is_none() {
            let placeholder = ProviderInfo {
                service_id: String::from_str(service_id),
                plugin_id: String::from_str("native:").concat(service_id),
                schema: json_empty_object(),
            };
            proof {
                lemma_keyed_push(self.providers_seq(), provider_key(), placeholder);
            }
            self.providers.push(placeholder);
        }
        let label = String::from_str(window_label);
        match self.find_subscribers(service_id) {
            Some(i) => {
                let ghost pre = self.subscribers_seq()[i as int];
                let entry = &mut self.subscribers[i];
                entry.subscribers.push(label);
                proof {
                    let post = self.subscribers_seq()[i as int];
                    assert(post.subscribers@ == pre.subscribers@.push(label));
                    assert(views_of(post.subscribers@) =~= views_of(pre.subscribers@).push(
                        window_label@,
                    )) by {
                        assert(forall|k: int|
                            0 <= k < pre.subscribers@.len() ==> post.subscribers@[k]
                                == pre.subscribers@[k]);
                    }
                    assert(subscriber_key()(post) == subscriber_key()(pre));
                    lemma_keyed_update(old(self).subscribers_seq(), subscriber_key(), i as int, post);
                    assert(self.subscribers_seq() =~= old(self).subscribers_seq().update(
                        i as int,
                        post,
                    ));
                }
            },
            None => {
                let fresh = SubscriberSet {
                    service_id: String::from_str(service_id),
                    subscribers: vec![label],
                };
                proof {
                    lemma_keyed_push(self.subscribers_seq(), subscriber_key(), fresh);
                    assert(views_of(fresh.subscribers@) =~= Seq::<Seq<char>>::empty().push(
                        window_label@,
                    ));
                }
                self.subscribers.push(fresh);
            },
        }
        Ok(())
    }

    /// Unsubscribes a consumer from `service_id`: every recorded entry
    /// equal to the consumer is removed, so duplicate subscriptions are all
    /// cleared at once.  Unsubscribing a consumer that is not subscribed is
    /// a no-op, and the call always succeeds.
    pub fn unsubscribe(&mut self, service_id: &str, window_label: &str)
        requires
            old(self).wf(),
        ensures
            final(self).wf(),
            final(self).subscribers_for(service_id@) =~= spec_without_label(
                old(self).subscribers_for(service_id@),
                window_label@,
            ),
            forall|id2: Seq<char>|
                id2 != service_id@ ==> #[trigger] final(self).subscribers_for(id2) == old(self).subscribers_for(id2),
            final(self).providers_seq() == old(self).providers_seq(),
            final(self).validators_seq() == old(self).validators_seq(),
            final(self).validation_enabled() == old(self).validation_enabled(),
    {
        let i = match self.find_subscribers(service_id) {
            Some(i) => i,
            None => {
                return ;
            },
        };
        let ghost pre = self.subscribers_seq()[i as int];
        let entry = &mut self.subscribers[i];
        let mut kept: Vec<String> = Vec::new();
        let mut j: usize = 0;
        let n = entry.subscribers.len();
        while j < n
            invariant
                j <= n,
                n == entry.subscribers@.len(),
                views_of(kept@) =~= spec_without_label(
                    views_of(entry.subscribers@.subrange(0, j as int)),
                    window_label@,
                ),
            decreases n - j,
        {
            let s = &entry.subscribers[j];
            proof {
                reveal(Seq::filter);
                let prefix = entry.subscribers@.subrange(0, j as int);
                let prefix1 = entry.subscribers@.subrange(0, j + 1);
                assert(prefix1.drop_last() =~= prefix);
                assert(prefix1.last() == entry.subscribers@[j as int]);
                assert(views_of(prefix1).drop_last() =~= views_of(prefix));
                assert(views_of(prefix1).last() == entry.subscribers@[j as int]@);
            }
            if !str_eq(s.as_str(), window_label) {
                let ghost k0 = kept@;
                let copied = s.clone();
                kept.push(copied);
                proof {
                    assert(kept@ == k0.push(copied));
                    assert forall|m: int| 0 <= m < kept@.len() implies views_of(kept@)[m]
                        == views_of(k0).push(s@)[m] by {
                        if m < k0.len() {
                            assert(kept@[m] == k0[m]);
                        } else {
                            assert(kept@[m] == copied);
                        }
                    }
                    assert(views_of(kept@) =~= views_of(k0).push(s@));
                }
            }
            j += 1;
        }
        proof {
            assert(entry.subscribers@.subrange(0, n as int) =~= entry.subscribers@);
        }
        entry.subscribers = kept;
        proof {
            let post = self.subscribers_seq()[i as int];
            assert(subscriber_key()(post) == subscriber_key()(pre));
            lemma_keyed_update(old(self).subscribers_seq(), subscriber_key(), i as int, post);
            assert(self.subscribers_seq() =~= old(self).subscribers_seq().update(i as int, post));
        }
    }

    /// Validates a payload against the service's schema: vacuous success
    /// when validation is disabled or the service has no compiled
    /// validator; otherwise success exactly when the payload satisfies the
    /// schema, else the collected violations.
    pub fn validate_service_data(&self, service_id: &str, data: &serde_json::Value) -> (r: Result<
        (),
        Vec<String>,
    >)
        requires
            self.wf(),
        ensures
            r is Ok <==> self.data_admitted(service_id@, *data),
            r matches Err(errs) ==> errs@.len() > 0,
    {
        if !self.validate_data {
            return Ok(());
        }
        match self.find_validator(service_id) {
            Some(i) => {
                proof {
                    lemma_keyed_index_unique(
                        self.validators_seq(),
                        validator_key(),
                        keyed_index(self.validators_seq(), validator_key(), service_id@),
                        i as int,
                    );
                    assert(validator_key()(self.validators_seq()[i as int]) == service_id@);
                }
                self.validators[i].validate(data)
            },
            None => Ok(()),
        }
    }

    /// The soft broadcast path: validation, where it applies, is advisory.
    /// The message is always produced for delivery under the service's
    /// channel; a payload that fails validation merely comes back with the
    /// violations as warnings for the host's log.
    pub fn broadcast(&self, service_id: &str, data: serde_json::Value) -> (r: (
        BroadcastMessage,
        Vec<String>,
    ))
        requires
            self.wf(),
        ensures
            r.0.channel@ == service_channel(service_id@),
            r.0.payload == data,
            r.1@.len() == 0 <==> self.data_admitted(service_id@, data),
    {
        let warnings = match self.validate_service_data(service_id, &data) {
            Ok(()) => Vec::new(),
            Err(errs) => errs,
        };
        let channel = String::from_str(crate::abi::SERVICE_CHANNEL_PREFIX).concat(service_id);
        proof {
            reveal_strlit("yaof:service:");
        }
        (BroadcastMessage { channel, payload: data }, warnings)
    }

    /// The strict broadcast path: a payload that fails the validation that
    /// applies aborts delivery and returns the collected violations;
    /// otherwise the message to publish is produced as in the soft path.
    pub fn broadcast_validated(&self, service_id: &str, data: serde_json::Value) -> (r: Result<
        BroadcastMessage,
        Vec<String>,
    >)
        requires
            self.wf(),
        ensures
            r is Ok <==> self.data_admitted(service_id@, data),
            r matches Ok(m) ==> m.channel@ == service_channel(service_id@) && m.payload == data,
            r matches Err(errs) ==> errs@.len() > 0,
    {
        match self.validate_service_data(service_id, &data) {
            Ok(()) => {
                let channel = String::from_str(crate::abi::SERVICE_CHANNEL_PREFIX).concat(
                    service_id,
                );
                proof {
                    reveal_strlit("yaof:service:");
                }
                Ok(BroadcastMessage { channel, payload: data })
            },
            Err(errs) => Err(errs),
        }
    }

    /// The schema registered for a service, if the service is registered.
    pub fn get_schema(&self, service_id: &str) -> (r: Option<&serde_json::Value>)
        requires
            self.wf(),
        ensures
            match r {
                Some(v) => self.has_provider(service_id@) && *v == self.provider_at(
                    service_id@,
                ).schema,
                None => !self.has_provider(service_id@),
            },
    {
        match self.find_provider(service_id) {
            Some(i) => {
                proof {
                    assert(provider_key()(self.providers_seq()[i as int]) == service_id@);
                }
                Some(&self.providers[i].schema)
            },
            None => None,
        }
    }

    /// Whether a validator is compiled for the service.
    pub fn has_validator(&self, service_id: &str) -> (r: bool)
        requires
            self.wf(),
        ensures
            r == self.has_validator_for(service_id@),
    {
        self.find_validator(service_id).is_some()
    }
}

/// Round trip, first half: a registered service appears in the provider
/// listing — some listed entry carries exactly the registered service id,
/// owner and schema.  Together with the contracts of `register_provider`
/// and `list_providers`, registering a service therefore makes a matching
/// entry observable through listing.
pub proof fn lemma_registered_provider_listed(r: &ServiceRegistry, id: Seq<char>)
    requires
        r.wf(),
        r.has_provider(id),
    ensures
        exists|i: int|
            0 <= i < r.providers_seq().len() && #[trigger] r.providers_seq()[i] == r.provider_at(
                id,
            ) && r.providers_seq()[i].service_id@ == id,
{
    let w = keyed_index(r.providers_seq(), provider_key(), id);
    assert(provider_key()(r.providers_seq()[w]) == id);
    assert(r.providers_seq()[w] == r.provider_at(id));
}

/// Round trip, second half: an unregistered service appears nowhere in the
/// provider listing.  Together with the contract of `unregister_provider`,
/// unregistering a service removes it from any subsequent listing.
pub proof fn lemma_unregistered_provider_not_listed(r: &ServiceRegistry, id: Seq<char>)
    requires
        !r.has_provider(id),
    ensures
        forall|i: int|
            0 <= i < r.providers_seq().len() ==> (#[trigger] r.providers_seq()[i]).service_id@
                != id,
{
    assert forall|i: int|
        0 <= i < r.providers_seq().len() implies (#[trigger] r.providers_seq()[i]).service_id@
        != id by {
        if r.providers_seq()[i].service_id@ == id {
            assert(provider_key()(r.providers_seq()[i]) == id);
            assert(r.has_provider(id));
        }
    }
}

/// Idempotence of unsubscribing: removing a consumer that is not recorded
/// for the service leaves the subscriber set exactly as it was.  Together
/// with the contract of `unsubscribe`, which states its result through the
/// same [`spec_without_label`], unsubscribing an unsubscribed consumer is
/// a no-op that still succeeds.
pub proof fn lemma_unsubscribe_absent_noop(subs: Seq<Seq<char>>, label: Seq<char>)
    requires
        !subs.contains(label),
    ensures
        spec_without_label(subs, label) =~= subs,
    decreases subs.len(),
{
    reveal(Seq::filter);
    if subs.len() == 0 {
    } else {
        assert(subs[subs.len() - 1] == subs.last());
        assert(subs.last() != label);
        if subs.drop_last().contains(label) {
            let w = choose|w: int| 0 <= w < subs.drop_last().len() && subs.drop_last()[w] == label;
            assert(subs[w] == label);
            assert(subs.contains(label));
        }
        lemma_unsubscribe_absent_noop(subs.drop_last(), label);
        assert(spec_without_label(subs, label) =~= spec_without_label(
            subs.drop_last(),
            label,
        ).push(subs.last()));
    }
}

} // verus!
