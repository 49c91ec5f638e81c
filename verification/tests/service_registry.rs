//! Tests of the service registry: registration round trips, subscription
//! bookkeeping, and the two broadcast paths with real schema validation.

use yaof_core::registry::{ServiceRegistry, ServiceValidator};

fn json(s: &str) -> serde_json::Value {
    serde_json::from_str(s).unwrap()
}

#[test]
fn register_then_list_round_trip() {
    let mut reg = ServiceRegistry::new();
    let schema = json("{\"type\":\"object\",\"required\":[\"level\"]}");
    reg.register_provider(
        String::from("battery"),
        String::from("power-plugin"),
        schema.clone(),
    )
    .unwrap();
    let providers = reg.list_providers();
    let entry = providers
        .iter()
        .find(|p| p.service_id == "battery")
        .expect("registered service must be listed");
    assert_eq!(entry.plugin_id, "power-plugin");
    assert_eq!(entry.schema, schema);

    reg.unregister_provider("battery");
    assert!(reg.list_providers().iter().all(|p| p.service_id != "battery"));
}

#[test]
fn reregistration_overwrites_provider_and_keeps_subscribers() {
    let mut reg = ServiceRegistry::new();
    reg.register_provider(String::from("clock"), String::from("a"), json("null"))
        .unwrap();
    reg.subscribe("clock", "win-1").unwrap();
    reg.register_provider(String::from("clock"), String::from("b"), json("null"))
        .unwrap();
    let providers = reg.list_providers();
    assert_eq!(providers.len(), 1);
    assert_eq!(providers[0].plugin_id, "b");
    // The subscriber recorded before re-registration is still cleared by
    // one unsubscribe, so it was preserved.
    reg.unsubscribe("clock", "win-1");
    reg.unsubscribe("clock", "win-1");
}

#[test]
fn trivial_schemas_get_no_validator() {
    let mut reg = ServiceRegistry::new();
    reg.register_provider(String::from("a"), String::from("p"), json("null"))
        .unwrap();
    reg.register_provider(String::from("b"), String::from("p"), json("{}"))
        .unwrap();
    reg.register_provider(
        String::from("c"),
        String::from("p"),
        json("{\"type\":\"number\"}"),
    )
    .unwrap();
    assert!(!reg.has_validator("a"));
    assert!(!reg.has_validator("b"));
    assert!(reg.has_validator("c"));
}

#[test]
fn invalid_schema_registers_without_validator() {
    let mut reg = ServiceRegistry::new();
    // `type: 7` is not a valid JSON schema; registration still succeeds.
    reg.register_provider(String::from("odd"), String::from("p"), json("{\"type\": 7}"))
        .unwrap();
    assert!(!reg.has_validator("odd"));
    assert!(reg.list_providers().iter().any(|p| p.service_id == "odd"));
}

#[test]
fn unregister_twice_is_a_no_op() {
    let mut reg = ServiceRegistry::new();
    reg.register_provider(String::from("x"), String::from("p"), json("null"))
        .unwrap();
    reg.unregister_provider("x");
    reg.unregister_provider("x");
    assert!(reg.list_providers().is_empty());
}

#[test]
fn unsubscribe_when_not_subscribed_succeeds() {
    let mut reg = ServiceRegistry::new();
    reg.register_provider(String::from("x"), String::from("p"), json("null"))
        .unwrap();
    // Never subscribed: a no-op that does not fail.
    reg.unsubscribe("x", "win-a");
    reg.unsubscribe("unknown-service", "win-a");
    assert_eq!(reg.list_providers().len(), 1);
}

#[test]
fn subscribe_before_registration_creates_synthetic_provider() {
    let mut reg = ServiceRegistry::new();
    reg.subscribe("clock", "win-a").unwrap();
    let providers = reg.list_providers();
    let entry = providers
        .iter()
        .find(|p| p.service_id == "clock")
        .expect("auto-registered provider must be listed");
    assert_eq!(entry.plugin_id, "native:clock");
    assert_eq!(entry.schema, json("{}"));
    assert!(!reg.has_validator("clock"));
}

#[test]
fn duplicate_subscriptions_cleared_by_one_unsubscribe() {
    let mut reg = ServiceRegistry::new();
    reg.subscribe("clock", "win-a").unwrap();
    reg.subscribe("clock", "win-a").unwrap();
    reg.subscribe("clock", "win-b").unwrap();
    reg.unsubscribe("clock", "win-a");
    // Only win-b remains; unsubscribing it twice still succeeds.
    reg.unsubscribe("clock", "win-b");
    reg.unsubscribe("clock", "win-b");
}

#[test]
fn battery_scenario_soft_and_strict_broadcast() {
    let mut reg = ServiceRegistry::new();
    reg.register_provider(
        String::from("battery"),
        String::from("power-plugin"),
        json("{\"type\":\"object\",\"required\":[\"level\"]}"),
    )
    .unwrap();

    // A valid payload: published on the service channel, no warnings.
    let (msg, warnings) = reg.broadcast("battery", json("{\"level\": 42}"));
    assert_eq!(msg.channel, "yaof:service:battery");
    assert_eq!(msg.payload, json("{\"level\": 42}"));
    assert!(warnings.is_empty());

    // A required-only schema constrains presence, not type: a string
    // level still satisfies it and passes both paths.
    let (_, warnings) = reg.broadcast("battery", json("{\"level\": \"low\"}"));
    assert!(warnings.is_empty());

    // A payload missing the required key: the soft path still delivers,
    // with warnings, and the strict path refuses it.
    let (msg, warnings) = reg.broadcast("battery", json("{\"charge\": 9}"));
    assert_eq!(msg.channel, "yaof:service:battery");
    assert_eq!(msg.payload, json("{\"charge\": 9}"));
    assert!(!warnings.is_empty());
    let errs = reg
        .broadcast_validated("battery", json("{\"charge\": 9}"))
        .err()
        .unwrap();
    assert!(!errs.is_empty());

    // With the level's type pinned, a string level fails validation:
    // delivered with a warning on the soft path, refused on the strict.
    reg.register_provider(
        String::from("battery"),
        String::from("power-plugin"),
        json(
            "{\"type\":\"object\",\"required\":[\"level\"],\"properties\":{\"level\":{\"type\":\"number\"}}}",
        ),
    )
    .unwrap();
    let (msg, warnings) = reg.broadcast("battery", json("{\"level\": \"low\"}"));
    assert_eq!(msg.channel, "yaof:service:battery");
    assert!(!warnings.is_empty());
    let msg = reg
        .broadcast_validated("battery", json("{\"level\": 1}"))
        .unwrap();
    assert_eq!(msg.channel, "yaof:service:battery");
    let errs = reg
        .broadcast_validated("battery", json("{\"level\": \"low\"}"))
        .err()
        .unwrap();
    assert!(!errs.is_empty());
}

#[test]
fn validation_can_be_disabled() {
    let mut reg = ServiceRegistry::new();
    reg.register_provider(
        String::from("battery"),
        String::from("p"),
        json("{\"type\":\"object\",\"required\":[\"level\"]}"),
    )
    .unwrap();
    reg.validate_data = false;
    assert!(reg.validate_service_data("battery", &json("\"nonsense\"")).is_ok());
    let (_, warnings) = reg.broadcast("battery", json("\"nonsense\""));
    assert!(warnings.is_empty());
}

#[test]
fn validate_service_data_reports_instance_paths() {
    let mut reg = ServiceRegistry::new();
    reg.register_provider(
        String::from("geo"),
        String::from("p"),
        json("{\"type\":\"object\",\"properties\":{\"lat\":{\"type\":\"number\"}}}"),
    )
    .unwrap();
    let errs = reg
        .validate_service_data("geo", &json("{\"lat\": \"north\"}"))
        .err()
        .unwrap();
    assert_eq!(errs.len(), 1);
    assert!(errs[0].contains("lat"));
    // A service without a validator accepts anything.
    assert!(reg.validate_service_data("unknown", &json("12")).is_ok());
}

#[test]
fn get_schema_returns_registered_document() {
    let mut reg = ServiceRegistry::new();
    let schema = json("{\"type\":\"array\"}");
    reg.register_provider(String::from("list"), String::from("p"), schema.clone())
        .unwrap();
    assert_eq!(reg.get_schema("list"), Some(&schema));
    assert_eq!(reg.get_schema("other"), None);
}

#[test]
fn service_validator_compiles_and_validates() {
    let schema = json("{\"type\":\"integer\"}");
    let v = ServiceValidator::new(String::from("count"), &schema).unwrap();
    assert_eq!(v.service_id, "count");
    assert!(v.validate(&json("5")).is_ok());
    let errs = v.validate(&json("\"five\"")).err().unwrap();
    assert!(!errs.is_empty());
    // An invalid schema document fails compilation with a message.
    let err = ServiceValidator::new(String::from("bad"), &json("{\"type\": 7}"))
        .err()
        .unwrap();
    assert!(err.starts_with("Invalid schema: "));
}
