use genie_home_core::connectivity::{ConnectivityProtocol, ConnectivityReport};
use genie_home_core::device::{Device, DeviceId, DeviceIdError, DeviceRegistry};
use genie_home_core::entity::{Capability, Entity, EntityGraph, EntityId, EntityIdError, EntityState};

#[test]
fn demo_report_is_valid() {
    let report = ConnectivityReport::esp32c6_thread_demo().unwrap();

    assert_eq!(report.source, "genie-os-esp32c6-uart");
    assert_eq!(report.devices[0].protocol, ConnectivityProtocol::Thread);
    assert_eq!(
        report.devices[0].entities[0].entity_id.as_str(),
        "light.thread_demo"
    );
}

#[test]
fn validates_device_id() {
    assert!(DeviceId::new("esp32c6-thread-demo").is_ok());
    assert!(matches!(
        DeviceId::new("bad id"),
        Err(DeviceIdError::Invalid(_))
    ));
}

#[test]
fn registry_upserts_devices() {
    let id = DeviceId::new("device.kitchen_light").unwrap();
    let mut registry = DeviceRegistry::default();
    registry.upsert(Device::new(id.clone(), "Kitchen Light"));

    assert_eq!(registry.len(), 1);
    assert_eq!(registry.get(&id).unwrap().display_name, "Kitchen Light");
}

#[test]
fn entity_id_requires_domain() {
    assert!(EntityId::new("light.kitchen").is_ok());
    assert!(matches!(
        EntityId::new("kitchen"),
        Err(EntityIdError::MissingDomain(_))
    ));
}

#[test]
fn entity_graph_upserts_entities() {
    let mut graph = EntityGraph::default();
    let id = EntityId::new("light.kitchen").unwrap();
    graph.upsert(Entity::new(id.clone(), "Kitchen Light").with_state(EntityState::Off));

    assert_eq!(graph.len(), 1);
    assert_eq!(graph.get(&id).unwrap().display_name, "Kitchen Light");
}

#[test]
fn device_id_is_trimmed_and_checked() {
    assert_eq!(DeviceId::new("  hub-1  ").unwrap().as_str(), "hub-1");
    assert!(matches!(DeviceId::new("   "), Err(DeviceIdError::Empty)));
    assert!(matches!(DeviceId::new(""), Err(DeviceIdError::Empty)));
    match DeviceId::new(" Hub ") {
        Err(DeviceIdError::Invalid(text)) => assert_eq!(text, "Hub"),
        other => panic!("expected invalid id, got {:?}", other),
    }
}

#[test]
fn entity_id_errors_and_domain() {
    let id = EntityId::new(" light.kitchen ").unwrap();
    assert_eq!(id.as_str(), "light.kitchen");
    assert_eq!(id.domain(), "light");
    assert!(matches!(EntityId::new(""), Err(EntityIdError::Empty)));
    assert!(matches!(EntityId::new("light-kitchen"), Err(EntityIdError::Invalid(_))));
    match EntityId::new("Light.Kitchen") {
        Err(EntityIdError::Invalid(text)) => assert_eq!(text, "Light.Kitchen"),
        other => panic!("expected invalid id, got {:?}", other),
    }
}

#[test]
fn registry_upsert_replaces_same_id() {
    let id = DeviceId::new("hub").unwrap();
    let mut registry = DeviceRegistry::default();
    assert!(registry.is_empty());
    registry.upsert(Device::new(id.clone(), "Old"));
    registry.upsert(Device::new(id.clone(), "New"));
    assert_eq!(registry.len(), 1);
    assert_eq!(registry.get(&id).unwrap().display_name, "New");
    let other = DeviceId::new("another").unwrap();
    assert!(registry.get(&other).is_none());
}

#[test]
fn entity_graph_lists_entities_in_id_order() {
    let mut graph = EntityGraph::default();
    for name in ["switch.b", "light.z", "light.a"] {
        graph.upsert(Entity::new(EntityId::new(name).unwrap(), name));
    }
    let ids: Vec<&str> = graph.entities().iter().map(|e| e.id.as_str()).collect();
    assert_eq!(ids, vec!["light.a", "light.z", "switch.b"]);
    assert!(graph.contains(&EntityId::new("light.z").unwrap()));
    assert!(!graph.contains(&EntityId::new("light.q").unwrap()));
}

#[test]
fn registry_length_grows_only_for_new_ids() {
    let mut registry = DeviceRegistry::default();
    let a = DeviceId::new("a").unwrap();
    let b = DeviceId::new("b").unwrap();
    registry.upsert(Device::new(a.clone(), "A"));
    assert_eq!(registry.len(), 1);
    registry.upsert(Device::new(a.clone(), "A again"));
    assert_eq!(registry.len(), 1);
    registry.upsert(Device::new(b.clone(), "B"));
    assert_eq!(registry.len(), 2);
    assert_eq!(registry.get(&a).unwrap().display_name, "A again");
}

#[test]
fn identifiers_and_capabilities_are_listed_in_order() {
    let device = Device::new(DeviceId::new("hub").unwrap(), "Hub")
        .with_identifier("zigbee:2")
        .with_identifier("matter:1")
        .with_identifier("zigbee:2")
        .with_identifier("ble:9");
    assert_eq!(device.identifiers, vec!["ble:9", "matter:1", "zigbee:2"]);

    let entity = Entity::new(EntityId::new("light.desk").unwrap(), "Desk")
        .with_capability(Capability::Color)
        .with_capability(Capability::Power)
        .with_capability(Capability::Brightness)
        .with_capability(Capability::Power);
    assert_eq!(
        entity.capabilities.as_slice(),
        &[Capability::Power, Capability::Brightness, Capability::Color]
    );
}
