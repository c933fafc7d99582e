use genie_home_core::connectivity::ConnectivityProtocol;
use genie_home_core::entity::{EntityState, SafetyClass};
use genie_home_core::json::{AttributeMap, JsonMember, JsonValue};
use genie_home_core::keyed::KeyedList;
use genie_home_core::migration::{
    HomeAssistantEntityRecord, MigrationCompatibility, build_home_assistant_import_plan,
    build_home_assistant_migration_report, entities_payload,
};

fn attrs(pairs: &[(&str, &str)]) -> AttributeMap {
    let mut map = KeyedList::new();
    for (k, v) in pairs {
        map.upsert(JsonMember { key: (*k).into(), value: JsonValue::Text((*v).into()) });
    }
    map
}

fn record(entity_id: &str, state: Option<&str>, pairs: &[(&str, &str)]) -> HomeAssistantEntityRecord {
    HomeAssistantEntityRecord {
        entity_id: entity_id.into(),
        state: state.map(Into::into),
        name: None,
        attributes: attrs(pairs),
    }
}

#[test]
fn parses_home_assistant_states_array() {
    let records = vec![
        record("light.kitchen", Some("off"), &[("friendly_name", "Kitchen Light")]),
        record("lock.front_door", Some("locked"), &[]),
    ];
    let report = build_home_assistant_migration_report(records);

    assert_eq!(report.counts.total, 2);
    assert_eq!(report.counts.mappable, 2);
    assert_eq!(report.candidates[0].display_name, "Kitchen Light");
    assert_eq!(report.candidates[1].safety_class, SafetyClass::Sensitive);
}

#[test]
fn unsupported_domains_are_reported_not_imported() {
    let records = vec![HomeAssistantEntityRecord {
        entity_id: "vacuum.robot".into(),
        state: Some("docked".into()),
        name: None,
        attributes: KeyedList::new(),
    }];

    let report = build_home_assistant_migration_report(records);

    assert_eq!(report.counts.unsupported, 1);
    assert_eq!(report.candidates[0].compatibility, MigrationCompatibility::Unsupported);
}

#[test]
fn builds_import_plan_for_mappable_entities() {
    let records = vec![
        record(
            "light.kitchen",
            Some("on"),
            &[
                ("friendly_name", "Kitchen Light"),
                ("device_id", "abc123"),
                ("area_id", "kitchen"),
                ("genie_protocol", "thread"),
                ("manufacturer", "GeniePod"),
                ("model", "Mock Lamp"),
            ],
        ),
        record("vacuum.robot", Some("docked"), &[]),
    ];
    let plan = build_home_assistant_import_plan(records);

    assert_eq!(plan.report.source, "home_assistant_migration");
    assert_eq!(plan.report.devices.len(), 1);
    assert_eq!(plan.report.devices[0].stable_id, "abc123");
    assert_eq!(plan.report.devices[0].protocol, ConnectivityProtocol::Thread);
    assert_eq!(plan.report.devices[0].manufacturer.as_deref(), Some("GeniePod"));
    assert_eq!(plan.report.devices[0].model.as_deref(), Some("Mock Lamp"));
    assert_eq!(plan.report.devices[0].entities[0].area.as_deref(), Some("kitchen"));
    assert_eq!(plan.skipped.len(), 1);
}

#[test]
fn import_plan_defaults_and_sanitizes() {
    let plan = build_home_assistant_import_plan(vec![
        record("switch.Desk Lamp", Some("on"), &[]),
        record("switch.desk", Some("on"), &[("device_id", "Hub #7"), ("protocol", " Z-Wave ")]),
        record("fan.attic", Some("off"), &[]),
    ]);
    // An id that Genie cannot hold is skipped as unsupported.
    assert_eq!(plan.skipped.len(), 1);
    assert_eq!(plan.skipped[0].compatibility, MigrationCompatibility::Unsupported);
    assert_eq!(plan.skipped[0].notes.last().unwrap(), "entity id is not valid for Genie");

    assert_eq!(plan.report.devices.len(), 2);
    let desk = &plan.report.devices[0];
    assert_eq!(desk.stable_id, "hub--7");
    assert_eq!(desk.protocol, ConnectivityProtocol::ZWave);
    assert_eq!(desk.manufacturer.as_deref(), Some("Home Assistant Migration"));
    assert_eq!(desk.model.as_deref(), Some("switch"));
    let attic = &plan.report.devices[1];
    assert_eq!(attic.stable_id, "ha-fan.attic");
    assert_eq!(attic.protocol, ConnectivityProtocol::Matter);
    assert_eq!(attic.entities[0].area, None);
}

#[test]
fn report_counts_every_compatibility() {
    let report = build_home_assistant_migration_report(vec![
        record("scene.evening", None, &[]),
        record("climate.hall", Some("21.5"), &[]),
        record("sensor.temp", Some("21.5"), &[]),
        record("binary_sensor.door", Some("open"), &[]),
        record("weird", Some("whatever"), &[]),
    ]);
    assert_eq!(report.source, "home_assistant");
    assert_eq!(report.counts.total, 5);
    assert_eq!(report.counts.manual_review, 2);
    assert_eq!(report.counts.mappable, 2);
    assert_eq!(report.counts.unsupported, 1);
    assert_eq!(report.candidates[0].initial_state, EntityState::Unknown);
    assert_eq!(report.candidates[1].safety_class, SafetyClass::Sensitive);
    assert_eq!(report.candidates[2].initial_state, EntityState::Numeric("21.5".into()));
    assert_eq!(report.candidates[3].initial_state, EntityState::Open);
    assert_eq!(report.candidates[4].domain, "");
    assert_eq!(report.candidates[4].display_name, "weird");
    assert_eq!(report.candidates[4].initial_state, EntityState::Text("whatever".into()));
}

#[test]
fn name_wins_over_friendly_name() {
    let mut r = record("light.a", Some("closing"), &[("friendly_name", "Friendly")]);
    r.name = Some("Named".into());
    let report = build_home_assistant_migration_report(vec![r]);
    assert_eq!(report.candidates[0].display_name, "Named");
    assert_eq!(report.candidates[0].initial_state, EntityState::Closed);
}

#[test]
fn entities_payload_selects_array_or_entities_member() {
    let array = JsonValue::Array(vec![JsonValue::Null]);
    assert!(matches!(entities_payload(array), Ok(JsonValue::Array(items)) if items.len() == 1));

    let object = JsonValue::Object(vec![JsonMember {
        key: "entities".into(),
        value: JsonValue::Array(vec![]),
    }]);
    assert!(matches!(entities_payload(object), Ok(JsonValue::Array(items)) if items.is_empty()));

    let missing = JsonValue::Object(vec![]);
    assert_eq!(
        entities_payload(missing).unwrap_err(),
        "expected an array or an object with an entities array"
    );
    assert!(entities_payload(JsonValue::Bool(true)).is_err());
}

#[test]
fn planned_domains_map_only_when_a_genie_adapter_reported_them() {
    let report = build_home_assistant_migration_report(vec![
        record("media_player.tv", Some("off"), &[("genie_protocol", "wifi")]),
        record("vacuum.robot", Some("docked"), &[("genie_protocol", "matter")]),
        record("alarm_control_panel.home", Some("disarmed"), &[("genie_protocol", "matter")]),
        record("vacuum.other", Some("docked"), &[]),
    ]);
    assert_eq!(report.counts.mappable, 3);
    assert_eq!(report.counts.unsupported, 1);
    assert_eq!(report.candidates[0].safety_class, SafetyClass::Normal);
    assert!(report.candidates[0].notes.is_empty());
    assert_eq!(report.candidates[1].safety_class, SafetyClass::Sensitive);
    assert_eq!(report.candidates[2].safety_class, SafetyClass::Sensitive);
    assert_eq!(report.candidates[2].initial_state, EntityState::Text("disarmed".into()));
    assert_eq!(report.candidates[3].safety_class, SafetyClass::Normal);
    assert_eq!(
        report.candidates[3].notes,
        vec!["domain is not mapped by the initial Genie compatibility table".to_string()]
    );
}
