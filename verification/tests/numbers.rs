use genie_home_core::connectivity::{EntityStateUpdate, StateReport};
use genie_home_core::entity::{Capability, Entity, EntityId, EntityState};
use genie_home_core::event::RuntimeEventKind;
use genie_home_core::keyed::KeyedList;
use genie_home_core::number::same_number_text;
use genie_home_core::runtime::HomeRuntime;

#[test]
fn readings_compare_by_value() {
    assert!(same_number_text("21.5", "21.50"));
    assert!(same_number_text("+21.5", "021.5"));
    assert!(same_number_text("0.075", ".0750"));
    assert!(same_number_text("0", "-0.000"));
    assert!(same_number_text("10", "10."));
    assert!(!same_number_text("10", "1"));
    assert!(!same_number_text("-21.5", "21.5"));
    assert!(!same_number_text("1.05", "10.5"));
    assert!(same_number_text("inf", "+Infinity"));
    assert!(!same_number_text("inf", "-inf"));
    assert!(!same_number_text("NaN", "NaN"));
    assert!(same_number_text("1e3", "1e3"));
    assert!(!same_number_text("1e3", "1000"));
}

fn report(id: &EntityId, reading: &str) -> StateReport {
    StateReport {
        source: "sensor-bus".into(),
        updates: vec![EntityStateUpdate {
            entity_id: id.clone(),
            state: EntityState::Numeric(reading.into()),
            attributes: KeyedList::new(),
        }],
    }
}

#[test]
fn same_reading_in_other_text_is_no_state_change() {
    let id = EntityId::new("sensor.temp").unwrap();
    let mut runtime = HomeRuntime::with_default_policy();
    runtime.upsert_entity(
        Entity::new(id.clone(), "Temp")
            .with_state(EntityState::Numeric("21.5".into()))
            .with_capability(Capability::SensorRead),
    );
    runtime.apply_state_report(report(&id, "21.50"));
    assert!(!runtime.events().iter().any(|e| matches!(e.kind, RuntimeEventKind::StateChanged { .. })));
    assert_eq!(runtime.graph().get(&id).unwrap().state, EntityState::Numeric("21.50".into()));
    runtime.apply_state_report(report(&id, "21.6"));
    assert!(runtime.events().iter().any(|e| matches!(e.kind, RuntimeEventKind::StateChanged { .. })));
}
