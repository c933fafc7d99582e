use genie_home_core::automation::{Automation, AutomationTrigger};
use genie_home_core::command::{CommandOrigin, HomeAction, HomeActionKind, HomeCommand, TargetSelector};
use genie_home_core::connectivity::{ConnectivityProtocol, ConnectivityReport, EntityStateUpdate, StateReport};
use genie_home_core::entity::{Capability, Entity, EntityId, EntityState};
use genie_home_core::event::RuntimeEventKind;
use genie_home_core::hardware::HardwareSupportLevel;
use genie_home_core::json::JsonValue;
use genie_home_core::keyed::KeyedList;
use genie_home_core::protocol::{ConfigResource, RuntimeRequest, RuntimeResponse};
use genie_home_core::runtime::{AuditEntry, HomeRuntime, demo_runtime, demo_turn_on_kitchen_command};
use genie_home_core::safety::SafetyReason;
use genie_home_core::scene::Scene;
use genie_home_core::service::{ServiceCall, ServiceCallError, ServiceTarget};

fn action(id: &EntityId, kind: HomeActionKind) -> HomeAction {
    HomeAction { target: TargetSelector::exact(id.clone()), kind, value: None }
}

fn service_call(domain: &str, service: &str, ids: Vec<EntityId>) -> ServiceCall {
    ServiceCall {
        domain: domain.into(),
        service: service.into(),
        target: ServiceTarget { entity_ids: ids },
        data: JsonValue::Null,
        origin: CommandOrigin::LocalApi,
        confirmed: false,
    }
}

#[test]
fn executes_allowed_action_and_records_audit() {
    let id = EntityId::new("light.kitchen").unwrap();
    let mut runtime = HomeRuntime::with_default_policy();
    runtime.upsert_entity(
        Entity::new(id.clone(), "Kitchen Light")
            .with_state(EntityState::Off)
            .with_capability(Capability::Power),
    );
    let decision = runtime.execute(HomeCommand::new(
        CommandOrigin::Dashboard,
        HomeAction { target: TargetSelector::exact(id.clone()), kind: HomeActionKind::TurnOn, value: None },
    ));

    assert!(decision.allowed);
    assert_eq!(runtime.audit().len(), 1);
    assert_eq!(runtime.graph().get(&id).unwrap().state, EntityState::On);
}

#[test]
fn handle_evaluate_request_does_not_mutate_state() {
    let id = EntityId::new("light.kitchen").unwrap();
    let mut runtime = demo_runtime();
    let response = runtime.handle_request(RuntimeRequest::Evaluate { command: demo_turn_on_kitchen_command() });

    let RuntimeResponse::Command { result } = response else {
        panic!("expected command response");
    };
    assert!(result.decision.allowed);
    assert!(!result.executed);
    assert_eq!(runtime.audit().len(), 0);
    assert_eq!(runtime.graph().get(&id).unwrap().state, EntityState::Off);
}

#[test]
fn handle_execute_request_mutates_state_and_audits() {
    let id = EntityId::new("light.kitchen").unwrap();
    let mut runtime = demo_runtime();
    let response = runtime.handle_request(RuntimeRequest::Execute { command: demo_turn_on_kitchen_command() });

    let RuntimeResponse::Command { result } = response else {
        panic!("expected command response");
    };
    assert!(result.executed);
    assert_eq!(runtime.audit().len(), 1);
    assert_eq!(runtime.graph().get(&id).unwrap().state, EntityState::On);
}

#[test]
fn handle_audit_request_returns_recent_entries() {
    let mut runtime = demo_runtime();
    runtime.execute(demo_turn_on_kitchen_command());
    let response = runtime.handle_request(RuntimeRequest::Audit { limit: Some(5) });

    let RuntimeResponse::Audit { entries } = response else {
        panic!("expected audit response");
    };
    assert_eq!(entries.len(), 1);
    assert!(entries[0].decision.allowed);
}

#[test]
fn handle_hardware_inventory_request_is_truthful_about_radio_drivers() {
    let mut runtime = demo_runtime();
    let response = runtime.handle_request(RuntimeRequest::HardwareInventory);

    let RuntimeResponse::HardwareInventory { inventory } = response else {
        panic!("expected hardware inventory response");
    };
    let thread = inventory
        .adapters
        .iter()
        .find(|adapter| adapter.protocol == ConnectivityProtocol::Thread)
        .unwrap();
    assert_eq!(thread.support_level, HardwareSupportLevel::RequiresGenieOsDriver);
}

#[test]
fn handle_domain_request_reports_service_coverage() {
    let mut runtime = demo_runtime();
    let response = runtime.handle_request(RuntimeRequest::ListDomains);

    let RuntimeResponse::Domains { domains } = response else {
        panic!("expected domain response");
    };
    assert!(domains.iter().any(|domain| domain.domain == "light"));
    assert!(domains.iter().any(|domain| domain.domain == "sensor"));
}

#[test]
fn upsert_scene_request_creates_backing_scene_entity() {
    let mut runtime = demo_runtime();
    let scene_id = EntityId::new("scene.bedtime").unwrap();
    let target = EntityId::new("light.kitchen").unwrap();
    let scene = Scene::new(scene_id.clone(), "Bedtime").with_action(HomeAction {
        target: TargetSelector::exact(target),
        kind: HomeActionKind::TurnOff,
        value: None,
    });

    let response = runtime.handle_request(RuntimeRequest::UpsertScene { scene });

    let RuntimeResponse::ConfigChanged { result } = response else {
        panic!("expected config response");
    };
    assert!(result.changed);
    assert!(result.validation.unwrap().ok);
    assert!(runtime.scenes().iter().any(|scene| scene.id == scene_id));
    assert!(runtime
        .graph()
        .get(&scene_id)
        .unwrap()
        .capabilities
        .contains(&Capability::SceneActivation));
}

#[test]
fn upsert_automation_request_rejects_missing_target() {
    let mut runtime = demo_runtime();
    let automation = Automation::new(
        "automation.bad_target",
        "Bad Target",
        AutomationTrigger::TimeOfDay { hh_mm: "07:00".into() },
    )
    .with_action(HomeAction {
        target: TargetSelector::exact(EntityId::new("light.missing").unwrap()),
        kind: HomeActionKind::TurnOn,
        value: None,
    });

    let response = runtime.handle_request(RuntimeRequest::UpsertAutomation { automation });

    let RuntimeResponse::ConfigChanged { result } = response else {
        panic!("expected config response");
    };
    assert!(!result.changed);
    assert!(!result.validation.unwrap().ok);
    assert!(!runtime.automations().iter().any(|automation| automation.id == "automation.bad_target"));
}

#[test]
fn delete_automation_request_removes_existing_definition() {
    let mut runtime = demo_runtime();
    let response = runtime.handle_request(RuntimeRequest::DeleteAutomation {
        automation_id: "automation.kitchen_lights_out".into(),
    });

    let RuntimeResponse::ConfigChanged { result } = response else {
        panic!("expected config response");
    };
    assert!(result.changed);
    assert!(!runtime
        .automations()
        .iter()
        .any(|automation| automation.id == "automation.kitchen_lights_out"));
}

#[test]
fn restores_persisted_audit_entries_without_replaying_actions() {
    let id = EntityId::new("light.kitchen").unwrap();
    let mut first = demo_runtime();
    first.execute(demo_turn_on_kitchen_command());

    let mut second = demo_runtime();
    let entries: Vec<AuditEntry> = first.audit().to_vec();
    second.restore_audit_entries(entries);

    assert_eq!(second.audit().len(), 1);
    assert_eq!(second.graph().get(&id).unwrap().state, EntityState::Off);
}

#[test]
fn applies_connectivity_report_to_entity_graph() {
    let mut runtime = HomeRuntime::with_default_policy();
    let report = ConnectivityReport::esp32c6_thread_demo().unwrap();
    let response = runtime.handle_request(RuntimeRequest::ApplyConnectivityReport { report });

    let RuntimeResponse::ConnectivityApplied { result } = response else {
        panic!("expected connectivity apply response");
    };
    assert_eq!(result.devices_seen, 1);
    assert_eq!(result.entities_upserted, 1);
    assert!(runtime.graph().contains(&EntityId::new("light.thread_demo").unwrap()));
    assert_eq!(runtime.devices().iter().count(), 1);
    assert!(runtime
        .graph()
        .get(&EntityId::new("light.thread_demo").unwrap())
        .unwrap()
        .device_id
        .is_some());
}

#[test]
fn applies_state_report_to_existing_entities_only() {
    let mut runtime = demo_runtime();
    let kitchen = EntityId::new("light.kitchen").unwrap();
    let missing = EntityId::new("light.missing").unwrap();
    let report = StateReport {
        source: "genie-os-test".into(),
        updates: vec![
            EntityStateUpdate { entity_id: kitchen.clone(), state: EntityState::On, attributes: KeyedList::new() },
            EntityStateUpdate { entity_id: missing.clone(), state: EntityState::On, attributes: KeyedList::new() },
        ],
    };

    let response = runtime.handle_request(RuntimeRequest::ApplyStateReport { report });

    let RuntimeResponse::StateApplied { result } = response else {
        panic!("expected state apply response");
    };
    assert_eq!(result.updates_seen, 2);
    assert_eq!(result.entities_updated, 1);
    assert_eq!(result.unknown_entities, vec![missing]);
    assert_eq!(runtime.graph().get(&kitchen).unwrap().state, EntityState::On);
}

#[test]
fn list_devices_returns_registered_devices() {
    let mut runtime = demo_runtime();
    let response = runtime.handle_request(RuntimeRequest::ListDevices);

    let RuntimeResponse::Devices { devices } = response else {
        panic!("expected devices response");
    };
    assert_eq!(devices.len(), 2);
}

#[test]
fn scene_activation_applies_registered_actions() {
    let id = EntityId::new("light.kitchen").unwrap();
    let mut runtime = demo_runtime();
    let scene_id = EntityId::new("scene.movie_night").unwrap();
    let decision = runtime.execute(HomeCommand::new(
        CommandOrigin::Dashboard,
        HomeAction { target: TargetSelector::exact(scene_id), kind: HomeActionKind::ActivateScene, value: None },
    ));

    assert!(decision.allowed);
    assert_eq!(runtime.graph().get(&id).unwrap().state, EntityState::On);
}

#[test]
fn scene_activation_does_not_bypass_nested_safety() {
    let lock_id = EntityId::new("lock.front_door").unwrap();
    let scene_id = EntityId::new("scene.unlock_home").unwrap();
    let mut runtime = demo_runtime();
    runtime.upsert_entity(
        Entity::new(scene_id.clone(), "Unsafe Unlock Scene")
            .with_state(EntityState::Off)
            .with_capability(Capability::SceneActivation),
    );
    runtime.upsert_scene(
        Scene::new(scene_id.clone(), "Unsafe Unlock Scene").with_action(action(&lock_id, HomeActionKind::Unlock)),
    );

    let decision = runtime.execute(HomeCommand::new(
        CommandOrigin::Voice,
        HomeAction { target: TargetSelector::exact(scene_id), kind: HomeActionKind::ActivateScene, value: None },
    ));

    assert_eq!(decision.reason, SafetyReason::SceneActionBlocked);
    assert_eq!(runtime.graph().get(&lock_id).unwrap().state, EntityState::Locked);
}

#[test]
fn automation_tick_executes_matching_time_trigger() {
    let id = EntityId::new("light.kitchen").unwrap();
    let mut runtime = demo_runtime();
    runtime.execute(demo_turn_on_kitchen_command());

    let result = runtime.run_automation_tick("23:00".into());

    assert_eq!(result.automations_checked, 1);
    assert_eq!(result.automations_triggered, 1);
    assert_eq!(result.actions_executed, 1);
    assert_eq!(runtime.graph().get(&id).unwrap().state, EntityState::Off);
}

#[test]
fn automation_tick_blocks_group_before_mutation() {
    let light_id = EntityId::new("light.kitchen").unwrap();
    let lock_id = EntityId::new("lock.front_door").unwrap();
    let mut runtime = demo_runtime();
    runtime.upsert_automation(
        Automation::new("automation.unsafe", "Unsafe Automation", AutomationTrigger::TimeOfDay { hh_mm: "12:00".into() })
            .with_action(action(&light_id, HomeActionKind::TurnOn))
            .with_action(action(&lock_id, HomeActionKind::Unlock)),
    );

    let result = runtime.run_automation_tick("12:00".into());

    assert_eq!(result.blocked.len(), 1);
    assert_eq!(runtime.graph().get(&light_id).unwrap().state, EntityState::Off);
    assert_eq!(runtime.graph().get(&lock_id).unwrap().state, EntityState::Locked);
}

#[test]
fn service_call_executes_supported_domain_service() {
    let id = EntityId::new("light.kitchen").unwrap();
    let mut runtime = demo_runtime();
    let result = runtime.call_service(service_call("light", "turn_on", vec![id.clone()])).unwrap();

    assert_eq!(result.executed, 1);
    assert_eq!(runtime.graph().get(&id).unwrap().state, EntityState::On);
    assert!(runtime
        .events()
        .iter()
        .any(|event| matches!(event.kind, RuntimeEventKind::ServiceCalled { .. })));
}

#[test]
fn service_call_prevents_partial_multi_target_execution() {
    let light_id = EntityId::new("light.kitchen").unwrap();
    let lock_id = EntityId::new("lock.front_door").unwrap();
    let mut runtime = demo_runtime();
    let result = runtime.call_service(service_call("lock", "unlock", vec![lock_id.clone()])).unwrap();

    assert_eq!(result.executed, 0);
    assert!(!result.results[0].decision.allowed);
    assert_eq!(runtime.graph().get(&light_id).unwrap().state, EntityState::Off);
    assert_eq!(runtime.graph().get(&lock_id).unwrap().state, EntityState::Locked);
}

#[test]
fn state_changes_are_emitted_as_runtime_events() {
    let mut runtime = demo_runtime();
    runtime.execute(demo_turn_on_kitchen_command());

    assert!(runtime.events().iter().any(|event| {
        matches!(
            &event.kind,
            RuntimeEventKind::StateChanged {
                entity_id,
                old_state: EntityState::Off,
                new_state: EntityState::On,
                origin: CommandOrigin::Voice,
            } if entity_id.as_str() == "light.kitchen"
        )
    }));
}

#[test]
fn event_request_returns_recent_events() {
    let mut runtime = demo_runtime();
    runtime.execute(demo_turn_on_kitchen_command());

    let response = runtime.handle_request(RuntimeRequest::Events { limit: Some(10) });

    let RuntimeResponse::Events { events } = response else {
        panic!("expected events response");
    };
    assert_eq!(events.len(), 1);
}

#[test]
fn service_call_errors_change_nothing() {
    let mut runtime = demo_runtime();
    let light = EntityId::new("light.kitchen").unwrap();
    let lock = EntityId::new("lock.front_door").unwrap();
    let ghost = EntityId::new("light.ghost").unwrap();

    let err = runtime.call_service(service_call("light", "explode", vec![light.clone()])).unwrap_err();
    assert!(matches!(err, ServiceCallError::UnsupportedService { .. }));
    let err = runtime.call_service(service_call("light", "turn_on", vec![])).unwrap_err();
    assert!(matches!(err, ServiceCallError::EmptyTarget));
    let err = runtime.call_service(service_call("light", "turn_on", vec![lock.clone()])).unwrap_err();
    assert!(matches!(err, ServiceCallError::TargetDomainMismatch { .. }));
    let err = runtime.call_service(service_call("light", "turn_on", vec![ghost])).unwrap_err();
    assert!(matches!(err, ServiceCallError::UnknownTarget { .. }));

    assert_eq!(runtime.graph().get(&light).unwrap().state, EntityState::Off);
    assert_eq!(runtime.audit().len(), 0);
    assert_eq!(runtime.events().len(), 0);
}

#[test]
fn blocked_multi_target_call_executes_none() {
    let mut runtime = demo_runtime();
    let light = EntityId::new("light.kitchen").unwrap();
    runtime.upsert_entity(
        Entity::new(EntityId::new("light.dim").unwrap(), "Dim")
            .with_state(EntityState::Unavailable)
            .with_capability(Capability::Power),
    );
    let result = runtime
        .call_service(service_call("light", "turn_on", vec![light.clone(), EntityId::new("light.dim").unwrap()]))
        .unwrap();
    assert_eq!(result.targets, 2);
    assert_eq!(result.executed, 0);
    assert_eq!(runtime.graph().get(&light).unwrap().state, EntityState::Off);
}

#[test]
fn recent_audit_returns_last_entries_in_order() {
    let mut runtime = demo_runtime();
    for _ in 0..3 {
        runtime.execute(demo_turn_on_kitchen_command());
    }
    let response = runtime.handle_request(RuntimeRequest::Audit { limit: Some(2) });
    let RuntimeResponse::Audit { entries } = response else {
        panic!("expected audit response");
    };
    assert_eq!(entries.len(), 2);
    let response = runtime.handle_request(RuntimeRequest::Audit { limit: None });
    let RuntimeResponse::Audit { entries } = response else {
        panic!("expected audit response");
    };
    assert_eq!(entries.len(), 3);
}

#[test]
fn delete_missing_scene_changes_nothing() {
    let mut runtime = demo_runtime();
    let scenes_before = runtime.scenes().len();
    let response = runtime.handle_request(RuntimeRequest::DeleteScene {
        scene_id: EntityId::new("scene.nothing_here").unwrap(),
    });
    let RuntimeResponse::ConfigChanged { result } = response else {
        panic!("expected config response");
    };
    assert_eq!(result.resource, ConfigResource::Scene);
    assert!(!result.changed);
    assert!(result.validation.is_none());
    assert_eq!(runtime.scenes().len(), scenes_before);
}

#[test]
fn delete_existing_scene_removes_backing_entity() {
    let mut runtime = demo_runtime();
    let scene_id = EntityId::new("scene.movie_night").unwrap();
    let response = runtime.handle_request(RuntimeRequest::DeleteScene { scene_id: scene_id.clone() });
    let RuntimeResponse::ConfigChanged { result } = response else {
        panic!("expected config response");
    };
    assert!(result.changed);
    assert!(!runtime.scenes().iter().any(|s| s.id == scene_id));
}

#[test]
fn status_counts_match_demo() {
    let mut runtime = demo_runtime();
    let response = runtime.handle_request(RuntimeRequest::Status);
    let RuntimeResponse::Status { status } = response else {
        panic!("expected status response");
    };
    assert_eq!(status.device_count, 2);
    assert_eq!(status.audit_count, 0);
    assert_eq!(status.automation_count, 1);
    assert_eq!(status.scene_count, runtime.scenes().len());
    assert_eq!(status.entity_count, runtime.graph().len());
}

#[test]
fn evaluate_predicts_execution_of_scene_with_blocked_action() {
    let lock_id = EntityId::new("lock.front_door").unwrap();
    let scene_id = EntityId::new("scene.movie_night").unwrap();
    let mut runtime = demo_runtime();
    runtime.upsert_scene(Scene::new(scene_id.clone(), "Movie Night").with_action(action(&lock_id, HomeActionKind::Unlock)));
    let command = HomeCommand::new(
        CommandOrigin::Voice,
        HomeAction { target: TargetSelector::exact(scene_id), kind: HomeActionKind::ActivateScene, value: None },
    );

    let evaluated = runtime.evaluate(&command);
    assert!(!evaluated.allowed);
    assert_eq!(evaluated.reason, SafetyReason::SceneActionBlocked);

    let response = runtime.handle_request(RuntimeRequest::Evaluate { command: command.duplicate() });
    let RuntimeResponse::Command { result } = response else {
        panic!("expected command response");
    };
    assert_eq!(result.decision.reason, SafetyReason::SceneActionBlocked);
    assert_eq!(runtime.audit().len(), 0);

    let executed = runtime.execute(command);
    assert_eq!(executed.reason, evaluated.reason);
    assert_eq!(executed.message, evaluated.message);
    assert_eq!(runtime.graph().get(&lock_id).unwrap().state, EntityState::Locked);
}
