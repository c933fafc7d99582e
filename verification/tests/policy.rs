use genie_home_core::automation::{Automation, AutomationTrigger};
use genie_home_core::command::{CommandOrigin, HomeAction, HomeActionKind, HomeCommand, TargetSelector};
use genie_home_core::entity::{Capability, Entity, EntityGraph, EntityId, EntityState, SafetyClass};
use genie_home_core::runtime::demo_runtime;
use genie_home_core::safety::{SafetyPolicy, SafetyReason, evaluate_command};
use genie_home_core::scene::Scene;
use genie_home_core::json::JsonValue;
use genie_home_core::service::{
    DomainSupportLevel, ServiceCall, ServiceCallError, ServiceTarget, domain_support_matrix,
    service_call_to_commands, service_specs,
};
use genie_home_core::validation::{ValidationSeverity, validate_runtime};

fn graph_with(entity: Entity) -> EntityGraph {
    let mut graph = EntityGraph::default();
    graph.upsert(entity);
    graph
}

fn front_door_graph(id: &EntityId) -> EntityGraph {
    graph_with(
        Entity::new(id.clone(), "Front Door")
            .with_state(EntityState::Locked)
            .with_capability(Capability::Lock),
    )
}

fn unlock(origin: CommandOrigin, id: EntityId) -> HomeCommand {
    HomeCommand::new(
        origin,
        HomeAction { target: TargetSelector::exact(id), kind: HomeActionKind::Unlock, value: None },
    )
}

fn call(domain: &str, service: &str, id: EntityId, confirmed: bool) -> ServiceCall {
    ServiceCall {
        domain: domain.into(),
        service: service.into(),
        target: ServiceTarget { entity_ids: vec![id] },
        data: JsonValue::Null,
        origin: CommandOrigin::LocalApi,
        confirmed,
    }
}

#[test]
fn allows_normal_light_action() {
    let id = EntityId::new("light.kitchen").unwrap();
    let graph = graph_with(
        Entity::new(id.clone(), "Kitchen Light")
            .with_state(EntityState::Off)
            .with_capability(Capability::Power),
    );
    let command = HomeCommand::new(
        CommandOrigin::Voice,
        HomeAction { target: TargetSelector::exact(id), kind: HomeActionKind::TurnOn, value: None },
    );

    assert!(evaluate_command(&graph, &command, &SafetyPolicy::default()).allowed);
}

#[test]
fn requires_confirmation_for_voice_unlock() {
    let id = EntityId::new("lock.front_door").unwrap();
    let graph = front_door_graph(&id);
    let command = unlock(CommandOrigin::Voice, id);

    let decision = evaluate_command(&graph, &command, &SafetyPolicy::default());
    assert!(!decision.allowed);
    assert!(decision.requires_confirmation);
}

#[test]
fn requires_confirmation_for_automation_unlock() {
    let id = EntityId::new("lock.front_door").unwrap();
    let graph = front_door_graph(&id);
    let command = unlock(CommandOrigin::Automation, id);

    let decision = evaluate_command(&graph, &command, &SafetyPolicy::default());
    assert!(!decision.allowed);
    assert!(decision.requires_confirmation);
}

#[test]
fn requires_confirmation_for_alarm_disarm() {
    let id = EntityId::new("alarm_control_panel.home").unwrap();
    let graph = graph_with(
        Entity::new(id.clone(), "Home Alarm")
            .with_state(EntityState::Text("armed".into()))
            .with_capability(Capability::AlarmControl)
            .with_safety_class(SafetyClass::Sensitive),
    );
    let command = HomeCommand::new(
        CommandOrigin::Agent,
        HomeAction { target: TargetSelector::exact(id), kind: HomeActionKind::Disarm, value: None },
    );

    let decision = evaluate_command(&graph, &command, &SafetyPolicy::default());
    assert!(!decision.allowed);
    assert!(decision.requires_confirmation);
}

#[test]
fn confirmed_indirect_sensitive_action_requires_scoped_approval() {
    let id = EntityId::new("lock.front_door").unwrap();
    let graph = front_door_graph(&id);
    let command = unlock(CommandOrigin::LocalApi, id).confirmed();

    let decision = evaluate_command(&graph, &command, &SafetyPolicy::default());
    assert!(!decision.allowed);
    assert_eq!(decision.reason, SafetyReason::ApprovalRequired);
}

#[test]
fn scoped_approval_allows_indirect_sensitive_action() {
    let id = EntityId::new("lock.front_door").unwrap();
    let graph = front_door_graph(&id);
    let command = unlock(CommandOrigin::LocalApi, id).approved("approval-1", "dashboard");

    let decision = evaluate_command(&graph, &command, &SafetyPolicy::default());
    assert!(decision.allowed);
}

#[test]
fn mismatched_scoped_approval_is_rejected() {
    let id = EntityId::new("lock.front_door").unwrap();
    let other = EntityId::new("lock.back_door").unwrap();
    let graph = front_door_graph(&id);
    let mut command = unlock(CommandOrigin::LocalApi, id).approved("approval-1", "dashboard");
    command.approval.as_mut().unwrap().entity_id = other;

    let decision = evaluate_command(&graph, &command, &SafetyPolicy::default());
    assert!(!decision.allowed);
    assert_eq!(decision.reason, SafetyReason::ApprovalRequired);
}

#[test]
fn blocks_low_confidence_target() {
    let id = EntityId::new("light.kitchen").unwrap();
    let graph = graph_with(
        Entity::new(id.clone(), "Kitchen Light")
            .with_state(EntityState::Off)
            .with_capability(Capability::Power),
    );
    let command = HomeCommand::new(
        CommandOrigin::Agent,
        HomeAction {
            target: TargetSelector { entity_id: id, confidence: 0.4f32.to_bits() },
            kind: HomeActionKind::TurnOn,
            value: None,
        },
    );

    assert_eq!(
        evaluate_command(&graph, &command, &SafetyPolicy::default()).reason,
        SafetyReason::LowTargetConfidence
    );
}

#[test]
fn blocks_unknown_and_unavailable_targets() {
    let id = EntityId::new("light.kitchen").unwrap();
    let empty = EntityGraph::default();
    let command = HomeCommand::new(
        CommandOrigin::Dashboard,
        HomeAction { target: TargetSelector::exact(id.clone()), kind: HomeActionKind::TurnOn, value: None },
    );
    let decision = evaluate_command(&empty, &command, &SafetyPolicy::default());
    assert!(!decision.allowed);
    assert!(!decision.requires_confirmation);

    let graph = graph_with(Entity::new(id.clone(), "Kitchen Light").with_state(EntityState::Unavailable));
    let decision = evaluate_command(&graph, &command, &SafetyPolicy::default());
    assert!(!decision.allowed);
    assert_eq!(decision.reason, SafetyReason::TargetUnavailable);
}

#[test]
fn direct_confirmed_unlock_is_allowed() {
    let id = EntityId::new("lock.front_door").unwrap();
    let graph = front_door_graph(&id);
    let command = unlock(CommandOrigin::Dashboard, id);
    assert!(evaluate_command(&graph, &command, &SafetyPolicy::default()).allowed);
}

#[test]
fn translates_light_service_to_command() {
    let id = EntityId::new("light.kitchen").unwrap();
    let mut graph = EntityGraph::default();
    graph.upsert(
        Entity::new(id.clone(), "Kitchen Light")
            .with_state(EntityState::Off)
            .with_capability(Capability::Power),
    );
    let commands = service_call_to_commands(&graph, &call("light", "turn_on", id, false)).unwrap();

    assert_eq!(commands.len(), 1);
    assert_eq!(commands[0].action.kind, HomeActionKind::TurnOn);
}

#[test]
fn rejects_domain_mismatch() {
    let id = EntityId::new("lock.front_door").unwrap();
    let mut graph = EntityGraph::default();
    graph.upsert(Entity::new(id.clone(), "Front Door").with_state(EntityState::Locked));

    assert!(matches!(
        service_call_to_commands(&graph, &call("light", "turn_on", id, false)),
        Err(ServiceCallError::TargetDomainMismatch { .. })
    ));
}

#[test]
fn domain_matrix_reports_supported_and_planned_domains() {
    let matrix = domain_support_matrix();
    let light = matrix.iter().find(|domain| domain.domain == "light").unwrap();
    let alarm = matrix.iter().find(|domain| domain.domain == "alarm_control_panel").unwrap();

    assert_eq!(light.support_level, DomainSupportLevel::SafetyGatedActuation);
    assert!(light.services.contains(&"turn_on".into()));
    assert_eq!(alarm.support_level, DomainSupportLevel::SafetyGatedActuation);
    assert!(alarm.services.contains(&"alarm_disarm".into()));
}

#[test]
fn translates_media_and_vacuum_services() {
    let media_id = EntityId::new("media_player.living_room").unwrap();
    let vacuum_id = EntityId::new("vacuum.robot").unwrap();
    let mut graph = EntityGraph::default();
    graph.upsert(
        Entity::new(media_id.clone(), "Living Room Media")
            .with_state(EntityState::Off)
            .with_capability(Capability::Power)
            .with_capability(Capability::MediaPlayback),
    );
    graph.upsert(
        Entity::new(vacuum_id.clone(), "Robot Vacuum")
            .with_state(EntityState::Off)
            .with_capability(Capability::VacuumControl),
    );

    let media = service_call_to_commands(&graph, &call("media_player", "media_play", media_id, false)).unwrap();
    let vacuum = service_call_to_commands(&graph, &call("vacuum", "return_to_base", vacuum_id, true)).unwrap();

    assert_eq!(media[0].action.kind, HomeActionKind::Start);
    assert_eq!(vacuum[0].action.kind, HomeActionKind::ReturnToBase);
}

#[test]
fn every_advertised_service_translates() {
    let specs = service_specs();
    assert!(!specs.is_empty());
    for spec in specs.iter() {
        let Some(kind) = spec.action_kind else { continue };
        let id = EntityId::new(&format!("{}.thing", spec.domain)).unwrap();
        let graph = graph_with(Entity::new(id.clone(), "Thing").with_state(EntityState::Off));
        let commands = service_call_to_commands(&graph, &call(&spec.domain, &spec.service, id, true)).unwrap();
        assert_eq!(commands.len(), 1);
        assert_eq!(commands[0].action.kind, kind);
        assert!(commands[0].confirmed);
    }
}

#[test]
fn sensor_domain_is_read_only() {
    let matrix = domain_support_matrix();
    let sensor = matrix.iter().find(|domain| domain.domain == "sensor").unwrap();
    assert_eq!(sensor.support_level, DomainSupportLevel::ReadOnlyViaEntityState);
    assert!(sensor.services.is_empty());
    let domains: Vec<&str> = matrix.iter().map(|d| d.domain.as_str()).collect();
    let mut sorted = domains.clone();
    sorted.sort();
    assert_eq!(domains, sorted);
}

#[test]
fn demo_runtime_validates_cleanly() {
    let runtime = demo_runtime();
    let report = validate_runtime(&runtime);

    assert!(report.ok);
    assert!(report.issues.is_empty());
}

#[test]
fn reports_invalid_automation_time() {
    let mut runtime = demo_runtime();
    runtime.upsert_automation(Automation::new(
        "automation.bad",
        "Bad",
        AutomationTrigger::TimeOfDay { hh_mm: "99:99".into() },
    ));

    let report = validate_runtime(&runtime);

    assert!(!report.ok);
    assert!(report.issues.iter().any(|issue| issue.code == "automation_invalid_time"));
}

#[test]
fn reports_missing_scene_action_target() {
    let mut runtime = demo_runtime();
    let missing = EntityId::new("light.missing").unwrap();
    let scene_id = EntityId::new("scene.movie_night").unwrap();
    runtime.upsert_scene(Scene::new(scene_id, "Broken").with_action(HomeAction {
        target: TargetSelector::exact(missing),
        kind: HomeActionKind::TurnOn,
        value: None,
    }));

    let report = validate_runtime(&runtime);

    assert!(!report.ok);
    assert!(report.issues.iter().any(|issue| issue.code == "scene_action_target_missing"));
}

#[test]
fn empty_automation_is_only_a_warning() {
    let mut runtime = demo_runtime();
    runtime.upsert_automation(Automation::new(
        "automation.idle",
        "Idle",
        AutomationTrigger::TimeOfDay { hh_mm: "06:30".into() },
    ));
    let report = validate_runtime(&runtime);
    assert!(report.ok);
    assert_eq!(report.issues.len(), 1);
    assert_eq!(report.issues[0].severity, ValidationSeverity::Warning);
    assert_eq!(report.issues[0].code, "automation_empty");
    assert_eq!(report.issues[0].message, "automation automation.idle has no actions");
}

#[test]
fn scene_without_backing_entity_is_an_error() {
    let mut runtime = demo_runtime();
    let scene_id = EntityId::new("scene.ghost").unwrap();
    runtime.upsert_scene(Scene::new(scene_id, "Ghost"));
    let report = validate_runtime(&runtime);
    assert!(!report.ok);
    let issue = report.issues.iter().find(|i| i.code == "scene_entity_missing").unwrap();
    assert_eq!(issue.message, "scene scene.ghost has no backing scene entity");
}

#[test]
fn critical_targets_need_confirmation_and_scoped_approval() {
    let id = EntityId::new("switch.main_breaker").unwrap();
    let graph = graph_with(
        Entity::new(id.clone(), "Main Breaker")
            .with_state(EntityState::On)
            .with_capability(Capability::Power)
            .with_safety_class(SafetyClass::Critical),
    );
    let off = || HomeCommand::new(
        CommandOrigin::Dashboard,
        HomeAction { target: TargetSelector::exact(id.clone()), kind: HomeActionKind::TurnOff, value: None },
    );
    let policy = SafetyPolicy::default();

    let decision = evaluate_command(&graph, &off(), &policy);
    assert_eq!(decision.reason, SafetyReason::CriticalActionBlocked);
    assert!(!decision.requires_confirmation);

    let decision = evaluate_command(&graph, &off().confirmed(), &policy);
    assert_eq!(decision.reason, SafetyReason::ApprovalRequired);

    let decision = evaluate_command(&graph, &off().approved("token-9", "owner"), &policy);
    assert!(decision.allowed);
    assert_eq!(decision.reason, SafetyReason::Allowed);
}

#[test]
fn missing_capability_is_refused() {
    let id = EntityId::new("light.kitchen").unwrap();
    let graph = graph_with(Entity::new(id.clone(), "Kitchen Light").with_state(EntityState::Off));
    let command = HomeCommand::new(
        CommandOrigin::Dashboard,
        HomeAction { target: TargetSelector::exact(id), kind: HomeActionKind::Lock, value: None },
    );
    let decision = evaluate_command(&graph, &command, &SafetyPolicy::default());
    assert_eq!(decision.reason, SafetyReason::UnsupportedCapability);
    assert_eq!(decision.message, "target does not expose the required capability");
}

#[test]
fn domain_matrix_has_twelve_rows_with_one_note_each() {
    let matrix = domain_support_matrix();
    assert_eq!(matrix.len(), 12);
    assert!(matrix.iter().all(|d| d.notes.len() == 1));
    let specs = service_specs();
    for (i, a) in specs.iter().enumerate() {
        for b in specs.iter().skip(i + 1) {
            assert!(!(a.domain == b.domain && a.service == b.service));
        }
        assert!(a.action_kind.is_some());
    }
}
