use genie_home_core::connectivity::ConnectivityProtocol;
use genie_home_core::entity::{EntityId, EntityState};
use genie_home_core::ha_port::{mock_hardware_to_home_assistant_states, run_mock_home_assistant_port};
use genie_home_core::hardware::{
    HardwareAdapterState, HardwareCapability, HardwareSupportLevel, default_hardware_inventory,
};
use genie_home_core::json::{AttributeMap, JsonValue};
use genie_home_core::mcp::default_mcp_surface;
use genie_home_core::mock_hardware::{
    HardwareInterface, MockHardwareBus, MockHardwareFault, mock_turn_on_thread_lamp_command,
    run_mock_hardware_fault_scenario,
};
use genie_home_core::protocol::{RuntimeRequest, RuntimeResponse};
use genie_home_core::runtime::HomeRuntime;

fn attr<'a>(attrs: &'a AttributeMap, key: &str) -> &'a JsonValue {
    &attrs.get(key).unwrap().value
}

fn is_text(v: &JsonValue, expected: &str) -> bool {
    matches!(v, JsonValue::Text(t) if t == expected)
}

fn is_number(v: &JsonValue, expected: &str) -> bool {
    matches!(v, JsonValue::Number(t) if t == expected)
}

#[test]
fn mock_hardware_generates_home_assistant_states() {
    let hardware = MockHardwareBus::reference_home();
    let states = mock_hardware_to_home_assistant_states(&hardware);

    assert_eq!(states.len(), 7);
    assert!(states.iter().any(|state| {
        state.entity_id == "light.mock_thread_lamp"
            && is_text(attr(&state.attributes, "genie_protocol"), "thread")
    }));
    assert!(states.iter().any(|state| {
        state.entity_id == "lock.mock_front_door"
            && is_text(attr(&state.attributes, "genie_protocol"), "matter")
    }));
}

#[test]
fn mock_home_assistant_port_imports_all_mappable_devices() {
    let result = run_mock_home_assistant_port();

    assert_eq!(result.migration_report.counts.total, 7);
    assert_eq!(result.migration_report.counts.mappable, 7);
    assert_eq!(result.import_plan.skipped.len(), 0);
    assert_eq!(result.import_plan.report.devices.len(), 7);
    assert_eq!(result.runtime_status.entity_count, 7);
    assert_eq!(result.runtime_status.device_count, 7);
    assert!(result.validation.ok);
    assert!(result.import_plan.report.devices.iter().any(|device| {
        device.stable_id == "mock-thread-lamp-1" && device.protocol == ConnectivityProtocol::Thread
    }));
}

#[test]
fn inventory_exposes_esp32c6_boundary_and_thread_requirement() {
    let inventory = default_hardware_inventory();
    let esp32c6 = inventory
        .adapters
        .iter()
        .find(|adapter| adapter.protocol == ConnectivityProtocol::Esp32C6)
        .unwrap();
    let thread = inventory
        .adapters
        .iter()
        .find(|adapter| adapter.protocol == ConnectivityProtocol::Thread)
        .unwrap();

    assert_eq!(esp32c6.state, HardwareAdapterState::BoundaryReady);
    assert_eq!(esp32c6.support_level, HardwareSupportLevel::RuntimeBoundary);
    assert_eq!(thread.state, HardwareAdapterState::RequiresGenieOs);
    assert_eq!(thread.support_level, HardwareSupportLevel::RequiresGenieOsDriver);
    assert!(thread.capabilities.contains(&HardwareCapability::BorderRouter));
}

#[test]
fn radio_protocols_do_not_claim_runtime_driver_support() {
    let inventory = default_hardware_inventory();
    for protocol in [
        ConnectivityProtocol::Matter,
        ConnectivityProtocol::Thread,
        ConnectivityProtocol::Zigbee,
        ConnectivityProtocol::ZWave,
        ConnectivityProtocol::Ble,
    ] {
        let adapter = inventory
            .adapters
            .iter()
            .find(|adapter| adapter.protocol == protocol)
            .unwrap();
        assert_eq!(adapter.support_level, HardwareSupportLevel::RequiresGenieOsDriver);
    }
}

#[test]
fn inventory_lists_each_protocol_once_with_sorted_capabilities() {
    let inventory = default_hardware_inventory();
    assert_eq!(inventory.adapters.len(), 8);
    let uart = &inventory.adapters[0];
    assert_eq!(uart.protocol, ConnectivityProtocol::Uart);
    assert_eq!(
        uart.capabilities,
        vec![
            HardwareCapability::HostTransport,
            HardwareCapability::DiscoveryReport,
            HardwareCapability::StateEvents,
            HardwareCapability::ActuationReport,
        ]
    );
    let wifi = &inventory.adapters[7];
    assert_eq!(wifi.protocol, ConnectivityProtocol::Wifi);
    assert_eq!(
        wifi.capabilities,
        vec![
            HardwareCapability::HostTransport,
            HardwareCapability::DiscoveryReport,
            HardwareCapability::NetworkBackhaul,
        ]
    );
    assert_eq!(wifi.notes.len(), 1);
}

#[test]
fn default_surface_exposes_safety_first_tools() {
    let surface = default_mcp_surface();

    assert!(surface.tools.iter().any(|tool| tool.name == "home.evaluate"));
    assert!(surface.tools.iter().any(|tool| tool.name == "home.execute"));
    assert!(surface
        .resources
        .iter()
        .any(|resource| resource.uri == "genie-home://audit/recent"));
}

#[test]
fn surface_names_runtime_and_lists_tools_in_order() {
    let surface = default_mcp_surface();
    assert_eq!(surface.name, "genie-home-runtime");
    assert_eq!(surface.version, "0.1.0-alpha.0");
    let names: Vec<&str> = surface.tools.iter().map(|t| t.name.as_str()).collect();
    assert_eq!(
        names,
        vec![
            "home.status",
            "home.list_entities",
            "home.list_scenes",
            "home.evaluate",
            "home.execute",
            "home.audit",
            "home.apply_connectivity_report",
        ]
    );
    assert_eq!(surface.resources.len(), 4);
    assert!(surface.resources.iter().all(|r| r.mime_type == "application/json"));
}

#[test]
fn reference_home_discovers_multiple_protocols() {
    let hardware = MockHardwareBus::reference_home();
    let report = hardware.discovery_report();

    assert_eq!(report.devices.len(), 7);
    assert!(report.devices.iter().any(|device| device.protocol == ConnectivityProtocol::Thread));
    assert!(report.devices.iter().any(|device| device.protocol == ConnectivityProtocol::Matter));
}

#[test]
fn mock_command_changes_device_state_report() {
    let mut hardware = MockHardwareBus::reference_home();
    let result = hardware.apply_command(&mock_turn_on_thread_lamp_command());

    assert!(result.accepted);
    let report = result.state_report.unwrap();
    assert_eq!(report.updates.len(), 1);
    assert_eq!(report.updates[0].state, EntityState::On);
    assert!(is_text(attr(&report.updates[0].attributes, "protocol"), "thread"));
}

#[test]
fn offline_mock_device_rejects_command() {
    let mut hardware = MockHardwareBus::reference_home();
    let id = EntityId::new("light.mock_thread_lamp").unwrap();
    hardware.set_online(&id, false).unwrap();

    let result = hardware.apply_command(&mock_turn_on_thread_lamp_command());

    assert!(!result.accepted);
    assert!(result.message.contains("offline"));
    assert_eq!(result.state_report.unwrap().updates[0].state, EntityState::Unavailable);
}

#[test]
fn faults_can_adjust_latency_and_radio_state() {
    let mut hardware = MockHardwareBus::reference_home();
    let id = EntityId::new("light.mock_thread_lamp").unwrap();
    let latency_fault = hardware.apply_fault(MockHardwareFault::AddCommandLatency { latency_ms: 250 });
    let radio_fault = hardware.apply_fault(MockHardwareFault::SetRadio {
        entity_id: id.clone(),
        rssi_dbm: -92,
        link_quality: 7,
    });

    assert!(latency_fault.applied);
    assert!(radio_fault.applied);
    let report = radio_fault.state_report.unwrap();
    assert!(is_number(attr(&report.updates[0].attributes, "rssi_dbm"), "-92"));
    assert!(is_number(attr(&report.updates[0].attributes, "link_quality"), "7"));

    let result = hardware.apply_command(&mock_turn_on_thread_lamp_command());
    assert_eq!(result.latency_ms, 285);
}

#[test]
fn fault_scenario_blocks_command_before_hardware_actuation() {
    let scenario = run_mock_hardware_fault_scenario();

    assert!(scenario.offline_fault.applied);
    assert_eq!(scenario.offline_state_apply_result.unwrap().entities_updated, 1);
    assert!(!scenario.safety_decision.allowed);
    assert!(scenario.hardware_command_result.is_none());
    assert!(scenario.recovery_online_fault.applied);
    assert!(scenario.recovery_state_fault.applied);
}

#[test]
fn runtime_can_ingest_mock_discovery_and_state() {
    let mut hardware = MockHardwareBus::reference_home();
    let mut runtime = HomeRuntime::with_default_policy();
    runtime.apply_connectivity_report(hardware.discovery_report());
    runtime.apply_state_report(hardware.poll_state());

    let command = mock_turn_on_thread_lamp_command();
    let decision = runtime.execute(command.clone());
    assert!(decision.allowed);

    let hardware_result = hardware.apply_command(&command);
    assert!(hardware_result.accepted);
    let response = runtime.handle_request(RuntimeRequest::ApplyStateReport {
        report: hardware_result.state_report.unwrap(),
    });

    let RuntimeResponse::StateApplied { result } = response else {
        panic!("expected state apply response");
    };
    assert_eq!(result.entities_updated, 1);
    assert_eq!(
        runtime
            .graph()
            .get(&EntityId::new("light.mock_thread_lamp").unwrap())
            .unwrap()
            .state,
        EntityState::On
    );
}

#[test]
fn unknown_device_fault_is_not_applied() {
    let mut hardware = MockHardwareBus::reference_home();
    let id = EntityId::new("light.nowhere").unwrap();
    let fault = hardware.apply_fault(MockHardwareFault::SetOnline { entity_id: id.clone(), online: false });
    assert!(!fault.applied);
    assert!(fault.state_report.is_none());
    assert!(hardware.set_state(&id, EntityState::On).is_none());
}

#[test]
fn radio_quality_is_capped_and_battery_reported() {
    let mut hardware = MockHardwareBus::reference_home();
    let id = EntityId::new("light.mock_thread_lamp").unwrap();
    let report = hardware.set_radio(&id, -40, 250).unwrap();
    assert!(is_number(attr(&report.updates[0].attributes, "link_quality"), "100"));
    assert!(is_number(attr(&report.updates[0].attributes, "rssi_dbm"), "-40"));
}

#[test]
fn fault_scenario_reports_its_faults() {
    let scenario = run_mock_hardware_fault_scenario();
    assert!(matches!(scenario.latency_fault.fault, MockHardwareFault::AddCommandLatency { latency_ms: 250 }));
    assert!(matches!(
        scenario.radio_fault.fault,
        MockHardwareFault::SetRadio { rssi_dbm: -91, link_quality: 8, .. }
    ));
    let report = scenario.radio_fault.state_report.unwrap();
    assert!(is_number(attr(&report.updates[0].attributes, "rssi_dbm"), "-91"));
    assert!(is_number(attr(&report.updates[0].attributes, "link_quality"), "8"));
    assert_eq!(scenario.offline_fault.state_report.unwrap().updates[0].state, EntityState::Unavailable);
}

#[test]
fn fault_scenario_reports_discovery_and_first_poll() {
    let scenario = run_mock_hardware_fault_scenario();
    assert_eq!(scenario.discovery_apply_result.devices_seen, 7);
    assert_eq!(scenario.discovery_apply_result.entities_upserted, 7);
    assert_eq!(scenario.initial_state_apply_result.updates_seen, 7);
    assert_eq!(scenario.initial_state_apply_result.entities_updated, 7);
    assert!(scenario.initial_state_apply_result.unknown_entities.is_empty());
    assert_eq!(scenario.radio_fault.message, "mock radio fault applied");
    let report = scenario.recovery_state_fault.state_report.unwrap();
    assert!(is_number(attr(&report.updates[0].attributes, "mock_sequence"), "5"));
}
