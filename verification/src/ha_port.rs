//! Porting the simulated home through the Home Assistant migration path.

use vstd::prelude::*;
use crate::connectivity::{file_report_devices, file_report_entities, protocol_name, protocol_text};
use crate::device::{Device, DeviceView, device_views};
use crate::entity::{Entity, EntityState, EntityView, StateView, entity_views};
use crate::json::{AttributeMap, JsonMember, JsonValue, JsonView};
use crate::keyed::{Keyed, KeyedList};
use crate::migration::{
    HomeAssistantEntityRecord, MigrationImportPlan, MigrationReport, RecordView, build_home_assistant_import_plan,
    build_home_assistant_migration_report, candidate_view, copy_records, lemma_plan_views, plan_of,
};
use crate::mock_hardware::{HardwareInterface, MockEntityView, MockHardwareBus, MockIoTEntity, reference_home_entities};
use crate::runtime::{HomeRuntime, RuntimeStatus};
use crate::text::{decimal_string, decimal_text, signed_string, signed_text};
use crate::validation::{ValidationReport, has_error, issue_views, runtime_issues, validate_runtime};

verus! {

/// What porting the simulated home produced at each step.
#[derive(Debug, Clone)]
pub struct MockHomeAssistantPortResult {
    pub source: String,
    pub ha_states: Vec<HomeAssistantEntityRecord>,
    pub migration_report: MigrationReport,
    pub import_plan: MigrationImportPlan,
    pub runtime_status: RuntimeStatus,
    pub validation: ValidationReport,
}

/// The Home Assistant text of a state.
pub open spec fn state_name(s: StateView) -> Seq<char> {
    match s {
        StateView::Unknown => "unknown"@,
        StateView::Unavailable => "unavailable"@,
        StateView::Off => "off"@,
        StateView::On => "on"@,
        StateView::Locked => "locked"@,
        StateView::Unlocked => "unlocked"@,
        StateView::Open => "open"@,
        StateView::Closed => "closed"@,
        StateView::Numeric(t) => t,
        StateView::Text(t) => t,
    }
}

fn state_name_text(s: &EntityState) -> (r: String)
    ensures
        r@ == state_name(s@),
{
    match s {
        EntityState::Unknown => String::from_str("unknown"),
        EntityState::Unavailable => String::from_str("unavailable"),
        EntityState::Off => String::from_str("off"),
        EntityState::On => String::from_str("on"),
        EntityState::Locked => String::from_str("locked"),
        EntityState::Unlocked => String::from_str("unlocked"),
        EntityState::Open => String::from_str("open"),
        EntityState::Closed => String::from_str("closed"),
        EntityState::Numeric(t) => t.clone(),
        EntityState::Text(t) => t.clone(),
    }
}

/// The Home Assistant record a simulated device appears as: its name, device,
/// maker, model, protocol, link and, when it has them, its area and battery.
pub open spec fn mock_record_view(e: MockEntityView) -> RecordView {
    let base = Map::<Seq<char>, JsonView>::empty().insert("friendly_name"@, JsonView::Text(e.display_name)).insert(
        "device_id"@,
        JsonView::Text(e.stable_id),
    ).insert("manufacturer"@, JsonView::Text(e.manufacturer)).insert("model"@, JsonView::Text(e.model)).insert(
        "genie_protocol"@,
        JsonView::Text(protocol_name(e.protocol)),
    ).insert("online"@, JsonView::Bool(e.online)).insert(
        "rssi_dbm"@,
        JsonView::Number(signed_text(e.rssi_dbm as int)),
    ).insert("link_quality"@, JsonView::Number(decimal_text(e.link_quality as nat)));
    let with_area = match e.area {
        Some(a) => base.insert("area_id"@, JsonView::Text(a)),
        None => base,
    };
    RecordView {
        entity_id: e.entity_id,
        state: Some(state_name(e.state)),
        name: Some(e.display_name),
        attributes: match e.battery_percent {
            Some(b) => with_area.insert("battery_percent"@, JsonView::Number(decimal_text(b as nat))),
            None => with_area,
        },
    }
}

fn member(key: &str, value: JsonValue) -> (r: JsonMember)
    ensures
        r.key@ == key@,
        r.value@ == value@,
{
    JsonMember { key: String::from_str(key), value }
}

fn put(attributes: &mut AttributeMap, key: &str, value: JsonValue)
    ensures
        crate::entity::attribute_views(final(attributes)@) == crate::entity::attribute_views(old(attributes)@).insert(
            key@,
            value@,
        ),
{
    let m = member(key, value);
    attributes.upsert(m);
    assert(crate::entity::attribute_views(attributes@) =~= crate::entity::attribute_views(old(attributes)@).insert(
        key@,
        m.value@,
    ));
}

fn mock_entity_to_home_assistant_record(entity: &MockIoTEntity) -> (r: HomeAssistantEntityRecord)
    ensures
        r@ == mock_record_view(entity@),
{
    let mut attributes: AttributeMap = KeyedList::new();
    proof {
        assert(crate::entity::attribute_views(attributes@) =~= Map::<Seq<char>, JsonView>::empty());
    }
    put(&mut attributes, "friendly_name", JsonValue::Text(entity.display_name.clone()));
    put(&mut attributes, "device_id", JsonValue::Text(entity.stable_id.clone()));
    put(&mut attributes, "manufacturer", JsonValue::Text(entity.manufacturer.clone()));
    put(&mut attributes, "model", JsonValue::Text(entity.model.clone()));
    put(&mut attributes, "genie_protocol", JsonValue::Text(String::from_str(protocol_text(entity.protocol))));
    put(&mut attributes, "online", JsonValue::Bool(entity.online));
    put(&mut attributes, "rssi_dbm", JsonValue::Number(signed_string(entity.rssi_dbm)));
    put(&mut attributes, "link_quality", JsonValue::Number(decimal_string(entity.link_quality as u64)));
    match &entity.area {
        Some(area) => put(&mut attributes, "area_id", JsonValue::Text(area.clone())),
        None => {},
    }
    match entity.battery_percent {
        Some(b) => put(&mut attributes, "battery_percent", JsonValue::Number(decimal_string(b as u64))),
        None => {},
    }
    HomeAssistantEntityRecord {
        entity_id: String::from_str(entity.entity_id.as_str()),
        state: Some(state_name_text(&entity.state)),
        name: Some(entity.display_name.clone()),
        attributes,
    }
}

/// The Home Assistant records of every simulated device, in entity-id order.
pub fn mock_hardware_to_home_assistant_states(hardware: &MockHardwareBus) -> (r: Vec<HomeAssistantEntityRecord>)
    ensures
        r@.map_values(|x: HomeAssistantEntityRecord| x@) == hardware.entity_seq().map_values(
            |e: MockIoTEntity| mock_record_view(e@),
        ),
{
    let items = hardware.entities();
    let ghost want = items@.map_values(|e: MockIoTEntity| mock_record_view(e@));
    let mut out: Vec<HomeAssistantEntityRecord> = Vec::new();
    let mut i: usize = 0;
    while i < items.len()
        invariant
            i <= items@.len(),
            want == items@.map_values(|e: MockIoTEntity| mock_record_view(e@)),
            out@.map_values(|x: HomeAssistantEntityRecord| x@) == want.take(i as int),
        decreases items@.len() - i,
    {
        let rec = mock_entity_to_home_assistant_record(&items[i]);
        let ghost before = out@;
        out.push(rec);
        proof {
            assert(out@.map_values(|x: HomeAssistantEntityRecord| x@) =~= before.map_values(
                |x: HomeAssistantEntityRecord| x@,
            ).push(rec@));
            assert(out@.map_values(|x: HomeAssistantEntityRecord| x@) =~= want.take(i + 1));
        }
        i = i + 1;
    }
    proof {
        assert(want.take(i as int) =~= want);
    }
    out
}

/// The runtime a fresh default runtime becomes after applying `devices`, with its status and validation.
pub open spec fn imported_runtime(
    rt: HomeRuntime,
    devices: Seq<crate::connectivity::ConnectivityDevice>,
    status: RuntimeStatus,
    validation: ValidationReport,
) -> bool {
    &&& entity_views(rt.entities()) == file_report_entities(Map::<Seq<char>, EntityView>::empty(), devices)
    &&& device_views(rt.device_registry()@) == file_report_devices(Map::<Seq<char>, DeviceView>::empty(), devices)
    &&& rt.policy_spec() == crate::safety::default_policy()
    &&& rt.scene_list()@ == Map::<Seq<char>, crate::scene::Scene>::empty()
    &&& rt.automation_list()@ == Map::<Seq<char>, crate::automation::Automation>::empty()
    &&& rt.status_is(status)
    &&& issue_views(validation.issues@) == runtime_issues(rt)
    &&& validation.ok == !has_error(runtime_issues(rt))
}

/// `rec` is the record of one of `devices`.
pub open spec fn record_of_some_device(rec: RecordView, devices: Map<Seq<char>, MockEntityView>) -> bool {
    exists|k: Seq<char>| #![trigger devices[k]] devices.contains_key(k) && rec == mock_record_view(devices[k])
}

/// One of `records` is the record of `device`.
pub open spec fn has_record_of(records: Seq<HomeAssistantEntityRecord>, device: MockEntityView) -> bool {
    exists|i: int| #![trigger records[i]] 0 <= i < records.len() && records[i]@ == mock_record_view(device)
}

/// Every record is the record of one of `devices`, and every one of them has one.
pub open spec fn records_of_devices(records: Seq<HomeAssistantEntityRecord>, devices: Map<Seq<char>, MockEntityView>) -> bool {
    &&& forall|i: int| 0 <= i < records.len() ==> record_of_some_device(#[trigger] records[i]@, devices)
    &&& forall|k: Seq<char>| devices.contains_key(k) ==> has_record_of(records, #[trigger] devices[k])
}

fn reference_home_records(hardware: &MockHardwareBus) -> (r: Vec<HomeAssistantEntityRecord>)
    requires
        hardware@.entities == reference_home_entities(),
    ensures
        records_of_devices(r@, reference_home_entities()),
{
    let ha_states = mock_hardware_to_home_assistant_states(hardware);
    let listed = hardware.entities();
    proof {
        let s = listed@;
        let views = ha_states@.map_values(|x: HomeAssistantEntityRecord| x@);
        let want = s.map_values(|e: MockIoTEntity| mock_record_view(e@));
        assert(views == want);
        assert(views.len() == ha_states@.len());
        assert(want.len() == s.len());
        let recs = ha_states@;
        let devices = reference_home_entities();
        assert forall|i: int| 0 <= i < recs.len() implies record_of_some_device(#[trigger] recs[i]@, devices) by {
            crate::keyed::lemma_key_index_unique(s, i);
            assert(views[i] == recs[i]@);
            assert(want[i] == mock_record_view(s[i]@));
            assert(devices.contains_key(s[i].key()));
            assert(devices[s[i].key()] == s[i]@);
        }
        assert forall|k: Seq<char>| devices.contains_key(k) implies has_record_of(recs, #[trigger] devices[k]) by {
            let j = choose|j: int| 0 <= j < s.len() && #[trigger] s[j].key() == k;
            crate::keyed::lemma_key_index_unique(s, j);
            assert(views[j] == recs[j]@);
            assert(want[j] == mock_record_view(s[j]@));
        }
        assert(records_of_devices(recs, devices));
    }
    ha_states
}

fn migration_report_of(records: &Vec<HomeAssistantEntityRecord>) -> (r: MigrationReport)
    ensures
        r.candidates@.map_values(|c: crate::migration::MigrationCandidate| c@) == records@.map_values(
            |x: HomeAssistantEntityRecord| candidate_view(x),
        ),
{
    let copies = copy_records(records);
    let r = build_home_assistant_migration_report(copies);
    proof {
        assert forall|i: int| 0 <= i < records@.len() implies candidate_view(copies@[i]) == candidate_view(
            records@[i],
        ) by {
            crate::migration::lemma_record_view_determines(copies@[i], records@[i]);
        }
        assert(copies@.map_values(|x: HomeAssistantEntityRecord| candidate_view(x)) =~= records@.map_values(
            |x: HomeAssistantEntityRecord| candidate_view(x),
        ));
    }
    r
}

fn import_plan_of(records: &Vec<HomeAssistantEntityRecord>) -> (r: MigrationImportPlan)
    ensures
        r.report.devices@.map_values(|d: crate::connectivity::ConnectivityDevice| d@) == plan_of(records@).0,
        r.skipped@.map_values(|c: crate::migration::MigrationCandidate| c@) == plan_of(records@).1,
{
    let copies = copy_records(records);
    proof {
        lemma_plan_views(copies@, records@);
    }
    build_home_assistant_import_plan(copies)
}

fn import_into_fresh_runtime(plan: &MigrationImportPlan, Ghost(records): Ghost<Seq<HomeAssistantEntityRecord>>) -> (r: (
    RuntimeStatus,
    ValidationReport,
))
    requires
        plan.report.devices@.map_values(|d: crate::connectivity::ConnectivityDevice| d@) == plan_of(records).0,
    ensures
        exists|rt: HomeRuntime| #[trigger] imported_runtime(rt, plan.report.devices@, r.0, r.1),
{
    let mut runtime = HomeRuntime::with_default_policy();
    let report = plan.report.duplicate();
    let n = report.devices.len();
    proof {
        crate::connectivity::lemma_report_views(report.devices@, plan.report.devices@);
        crate::migration::lemma_plan_one_entity_each(records);
        let ds = report.devices@;
        let mv = ds.map_values(|d: crate::connectivity::ConnectivityDevice| d@);
        assert(mv == plan_of(records).0);
        assert(ds.len() == mv.len());
        assert forall|i: int| 0 <= i < ds.len() implies (#[trigger] ds[i]).entities@.len() == 1 by {
            assert(mv[i] == ds[i]@);
            assert(ds[i]@.entities.len() == ds[i].entities@.len());
        }
        crate::connectivity::lemma_one_entity_each(ds);
        assert(entity_views(runtime.entities()) =~= Map::<Seq<char>, EntityView>::empty());
        assert(device_views(runtime.device_registry()@) =~= Map::<Seq<char>, DeviceView>::empty());
    }
    let _ = runtime.apply_connectivity_report(report);
    let validation = validate_runtime(&runtime);
    let status = runtime.status();
    let r = (status, validation);
    proof {
        assert(imported_runtime(runtime, plan.report.devices@, r.0, r.1));
    }
    r
}

/// Ports the simulated reference home: its Home Assistant records, the
/// migration report and import plan built from them, and the status and
/// validation of a fresh runtime that applied the plan's report.
#[verifier::rlimit(30)]
pub fn run_mock_home_assistant_port() -> (r: MockHomeAssistantPortResult)
    ensures
        r.source@ == "mock-hardware-reference-home"@,
        records_of_devices(r.ha_states@, reference_home_entities()),
        r.migration_report.candidates@.map_values(|c: crate::migration::MigrationCandidate| c@) == r.ha_states@.map_values(
            |x: HomeAssistantEntityRecord| candidate_view(x),
        ),
        r.import_plan.report.devices@.map_values(|d: crate::connectivity::ConnectivityDevice| d@) == plan_of(
            r.ha_states@,
        ).0,
        r.import_plan.skipped@.map_values(|c: crate::migration::MigrationCandidate| c@) == plan_of(r.ha_states@).1,
        exists|rt: HomeRuntime| #[trigger] imported_runtime(rt, r.import_plan.report.devices@, r.runtime_status, r.validation),
{
    let hardware = MockHardwareBus::reference_home();
    let ha_states = reference_home_records(&hardware);
    let migration_report = migration_report_of(&ha_states);
    let import_plan = import_plan_of(&ha_states);
    let (runtime_status, validation) = import_into_fresh_runtime(&import_plan, Ghost(ha_states@));
    let ghost rt = choose|rt: HomeRuntime|
        #[trigger] imported_runtime(rt, import_plan.report.devices@, runtime_status, validation);
    let r = MockHomeAssistantPortResult {
        source: String::from_str(hardware.source()),
        ha_states,
        migration_report,
        import_plan,
        runtime_status,
        validation,
    };
    proof {
        assert(imported_runtime(rt, r.import_plan.report.devices@, r.runtime_status, r.validation));
    }
    r
}

} // verus!
