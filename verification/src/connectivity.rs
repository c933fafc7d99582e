//! Reports from the connectivity layer: discovered devices and entity state updates.

use vstd::prelude::*;
use crate::device::{DeviceView, all_device_id_chars};
use crate::entity::{
    CapabilitySet, Capability, Entity, EntityId, EntityIdError, EntityState, EntityView, SafetyClass,
    StateView, attribute_views, same_state,
};
use crate::text::trimmed;
use crate::json::AttributeMap;
use crate::keyed::KeyedList;
use crate::command::{CommandOrigin, opt_string_view};
use crate::event::EventView;

verus! {

/// The radio or transport a device was discovered on.
#[derive(Debug, Clone, Copy, PartialEq, Eq, Structural, PartialOrd, Ord)]
pub enum ConnectivityProtocol {
    Matter,
    Thread,
    Zigbee,
    ZWave,
    Ble,
    Wifi,
    Uart,
    Esp32C6,
}

/// An entity as the connectivity layer reports it.
#[derive(Debug, Clone)]
pub struct ConnectivityEntity {
    pub entity_id: EntityId,
    pub display_name: String,
    pub area: Option<String>,
    pub state: EntityState,
    pub capabilities: CapabilitySet,
    pub safety_class: SafetyClass,
}

impl ConnectivityEntity {
    /// The runtime entity for this report: same fields, no device, no attributes.
    pub fn into_entity(self) -> (r: Entity)
        ensures
            r.id == self.entity_id,
            r.display_name == self.display_name,
            r.area == self.area,
            r.device_id is None,
            r.state == self.state,
            r.capabilities == self.capabilities,
            r.safety_class == self.safety_class,
            r.attributes@ == Map::<Seq<char>, crate::json::JsonMember>::empty(),
    {
        Entity {
            id: self.entity_id,
            display_name: self.display_name,
            area: self.area,
            device_id: None,
            state: self.state,
            capabilities: self.capabilities,
            safety_class: self.safety_class,
            attributes: KeyedList::new(),
        }
    }
}

/// The mathematical value of a reported entity.
pub struct ReportedEntityView {
    pub entity_id: Seq<char>,
    pub display_name: Seq<char>,
    pub area: Option<Seq<char>>,
    pub state: StateView,
    pub capabilities: Set<Capability>,
    pub safety_class: SafetyClass,
}

impl View for ConnectivityEntity {
    type V = ReportedEntityView;

    open spec fn view(&self) -> ReportedEntityView {
        ReportedEntityView {
            entity_id: self.entity_id@,
            display_name: self.display_name@,
            area: opt_string_view(self.area),
            state: self.state@,
            capabilities: self.capabilities@,
            safety_class: self.safety_class,
        }
    }
}

/// The mathematical value of a reported device.
pub struct ReportedDeviceView {
    pub stable_id: Seq<char>,
    pub protocol: ConnectivityProtocol,
    pub manufacturer: Option<Seq<char>>,
    pub model: Option<Seq<char>>,
    pub entities: Seq<ReportedEntityView>,
}

impl View for ConnectivityDevice {
    type V = ReportedDeviceView;

    open spec fn view(&self) -> ReportedDeviceView {
        ReportedDeviceView {
            stable_id: self.stable_id@,
            protocol: self.protocol,
            manufacturer: opt_string_view(self.manufacturer),
            model: opt_string_view(self.model),
            entities: self.entities@.map_values(|e: ConnectivityEntity| e@),
        }
    }
}

/// A device as the connectivity layer reports it, with its entities.
#[derive(Debug, Clone)]
pub struct ConnectivityDevice {
    pub stable_id: String,
    pub protocol: ConnectivityProtocol,
    pub manufacturer: Option<String>,
    pub model: Option<String>,
    pub entities: Vec<ConnectivityEntity>,
}

/// A discovery report from one source.
#[derive(Debug, Clone)]
pub struct ConnectivityReport {
    pub source: String,
    pub devices: Vec<ConnectivityDevice>,
}

/// What applying a discovery report did.
#[derive(Debug, Clone, PartialEq, Eq)]
pub struct ConnectivityApplyResult {
    pub source: String,
    pub devices_seen: usize,
    pub entities_upserted: usize,
}

/// A new state for one entity, with attributes to merge.
#[derive(Debug, Clone)]
pub struct EntityStateUpdate {
    pub entity_id: EntityId,
    pub state: EntityState,
    pub attributes: AttributeMap,
}

/// A batch of state updates from one source.
#[derive(Debug, Clone)]
pub struct StateReport {
    pub source: String,
    pub updates: Vec<EntityStateUpdate>,
}

/// What applying a state report did.
#[derive(Debug, Clone)]
pub struct StateApplyResult {
    pub source: String,
    pub updates_seen: usize,
    pub entities_updated: usize,
    pub unknown_entities: Vec<EntityId>,
}

impl ConnectivityReport {
    /// A one-device report: an ESP32-C6 Thread demo light.
    pub fn esp32c6_thread_demo() -> (r: Result<ConnectivityReport, EntityIdError>)
        ensures
            r is Ok,
            r matches Ok(rep) ==> {
                &&& rep.source@ == "genie-os-esp32c6-uart"@
                &&& rep.devices@.len() == 1
                &&& rep.devices@[0].stable_id@ == "esp32c6-thread-demo-light"@
                &&& rep.devices@[0].protocol == ConnectivityProtocol::Thread
                &&& opt_string_view(rep.devices@[0].manufacturer) == Some("GeniePod"@)
                &&& opt_string_view(rep.devices@[0].model) == Some("ESP32-C6 Thread Demo"@)
                &&& rep.devices@[0].entities@.len() == 1
                &&& rep.devices@[0].entities@[0].entity_id@ == "light.thread_demo"@
                &&& rep.devices@[0].entities@[0].display_name@ == "Thread Demo Light"@
                &&& opt_string_view(rep.devices@[0].entities@[0].area) == Some("lab"@)
                &&& rep.devices@[0].entities@[0].state == EntityState::Off
                &&& rep.devices@[0].entities@[0].capabilities@ == set![Capability::Power]
                &&& rep.devices@[0].entities@[0].safety_class == SafetyClass::Normal
            },
    {
        let mut capabilities = CapabilitySet::new();
        capabilities.insert(Capability::Power);
        proof {
            reveal_strlit("light.thread_demo");
            assert("light.thread_demo"@[5] == '.');
        }
        let entity_id = EntityId::from_valid("light.thread_demo");
        let entity = ConnectivityEntity {
            entity_id,
            display_name: String::from_str("Thread Demo Light"),
            area: Some(String::from_str("lab")),
            state: EntityState::Off,
            capabilities,
            safety_class: SafetyClass::Normal,
        };
        let mut entities = Vec::new();
        entities.push(entity);
        let device = ConnectivityDevice {
            stable_id: String::from_str("esp32c6-thread-demo-light"),
            protocol: ConnectivityProtocol::Thread,
            manufacturer: Some(String::from_str("GeniePod")),
            model: Some(String::from_str("ESP32-C6 Thread Demo")),
            entities,
        };
        let mut devices = Vec::new();
        devices.push(device);
        proof {
            assert(set![Capability::Power] =~= Set::<Capability>::empty().insert(Capability::Power));
        }
        Ok(ConnectivityReport { source: String::from_str("genie-os-esp32c6-uart"), devices })
    }
}

/// The device id a reported stable id is filed under: the trimmed stable id
/// when it is a valid device id, `unknown-device` otherwise.
pub open spec fn connectivity_device_id(stable_id: Seq<char>) -> Seq<char> {
    if trimmed(stable_id).len() > 0 && all_device_id_chars(trimmed(stable_id)) {
        trimmed(stable_id)
    } else {
        "unknown-device"@
    }
}

/// The registry entry made for a reported device: named after its model (or its
/// stable id), with its manufacturer and model, and its stable id as identifier.
pub open spec fn reported_device_view(d: ConnectivityDevice) -> DeviceView {
    DeviceView {
        id: connectivity_device_id(d.stable_id@),
        display_name: match d.model {
            Some(m) => m@,
            None => d.stable_id@,
        },
        manufacturer: opt_string_view(d.manufacturer),
        model: opt_string_view(d.model),
        area: None,
        identifiers: set![d.stable_id@],
        connections: Set::empty(),
    }
}

/// The runtime entity made for a reported entity of the device filed under `device`.
pub open spec fn reported_entity_view(e: ConnectivityEntity, device: Seq<char>) -> EntityView {
    EntityView {
        id: e.entity_id@,
        display_name: e.display_name@,
        area: opt_string_view(e.area),
        device_id: Some(device),
        state: e.state@,
        capabilities: e.capabilities@,
        safety_class: e.safety_class,
        attributes: Map::empty(),
    }
}

/// `m` after filing each reported entity of one device, in order.
pub open spec fn file_device_entities(
    m: Map<Seq<char>, EntityView>,
    es: Seq<ConnectivityEntity>,
    device: Seq<char>,
) -> Map<Seq<char>, EntityView>
    decreases es.len(),
{
    if es.len() == 0 {
        m
    } else {
        file_device_entities(m, es.drop_last(), device).insert(
            es.last().entity_id@,
            reported_entity_view(es.last(), device),
        )
    }
}

/// `m` after filing the entities of each reported device, in order.
pub open spec fn file_report_entities(m: Map<Seq<char>, EntityView>, ds: Seq<ConnectivityDevice>) -> Map<
    Seq<char>,
    EntityView,
>
    decreases ds.len(),
{
    if ds.len() == 0 {
        m
    } else {
        file_device_entities(
            file_report_entities(m, ds.drop_last()),
            ds.last().entities@,
            connectivity_device_id(ds.last().stable_id@),
        )
    }
}

/// `m` after filing a registry entry for each reported device, in order.
pub open spec fn file_report_devices(m: Map<Seq<char>, DeviceView>, ds: Seq<ConnectivityDevice>) -> Map<
    Seq<char>,
    DeviceView,
>
    decreases ds.len(),
{
    if ds.len() == 0 {
        m
    } else {
        file_report_devices(m, ds.drop_last()).insert(
            connectivity_device_id(ds.last().stable_id@),
            reported_device_view(ds.last()),
        )
    }
}

/// How many entities the devices report in all.
pub open spec fn reported_entity_count(ds: Seq<ConnectivityDevice>) -> nat
    decreases ds.len(),
{
    if ds.len() == 0 {
        0
    } else {
        reported_entity_count(ds.drop_last()) + ds.last().entities@.len()
    }
}

pub proof fn lemma_reported_count_prefix(ds: Seq<ConnectivityDevice>, i: int)
    requires
        0 <= i <= ds.len(),
    ensures
        reported_entity_count(ds.take(i)) <= reported_entity_count(ds),
    decreases ds.len() - i,
{
    if i < ds.len() {
        lemma_reported_count_prefix(ds, i + 1);
        assert(ds.take(i + 1).drop_last() =~= ds.take(i));
    } else {
        assert(ds.take(i) =~= ds);
    }
}

/// What applying state updates has done so far: the entities, the state-change
/// events, how many entities were updated, and the ids that were not found.
pub struct StateFold {
    pub ents: Map<Seq<char>, EntityView>,
    pub events: Seq<EventView>,
    pub updated: nat,
    pub unknown: Seq<Seq<char>>,
}

/// One update: a known entity takes the new state and merges the attributes
/// (the update's win), with a bridge state-change event when the state differs;
/// an unknown id is noted and changes nothing.
pub open spec fn apply_state_update(f: StateFold, u: EntityStateUpdate) -> StateFold {
    let id = u.entity_id@;
    if f.ents.contains_key(id) {
        let cur = f.ents[id];
        let next = EntityView {
            state: u.state@,
            attributes: cur.attributes.union_prefer_right(attribute_views(u.attributes@)),
            ..cur
        };
        StateFold {
            ents: f.ents.insert(id, next),
            events: if !same_state(cur.state, u.state@) {
                f.events.push(
                    EventView::StateChanged {
                        entity: id,
                        old_state: cur.state,
                        new_state: u.state@,
                        origin: CommandOrigin::Bridge,
                    },
                )
            } else {
                f.events
            },
            updated: f.updated + 1,
            unknown: f.unknown,
        }
    } else {
        StateFold { unknown: f.unknown.push(id), ..f }
    }
}

/// The updates applied in order.
pub open spec fn apply_state_updates(f: StateFold, us: Seq<EntityStateUpdate>) -> StateFold
    decreases us.len(),
{
    if us.len() == 0 {
        f
    } else {
        apply_state_update(apply_state_updates(f, us.drop_last()), us.last())
    }
}

/// Updates that all name known entities update every one of them and note no unknown id.
pub proof fn lemma_all_known(f: StateFold, us: Seq<EntityStateUpdate>)
    requires
        forall|i: int| 0 <= i < us.len() ==> f.ents.contains_key((#[trigger] us[i]).entity_id@),
    ensures
        apply_state_updates(f, us).updated == f.updated + us.len(),
        apply_state_updates(f, us).unknown == f.unknown,
        apply_state_updates(f, us).ents.dom() == f.ents.dom(),
    decreases us.len(),
{
    if us.len() > 0 {
        let p = us.drop_last();
        assert forall|i: int| 0 <= i < p.len() implies f.ents.contains_key((#[trigger] p[i]).entity_id@) by {
            assert(p[i] == us[i]);
        }
        lemma_all_known(f, p);
        let g = apply_state_updates(f, p);
        assert(g.ents.contains_key(us.last().entity_id@));
        assert(apply_state_update(g, us.last()).ents.dom() =~= g.ents.dom());
    }
}

/// The wire name of a protocol.
pub open spec fn protocol_name(p: ConnectivityProtocol) -> Seq<char> {
    match p {
        ConnectivityProtocol::Matter => "matter"@,
        ConnectivityProtocol::Thread => "thread"@,
        ConnectivityProtocol::Zigbee => "zigbee"@,
        ConnectivityProtocol::ZWave => "z_wave"@,
        ConnectivityProtocol::Ble => "ble"@,
        ConnectivityProtocol::Wifi => "wifi"@,
        ConnectivityProtocol::Uart => "uart"@,
        ConnectivityProtocol::Esp32C6 => "esp32_c6"@,
    }
}

/// The wire name of a protocol.
pub fn protocol_text(p: ConnectivityProtocol) -> (r: &'static str)
    ensures
        r@ == protocol_name(p),
{
    match p {
        ConnectivityProtocol::Matter => "matter",
        ConnectivityProtocol::Thread => "thread",
        ConnectivityProtocol::Zigbee => "zigbee",
        ConnectivityProtocol::ZWave => "z_wave",
        ConnectivityProtocol::Ble => "ble",
        ConnectivityProtocol::Wifi => "wifi",
        ConnectivityProtocol::Uart => "uart",
        ConnectivityProtocol::Esp32C6 => "esp32_c6",
    }
}

/// The mathematical value of a state update.
pub struct UpdateView {
    pub entity: Seq<char>,
    pub state: StateView,
    pub attributes: Map<Seq<char>, crate::json::JsonView>,
}

impl View for EntityStateUpdate {
    type V = UpdateView;

    open spec fn view(&self) -> UpdateView {
        UpdateView { entity: self.entity_id@, state: self.state@, attributes: attribute_views(self.attributes@) }
    }
}

/// The mathematical value of a state report.
pub struct StateReportView {
    pub source: Seq<char>,
    pub updates: Seq<UpdateView>,
}

impl View for StateReport {
    type V = StateReportView;

    open spec fn view(&self) -> StateReportView {
        StateReportView { source: self.source@, updates: self.updates@.map_values(|u: EntityStateUpdate| u@) }
    }
}

impl EntityStateUpdate {
    /// A copy of this update.
    pub fn duplicate(&self) -> (r: EntityStateUpdate)
        ensures
            r@ == self@,
    {
        EntityStateUpdate {
            entity_id: self.entity_id.clone(),
            state: self.state.clone(),
            attributes: crate::entity::duplicate_attributes(&self.attributes),
        }
    }
}

impl StateReport {
    /// A copy of this report.
    pub fn duplicate(&self) -> (r: StateReport)
        ensures
            r@ == self@,
    {
        let mut updates: Vec<EntityStateUpdate> = Vec::new();
        let mut i: usize = 0;
        while i < self.updates.len()
            invariant
                i <= self.updates@.len(),
                updates@.map_values(|u: EntityStateUpdate| u@) == self.updates@.map_values(
                    |u: EntityStateUpdate| u@,
                ).take(i as int),
            decreases self.updates@.len() - i,
        {
            let u = self.updates[i].duplicate();
            let ghost before = updates@;
            updates.push(u);
            proof {
                assert(updates@.map_values(|u: EntityStateUpdate| u@) =~= before.map_values(
                    |u: EntityStateUpdate| u@,
                ).push(u@));
                assert(updates@.map_values(|u: EntityStateUpdate| u@) =~= self.updates@.map_values(
                    |u: EntityStateUpdate| u@,
                ).take(i + 1));
            }
            i = i + 1;
        }
        proof {
            assert(self.updates@.map_values(|u: EntityStateUpdate| u@).take(i as int) =~= self.updates@.map_values(
                |u: EntityStateUpdate| u@,
            ));
        }
        StateReport { source: self.source.clone(), updates }
    }
}

/// Filing a device's entities keeps every id already filed and files each of its entities.
pub proof fn lemma_device_entities_filed(m: Map<Seq<char>, EntityView>, es: Seq<ConnectivityEntity>, device: Seq<char>)
    ensures
        forall|k: Seq<char>| m.contains_key(k) ==> #[trigger] file_device_entities(m, es, device).contains_key(k),
        forall|j: int| 0 <= j < es.len() ==> file_device_entities(m, es, device).contains_key(
            (#[trigger] es[j]).entity_id@,
        ),
    decreases es.len(),
{
    if es.len() > 0 {
        lemma_device_entities_filed(m, es.drop_last(), device);
        assert forall|k: Seq<char>| m.contains_key(k) implies #[trigger] file_device_entities(
            m,
            es,
            device,
        ).contains_key(k) by {
            assert(file_device_entities(m, es.drop_last(), device).contains_key(k));
        }
        assert forall|j: int| 0 <= j < es.len() implies file_device_entities(m, es, device).contains_key(
            (#[trigger] es[j]).entity_id@,
        ) by {
            if j < es.len() - 1 {
                assert(es.drop_last()[j] == es[j]);
            }
        }
    }
}

/// Filing a report keeps every id already filed and files every reported entity.
pub proof fn lemma_report_entities_filed(m: Map<Seq<char>, EntityView>, ds: Seq<ConnectivityDevice>)
    ensures
        forall|k: Seq<char>| m.contains_key(k) ==> #[trigger] file_report_entities(m, ds).contains_key(k),
        forall|i: int, j: int|
            0 <= i < ds.len() && 0 <= j < ds[i].entities@.len() ==> file_report_entities(m, ds).contains_key(
                (#[trigger] ds[i].entities@[j]).entity_id@,
            ),
    decreases ds.len(),
{
    if ds.len() > 0 {
        let prev = file_report_entities(m, ds.drop_last());
        lemma_report_entities_filed(m, ds.drop_last());
        lemma_device_entities_filed(prev, ds.last().entities@, connectivity_device_id(ds.last().stable_id@));
        assert forall|k: Seq<char>| m.contains_key(k) implies #[trigger] file_report_entities(m, ds).contains_key(k) by {
            assert(prev.contains_key(k));
        }
        assert forall|i: int, j: int|
            0 <= i < ds.len() && 0 <= j < ds[i].entities@.len() implies file_report_entities(m, ds).contains_key(
                (#[trigger] ds[i].entities@[j]).entity_id@,
            ) by {
            if i < ds.len() - 1 {
                assert(ds.drop_last()[i] == ds[i]);
                assert(prev.contains_key(ds.drop_last()[i].entities@[j].entity_id@));
            }
        }
    }
}

/// When every device reports one entity, there are as many entities as devices.
pub proof fn lemma_one_entity_each(ds: Seq<ConnectivityDevice>)
    requires
        forall|i: int| 0 <= i < ds.len() ==> (#[trigger] ds[i]).entities@.len() == 1,
    ensures
        reported_entity_count(ds) == ds.len(),
    decreases ds.len(),
{
    if ds.len() > 0 {
        assert forall|i: int| 0 <= i < ds.drop_last().len() implies (#[trigger] ds.drop_last()[i]).entities@.len() == 1 by {
            assert(ds.drop_last()[i] == ds[i]);
        }
        lemma_one_entity_each(ds.drop_last());
    }
}

impl ConnectivityEntity {
    /// A copy of this reported entity.
    pub fn duplicate(&self) -> (r: ConnectivityEntity)
        ensures
            r@ == self@,
    {
        ConnectivityEntity {
            entity_id: self.entity_id.clone(),
            display_name: self.display_name.clone(),
            area: crate::text::copy_opt_string(&self.area),
            state: self.state.clone(),
            capabilities: self.capabilities.duplicate(),
            safety_class: self.safety_class,
        }
    }
}

impl ConnectivityDevice {
    /// A copy of this reported device.
    pub fn duplicate(&self) -> (r: ConnectivityDevice)
        ensures
            r@ == self@,
    {
        let mut entities: Vec<ConnectivityEntity> = Vec::new();
        let mut i: usize = 0;
        while i < self.entities.len()
            invariant
                i <= self.entities@.len(),
                entities@.map_values(|e: ConnectivityEntity| e@) == self.entities@.map_values(
                    |e: ConnectivityEntity| e@,
                ).take(i as int),
            decreases self.entities@.len() - i,
        {
            let e = self.entities[i].duplicate();
            let ghost before = entities@;
            entities.push(e);
            proof {
                assert(entities@.map_values(|e: ConnectivityEntity| e@) =~= before.map_values(
                    |e: ConnectivityEntity| e@,
                ).push(e@));
                assert(entities@.map_values(|e: ConnectivityEntity| e@) =~= self.entities@.map_values(
                    |e: ConnectivityEntity| e@,
                ).take(i + 1));
            }
            i = i + 1;
        }
        proof {
            assert(self.entities@.map_values(|e: ConnectivityEntity| e@).take(i as int) =~= self.entities@.map_values(
                |e: ConnectivityEntity| e@,
            ));
        }
        ConnectivityDevice {
            stable_id: self.stable_id.clone(),
            protocol: self.protocol,
            manufacturer: crate::text::copy_opt_string(&self.manufacturer),
            model: crate::text::copy_opt_string(&self.model),
            entities,
        }
    }
}

impl ConnectivityReport {
    /// A copy of this report.
    pub fn duplicate(&self) -> (r: ConnectivityReport)
        ensures
            r.source@ == self.source@,
            r.devices@.map_values(|d: ConnectivityDevice| d@) == self.devices@.map_values(|d: ConnectivityDevice| d@),
    {
        let mut devices: Vec<ConnectivityDevice> = Vec::new();
        let mut i: usize = 0;
        while i < self.devices.len()
            invariant
                i <= self.devices@.len(),
                devices@.map_values(|d: ConnectivityDevice| d@) == self.devices@.map_values(
                    |d: ConnectivityDevice| d@,
                ).take(i as int),
            decreases self.devices@.len() - i,
        {
            let d = self.devices[i].duplicate();
            let ghost before = devices@;
            devices.push(d);
            proof {
                assert(devices@.map_values(|d: ConnectivityDevice| d@) =~= before.map_values(
                    |d: ConnectivityDevice| d@,
                ).push(d@));
                assert(devices@.map_values(|d: ConnectivityDevice| d@) =~= self.devices@.map_values(
                    |d: ConnectivityDevice| d@,
                ).take(i + 1));
            }
            i = i + 1;
        }
        proof {
            assert(self.devices@.map_values(|d: ConnectivityDevice| d@).take(i as int) =~= self.devices@.map_values(
                |d: ConnectivityDevice| d@,
            ));
        }
        ConnectivityReport { source: self.source.clone(), devices }
    }
}

proof fn lemma_device_entities_views(
    m: Map<Seq<char>, EntityView>,
    a: Seq<ConnectivityEntity>,
    b: Seq<ConnectivityEntity>,
    device: Seq<char>,
)
    requires
        a.map_values(|e: ConnectivityEntity| e@) == b.map_values(|e: ConnectivityEntity| e@),
    ensures
        file_device_entities(m, a, device) == file_device_entities(m, b, device),
    decreases a.len(),
{
    assert(a.len() == a.map_values(|e: ConnectivityEntity| e@).len());
    assert(b.len() == b.map_values(|e: ConnectivityEntity| e@).len());
    if a.len() > 0 {
        assert(a.drop_last().map_values(|e: ConnectivityEntity| e@) =~= b.drop_last().map_values(
            |e: ConnectivityEntity| e@,
        )) by {
            assert forall|i: int| 0 <= i < a.len() - 1 implies a.drop_last()[i]@ == b.drop_last()[i]@ by {
                assert(a.map_values(|e: ConnectivityEntity| e@)[i] == a[i]@);
                assert(b.map_values(|e: ConnectivityEntity| e@)[i] == b[i]@);
            }
        }
        lemma_device_entities_views(m, a.drop_last(), b.drop_last(), device);
        assert(a.map_values(|e: ConnectivityEntity| e@)[a.len() - 1] == a.last()@);
        assert(b.map_values(|e: ConnectivityEntity| e@)[b.len() - 1] == b.last()@);
        assert(reported_entity_view(a.last(), device) == reported_entity_view(b.last(), device));
    }
}

/// Reports whose devices have the same values file the same entities and
/// devices, and report the same number of entities.
pub proof fn lemma_report_views(a: Seq<ConnectivityDevice>, b: Seq<ConnectivityDevice>)
    requires
        a.map_values(|d: ConnectivityDevice| d@) == b.map_values(|d: ConnectivityDevice| d@),
    ensures
        forall|m: Map<Seq<char>, EntityView>| #[trigger] file_report_entities(m, a) == file_report_entities(m, b),
        forall|m: Map<Seq<char>, DeviceView>| #[trigger] file_report_devices(m, a) == file_report_devices(m, b),
        reported_entity_count(a) == reported_entity_count(b),
    decreases a.len(),
{
    assert(a.len() == a.map_values(|d: ConnectivityDevice| d@).len());
    assert(b.len() == b.map_values(|d: ConnectivityDevice| d@).len());
    if a.len() > 0 {
        assert(a.drop_last().map_values(|d: ConnectivityDevice| d@) =~= b.drop_last().map_values(
            |d: ConnectivityDevice| d@,
        )) by {
            assert forall|i: int| 0 <= i < a.len() - 1 implies a.drop_last()[i]@ == b.drop_last()[i]@ by {
                assert(a.map_values(|d: ConnectivityDevice| d@)[i] == a[i]@);
                assert(b.map_values(|d: ConnectivityDevice| d@)[i] == b[i]@);
            }
        }
        lemma_report_views(a.drop_last(), b.drop_last());
        let x = a.last();
        let y = b.last();
        assert(a.map_values(|d: ConnectivityDevice| d@)[a.len() - 1] == x@);
        assert(b.map_values(|d: ConnectivityDevice| d@)[b.len() - 1] == y@);
        assert(x@ == y@);
        assert(x.entities@.len() == x@.entities.len());
        assert(y.entities@.len() == y@.entities.len());
        assert forall|m: Map<Seq<char>, EntityView>| #[trigger] file_report_entities(m, a) == file_report_entities(m, b) by {
            lemma_device_entities_views(
                file_report_entities(m, a.drop_last()),
                x.entities@,
                y.entities@,
                connectivity_device_id(x.stable_id@),
            );
        }
        assert(reported_device_view(x) == reported_device_view(y));
        assert forall|m: Map<Seq<char>, DeviceView>| #[trigger] file_report_devices(m, a) == file_report_devices(m, b) by {
            assert(file_report_devices(m, a.drop_last()) == file_report_devices(m, b.drop_last()));
        }
    }
}

} // verus!
