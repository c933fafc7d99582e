//! A simulated hardware bus with devices on several radios, for exercising the
//! runtime end to end: discovery, state reports, commands and injected faults.

use vstd::prelude::*;
use crate::command::{CommandOrigin, HomeAction, HomeActionKind, HomeCommand, TargetSelector, opt_string_view};
use crate::connectivity::{
    ConnectivityApplyResult, ConnectivityDevice, ConnectivityEntity, ConnectivityProtocol, ConnectivityReport,
    EntityStateUpdate, ReportedDeviceView, ReportedEntityView, StateApplyResult, StateReport, StateReportView,
    UpdateView, protocol_name, protocol_text,
};
use crate::entity::{
    Capability, CapabilitySet, EntityId, EntityState, SafetyClass, StateView, attribute_views, duplicate_attributes,
};
use crate::json::{AttributeMap, JsonMember, JsonValue, JsonView};
use crate::keyed::{Keyed, KeyedList};
use crate::runtime::HomeRuntime;
use crate::safety::SafetyDecision;
use crate::entity::entity_views;
use crate::text::{decimal_string, decimal_text, signed_string, signed_text};

verus! {

/// One simulated device and the entity it exposes, with its radio link.
#[derive(Debug, Clone)]
pub struct MockIoTEntity {
    pub stable_id: String,
    pub protocol: ConnectivityProtocol,
    pub manufacturer: String,
    pub model: String,
    pub entity_id: EntityId,
    pub display_name: String,
    pub area: Option<String>,
    pub state: EntityState,
    pub capabilities: CapabilitySet,
    pub safety_class: SafetyClass,
    pub online: bool,
    pub battery_percent: Option<u8>,
    pub rssi_dbm: i16,
    pub link_quality: u8,
    pub attributes: AttributeMap,
}

/// The mathematical value of a simulated device.
pub struct MockEntityView {
    pub stable_id: Seq<char>,
    pub protocol: ConnectivityProtocol,
    pub manufacturer: Seq<char>,
    pub model: Seq<char>,
    pub entity_id: Seq<char>,
    pub display_name: Seq<char>,
    pub area: Option<Seq<char>>,
    pub state: StateView,
    pub capabilities: Set<Capability>,
    pub safety_class: SafetyClass,
    pub online: bool,
    pub battery_percent: Option<u8>,
    pub rssi_dbm: i16,
    pub link_quality: u8,
    pub attributes: Map<Seq<char>, JsonView>,
}

impl View for MockIoTEntity {
    type V = MockEntityView;

    open spec fn view(&self) -> MockEntityView {
        MockEntityView {
            stable_id: self.stable_id@,
            protocol: self.protocol,
            manufacturer: self.manufacturer@,
            model: self.model@,
            entity_id: self.entity_id@,
            display_name: self.display_name@,
            area: opt_string_view(self.area),
            state: self.state@,
            capabilities: self.capabilities@,
            safety_class: self.safety_class,
            online: self.online,
            battery_percent: self.battery_percent,
            rssi_dbm: self.rssi_dbm,
            link_quality: self.link_quality,
            attributes: attribute_views(self.attributes@),
        }
    }
}

impl Keyed for MockIoTEntity {
    open spec fn key(&self) -> Seq<char> {
        self.entity_id@
    }

    fn key_str(&self) -> (r: &str) {
        self.entity_id.as_str()
    }

    fn copy_item(&self) -> (r: Self) {
        MockIoTEntity {
            stable_id: self.stable_id.clone(),
            protocol: self.protocol,
            manufacturer: self.manufacturer.clone(),
            model: self.model.clone(),
            entity_id: self.entity_id.clone(),
            display_name: self.display_name.clone(),
            area: self.area.clone(),
            state: self.state.clone(),
            capabilities: self.capabilities.duplicate(),
            safety_class: self.safety_class,
            online: self.online,
            battery_percent: self.battery_percent,
            rssi_dbm: self.rssi_dbm,
            link_quality: self.link_quality,
            attributes: crate::entity::duplicate_attributes(&self.attributes),
        }
    }
}

/// The attributes a device reports with a state update: its own attributes,
/// then the report sequence, whether it is online, its protocol, its radio
/// link and, when it has one, its battery.
pub open spec fn reported_attributes(e: MockEntityView, sequence: u64) -> Map<Seq<char>, JsonView> {
    let base = e.attributes.insert("mock_sequence"@, JsonView::Number(decimal_text(sequence as nat))).insert(
        "online"@,
        JsonView::Bool(e.online),
    ).insert("protocol"@, JsonView::Text(protocol_name(e.protocol))).insert(
        "rssi_dbm"@,
        JsonView::Number(signed_text(e.rssi_dbm as int)),
    ).insert("link_quality"@, JsonView::Number(decimal_text(e.link_quality as nat)));
    match e.battery_percent {
        Some(b) => base.insert("battery_percent"@, JsonView::Number(decimal_text(b as nat))),
        None => base,
    }
}

/// The state update a device reports at `sequence`.
pub open spec fn update_view(e: MockEntityView, sequence: u64) -> UpdateView {
    UpdateView { entity: e.entity_id, state: e.state, attributes: reported_attributes(e, sequence) }
}

/// Whether a device with these capabilities can carry out an action of this kind.
pub open spec fn supports(caps: Set<Capability>, kind: HomeActionKind) -> bool {
    match kind {
        HomeActionKind::TurnOn | HomeActionKind::TurnOff | HomeActionKind::Toggle => caps.contains(
            Capability::Power,
        ),
        HomeActionKind::SetValue => caps.contains(Capability::Brightness) || caps.contains(
            Capability::Temperature,
        ),
        HomeActionKind::Lock | HomeActionKind::Unlock => caps.contains(Capability::Lock),
        HomeActionKind::Open | HomeActionKind::Close => caps.contains(Capability::OpenClose),
        HomeActionKind::Start | HomeActionKind::Stop | HomeActionKind::Pause => caps.contains(
            Capability::MediaPlayback,
        ) || caps.contains(Capability::VacuumControl),
        HomeActionKind::ReturnToBase => caps.contains(Capability::VacuumControl),
        HomeActionKind::Arm | HomeActionKind::Disarm => caps.contains(Capability::AlarmControl),
        HomeActionKind::ActivateScene => false,
    }
}

/// A device after carrying out an action: the state it moves to, or, for a
/// value, the value kept as its `target_value` attribute.
pub open spec fn acted(e: MockEntityView, kind: HomeActionKind, value: Option<JsonView>) -> MockEntityView {
    match kind {
        HomeActionKind::TurnOn | HomeActionKind::Start => MockEntityView { state: StateView::On, ..e },
        HomeActionKind::TurnOff | HomeActionKind::Stop | HomeActionKind::Pause => MockEntityView {
            state: StateView::Off,
            ..e
        },
        HomeActionKind::Toggle => MockEntityView {
            state: match e.state {
                StateView::On => StateView::Off,
                StateView::Off => StateView::On,
                other => other,
            },
            ..e
        },
        HomeActionKind::Lock => MockEntityView { state: StateView::Locked, ..e },
        HomeActionKind::Unlock => MockEntityView { state: StateView::Unlocked, ..e },
        HomeActionKind::Open => MockEntityView { state: StateView::Open, ..e },
        HomeActionKind::Close => MockEntityView { state: StateView::Closed, ..e },
        HomeActionKind::ReturnToBase => MockEntityView { state: StateView::Text("returning"@), ..e },
        HomeActionKind::Arm => MockEntityView { state: StateView::Text("armed"@), ..e },
        HomeActionKind::Disarm => MockEntityView { state: StateView::Text("disarmed"@), ..e },
        HomeActionKind::SetValue => match value {
            Some(v) => MockEntityView { attributes: e.attributes.insert("target_value"@, v), ..e },
            None => e,
        },
        HomeActionKind::ActivateScene => e,
    }
}

/// The reported device a simulated device appears as in discovery.
pub open spec fn discovered_device(e: MockEntityView) -> ReportedDeviceView {
    ReportedDeviceView {
        stable_id: e.stable_id,
        protocol: e.protocol,
        manufacturer: Some(e.manufacturer),
        model: Some(e.model),
        entities: seq![
            ReportedEntityView {
                entity_id: e.entity_id,
                display_name: e.display_name,
                area: e.area,
                state: e.state,
                capabilities: e.capabilities,
                safety_class: e.safety_class,
            },
        ],
    }
}

fn member(key: &str, value: JsonValue) -> (r: JsonMember)
    ensures
        r.key@ == key@,
        r.value@ == value@,
{
    JsonMember { key: String::from_str(key), value }
}

impl MockIoTEntity {
    /// An online device with a -55 dBm, quality 90 link, no battery and no attributes.
    pub fn new(
        stable_id: &str,
        protocol: ConnectivityProtocol,
        manufacturer: &str,
        model: &str,
        entity_id: EntityId,
        display_name: &str,
        area: Option<&str>,
        state: EntityState,
        capabilities: &[Capability],
        safety_class: SafetyClass,
    ) -> (r: MockIoTEntity)
        ensures
            r@ == (MockEntityView {
                stable_id: stable_id@,
                protocol,
                manufacturer: manufacturer@,
                model: model@,
                entity_id: entity_id@,
                display_name: display_name@,
                area: match area {
                    Some(a) => Some(a@),
                    None => None,
                },
                state: state@,
                capabilities: capabilities@.to_set(),
                safety_class,
                online: true,
                battery_percent: None,
                rssi_dbm: -55i16,
                link_quality: 90u8,
                attributes: Map::empty(),
            }),
            r.entity_id == entity_id,
    {
        let mut caps = CapabilitySet::new();
        let mut i: usize = 0;
        while i < capabilities.len()
            invariant
                i <= capabilities@.len(),
                caps@ == capabilities@.take(i as int).to_set(),
            decreases capabilities@.len() - i,
        {
            caps.insert(capabilities[i]);
            proof {
                let pre = capabilities@.take(i as int);
                let post = capabilities@.take(i + 1);
                assert(post =~= pre.push(capabilities@[i as int]));
                assert forall|x: Capability| post.contains(x) <==> pre.contains(x) || x == capabilities@[i as int] by {
                    if post.contains(x) {
                        let k = choose|k: int| 0 <= k < post.len() && post[k] == x;
                        if k < i {
                            assert(pre[k] == x);
                        }
                    }
                    if pre.contains(x) {
                        let k = choose|k: int| 0 <= k < pre.len() && pre[k] == x;
                        assert(post[k] == x);
                    }
                    if x == capabilities@[i as int] {
                        assert(post[i as int] == x);
                    }
                }
                assert(caps@ =~= post.to_set());
            }
            i = i + 1;
        }
        proof {
            assert(capabilities@.take(i as int) =~= capabilities@);
        }
        let area = match area {
            Some(a) => Some(String::from_str(a)),
            None => None,
        };
        let attributes: AttributeMap = KeyedList::new();
        proof {
            assert(attribute_views(attributes@) =~= Map::<Seq<char>, JsonView>::empty());
        }
        MockIoTEntity {
            stable_id: String::from_str(stable_id),
            protocol,
            manufacturer: String::from_str(manufacturer),
            model: String::from_str(model),
            entity_id,
            display_name: String::from_str(display_name),
            area,
            state,
            capabilities: caps,
            safety_class,
            online: true,
            battery_percent: None,
            rssi_dbm: -55,
            link_quality: 90,
            attributes,
        }
    }

    /// The same device with a battery at `battery_percent`, capped at 100.
    pub fn with_battery(self, battery_percent: u8) -> (r: MockIoTEntity)
        ensures
            r@ == (MockEntityView {
                battery_percent: Some(if battery_percent > 100 { 100 } else { battery_percent }),
                ..self@
            }),
            r.entity_id == self.entity_id,
    {
        let b = if battery_percent > 100 {
            100
        } else {
            battery_percent
        };
        MockIoTEntity { battery_percent: Some(b), ..self }
    }

    /// The same device with this radio link; the quality is capped at 100.
    pub fn with_radio(self, rssi_dbm: i16, link_quality: u8) -> (r: MockIoTEntity)
        ensures
            r@ == (MockEntityView {
                rssi_dbm,
                link_quality: if link_quality > 100 { 100 } else { link_quality },
                ..self@
            }),
            r.entity_id == self.entity_id,
    {
        let q = if link_quality > 100 {
            100
        } else {
            link_quality
        };
        MockIoTEntity { rssi_dbm, link_quality: q, ..self }
    }

    fn connectivity_device(&self) -> (r: ConnectivityDevice)
        ensures
            r@ == discovered_device(self@),
    {
        let entity = ConnectivityEntity {
            entity_id: self.entity_id.clone(),
            display_name: self.display_name.clone(),
            area: crate::text::copy_opt_string(&self.area),
            state: self.state.clone(),
            capabilities: self.capabilities.duplicate(),
            safety_class: self.safety_class,
        };
        let mut entities: Vec<ConnectivityEntity> = Vec::new();
        entities.push(entity);
        let r = ConnectivityDevice {
            stable_id: self.stable_id.clone(),
            protocol: self.protocol,
            manufacturer: Some(self.manufacturer.clone()),
            model: Some(self.model.clone()),
            entities,
        };
        assert(r@.entities =~= discovered_device(self@).entities);
        r
    }

    fn state_update(&self, sequence: u64) -> (r: EntityStateUpdate)
        ensures
            r@ == update_view(self@, sequence),
    {
        let mut attributes = duplicate_attributes(&self.attributes);
        let ghost a0 = attribute_views(attributes@);
        let m1 = member("mock_sequence", JsonValue::Number(decimal_string(sequence)));
        attributes.upsert(m1);
        let m2 = member("online", JsonValue::Bool(self.online));
        attributes.upsert(m2);
        let m3 = member("protocol", JsonValue::Text(String::from_str(protocol_text(self.protocol))));
        attributes.upsert(m3);
        let m4 = member("rssi_dbm", JsonValue::Number(signed_string(self.rssi_dbm)));
        attributes.upsert(m4);
        let m5 = member("link_quality", JsonValue::Number(decimal_string(self.link_quality as u64)));
        attributes.upsert(m5);
        let ghost a5 = attributes@;
        match self.battery_percent {
            Some(b) => {
                let m6 = member("battery_percent", JsonValue::Number(decimal_string(b as u64)));
                attributes.upsert(m6);
                assert(attribute_views(attributes@) =~= reported_attributes(self@, sequence));
            },
            None => {
                assert(attribute_views(attributes@) =~= reported_attributes(self@, sequence));
            },
        }
        EntityStateUpdate { entity_id: self.entity_id.clone(), state: self.state.clone(), attributes }
    }

    fn supports_action(&self, action: HomeActionKind) -> (r: bool)
        ensures
            r == supports(self.capabilities@, action),
    {
        match action {
            HomeActionKind::TurnOn | HomeActionKind::TurnOff | HomeActionKind::Toggle => self.capabilities.contains(
                &Capability::Power,
            ),
            HomeActionKind::SetValue => self.capabilities.contains(&Capability::Brightness)
                || self.capabilities.contains(&Capability::Temperature),
            HomeActionKind::Lock | HomeActionKind::Unlock => self.capabilities.contains(&Capability::Lock),
            HomeActionKind::Open | HomeActionKind::Close => self.capabilities.contains(&Capability::OpenClose),
            HomeActionKind::Start | HomeActionKind::Stop | HomeActionKind::Pause => self.capabilities.contains(
                &Capability::MediaPlayback,
            ) || self.capabilities.contains(&Capability::VacuumControl),
            HomeActionKind::ReturnToBase => self.capabilities.contains(&Capability::VacuumControl),
            HomeActionKind::Arm | HomeActionKind::Disarm => self.capabilities.contains(&Capability::AlarmControl),
            HomeActionKind::ActivateScene => false,
        }
    }

    fn apply_action(&mut self, action: HomeActionKind, value: &Option<JsonValue>)
        ensures
            final(self)@ == acted(old(self)@, action, crate::command::opt_json_view(*value)),
            final(self).entity_id == old(self).entity_id,
    {
        match action {
            HomeActionKind::TurnOn => self.state = EntityState::On,
            HomeActionKind::TurnOff => self.state = EntityState::Off,
            HomeActionKind::Toggle => {
                let next = match &self.state {
                    EntityState::On => EntityState::Off,
                    EntityState::Off => EntityState::On,
                    other => other.clone(),
                };
                self.state = next;
            },
            HomeActionKind::Lock => self.state = EntityState::Locked,
            HomeActionKind::Unlock => self.state = EntityState::Unlocked,
            HomeActionKind::Open => self.state = EntityState::Open,
            HomeActionKind::Close => self.state = EntityState::Closed,
            HomeActionKind::Start => self.state = EntityState::On,
            HomeActionKind::Stop | HomeActionKind::Pause => self.state = EntityState::Off,
            HomeActionKind::ReturnToBase => self.state = EntityState::Text(String::from_str("returning")),
            HomeActionKind::Arm => self.state = EntityState::Text(String::from_str("armed")),
            HomeActionKind::Disarm => self.state = EntityState::Text(String::from_str("disarmed")),
            HomeActionKind::SetValue => {
                match value {
                    Some(v) => {
                        let m = member("target_value", v.duplicate());
                        let ghost a0 = self.attributes@;
                        self.attributes.upsert(m);
                        assert(attribute_views(self.attributes@) =~= attribute_views(a0).insert(
                            "target_value"@,
                            v@,
                        ));
                    },
                    None => {},
                }
            },
            HomeActionKind::ActivateScene => {},
        }
    }
}


/// A simulated device on the reference home bus, made by GeniePod, online, with no attributes.
pub open spec fn mock_row(
    stable_id: Seq<char>,
    protocol: ConnectivityProtocol,
    model: Seq<char>,
    entity_id: Seq<char>,
    display_name: Seq<char>,
    area: Seq<char>,
    state: StateView,
    capabilities: Set<Capability>,
    safety_class: SafetyClass,
    rssi_dbm: i16,
    link_quality: u8,
    battery_percent: Option<u8>,
) -> MockEntityView {
    MockEntityView {
        stable_id,
        protocol,
        manufacturer: "GeniePod"@,
        model,
        entity_id,
        display_name,
        area: Some(area),
        state,
        capabilities,
        safety_class,
        online: true,
        battery_percent,
        rssi_dbm,
        link_quality,
        attributes: Map::empty(),
    }
}

/// The devices of the reference home, by entity id.
pub open spec fn reference_home_entities() -> Map<Seq<char>, MockEntityView> {
    map![
            "light.mock_thread_lamp"@ => mock_row(
                "mock-thread-lamp-1"@,
                ConnectivityProtocol::Thread,
                "Mock Thread Dimmable Lamp"@,
                "light.mock_thread_lamp"@,
                "Mock Thread Lamp"@,
                "living_room"@,
                StateView::Off,
                set![Capability::Power, Capability::Brightness],
                SafetyClass::Normal,
                -48i16,
                95u8,
                Some(88u8),
            ),
            "lock.mock_front_door"@ => mock_row(
                "mock-matter-front-door-lock"@,
                ConnectivityProtocol::Matter,
                "Mock Matter Door Lock"@,
                "lock.mock_front_door"@,
                "Mock Front Door Lock"@,
                "entry"@,
                StateView::Locked,
                set![Capability::Lock],
                SafetyClass::Sensitive,
                -54i16,
                91u8,
                Some(72u8),
            ),
            "binary_sensor.mock_entry_contact"@ => mock_row(
                "mock-zigbee-contact-1"@,
                ConnectivityProtocol::Zigbee,
                "Mock Zigbee Contact Sensor"@,
                "binary_sensor.mock_entry_contact"@,
                "Mock Entry Contact"@,
                "entry"@,
                StateView::Closed,
                set![Capability::SensorRead],
                SafetyClass::Normal,
                -61i16,
                84u8,
                Some(67u8),
            ),
            "sensor.mock_ble_temperature"@ => mock_row(
                "mock-ble-temp-1"@,
                ConnectivityProtocol::Ble,
                "Mock BLE Temperature Sensor"@,
                "sensor.mock_ble_temperature"@,
                "Mock BLE Temperature"@,
                "bedroom"@,
                StateView::Numeric("21.4"@),
                set![Capability::SensorRead],
                SafetyClass::Normal,
                -69i16,
                76u8,
                Some(52u8),
            ),
            "media_player.mock_living_room"@ => mock_row(
                "mock-wifi-media-1"@,
                ConnectivityProtocol::Wifi,
                "Mock Wi-Fi Media Player"@,
                "media_player.mock_living_room"@,
                "Mock Living Room Media"@,
                "living_room"@,
                StateView::Off,
                set![Capability::Power, Capability::MediaPlayback, Capability::Brightness],
                SafetyClass::Normal,
                -43i16,
                98u8,
                None,
            ),
            "vacuum.mock_robot"@ => mock_row(
                "mock-matter-vacuum-1"@,
                ConnectivityProtocol::Matter,
                "Mock Matter Vacuum"@,
                "vacuum.mock_robot"@,
                "Mock Robot Vacuum"@,
                "living_room"@,
                StateView::Off,
                set![Capability::VacuumControl],
                SafetyClass::Sensitive,
                -58i16,
                87u8,
                Some(63u8),
            ),
            "alarm_control_panel.mock_home"@ => mock_row(
                "mock-matter-alarm-1"@,
                ConnectivityProtocol::Matter,
                "Mock Matter Alarm Panel"@,
                "alarm_control_panel.mock_home"@,
                "Mock Home Alarm"@,
                "entry"@,
                StateView::Text("disarmed"@),
                set![Capability::AlarmControl],
                SafetyClass::Sensitive,
                -49i16,
                94u8,
                None,
            ),
    ]
}

/// The simulated bus: its name, the last report sequence, the command latency
/// it adds, and its devices filed by entity id.
#[derive(Debug, Clone)]
pub struct MockHardwareBus {
    source: String,
    sequence: u64,
    default_latency_ms: u64,
    entities: KeyedList<MockIoTEntity>,
}

/// The mathematical value of the bus.
pub struct MockBusView {
    pub source: Seq<char>,
    pub sequence: u64,
    pub latency_ms: u64,
    pub entities: Map<Seq<char>, MockEntityView>,
}

impl View for MockHardwareBus {
    type V = MockBusView;

    closed spec fn view(&self) -> MockBusView {
        MockBusView {
            source: self.source@,
            sequence: self.sequence,
            latency_ms: self.default_latency_ms,
            entities: self.entities@.map_values(|e: MockIoTEntity| e@),
        }
    }
}

/// The sequence number after `s`; it wraps to zero after the largest.
pub open spec fn next_seq(s: u64) -> u64 {
    if s == u64::MAX {
        0
    } else {
        (s + 1) as u64
    }
}

fn mock_entity_id(s: &str) -> (r: EntityId)
    requires
        crate::entity::valid_entity_id(s@),
    ensures
        r@ == s@,
{
    EntityId::from_valid(s)
}

impl MockHardwareBus {
    /// The devices in entity-id order.
    pub closed spec fn entity_seq(&self) -> Seq<MockIoTEntity> {
        self.entities.seq()
    }

    /// The reference home: a Thread lamp, a Matter lock, a Zigbee contact
    /// sensor, a BLE temperature sensor, a Wi-Fi media player, a Matter vacuum
    /// and a Matter alarm panel.
    pub fn reference_home() -> (r: MockHardwareBus)
        ensures
            r@ == (MockBusView {
                source: "mock-hardware-reference-home"@,
                sequence: 0,
                latency_ms: 35,
                entities: reference_home_entities(),
            }),
    {
        proof {
        reveal_strlit("light.mock_thread_lamp");
        reveal_strlit("lock.mock_front_door");
        reveal_strlit("binary_sensor.mock_entry_contact");
        reveal_strlit("sensor.mock_ble_temperature");
        reveal_strlit("media_player.mock_living_room");
        reveal_strlit("vacuum.mock_robot");
        reveal_strlit("alarm_control_panel.mock_home");
        assert("light.mock_thread_lamp"@[5] == '.');
        assert("lock.mock_front_door"@[4] == '.');
        assert("binary_sensor.mock_entry_contact"@[13] == '.');
        assert("sensor.mock_ble_temperature"@[6] == '.');
        assert("media_player.mock_living_room"@[12] == '.');
        assert("vacuum.mock_robot"@[6] == '.');
        assert("alarm_control_panel.mock_home"@[19] == '.');
        }
        let mut entities: KeyedList<MockIoTEntity> = KeyedList::new();
    let caps = [Capability::Power, Capability::Brightness];
    proof {
        assert(caps@.to_set() =~= set![Capability::Power, Capability::Brightness]);
    }
    let e = MockIoTEntity::new(
        "mock-thread-lamp-1",
        ConnectivityProtocol::Thread,
        "GeniePod",
        "Mock Thread Dimmable Lamp",
        mock_entity_id("light.mock_thread_lamp"),
        "Mock Thread Lamp",
        Some("living_room"),
        EntityState::Off,
        &caps,
        SafetyClass::Normal,
    ).with_radio(-48, 95).with_battery(88);
    entities.upsert(e);
    let caps = [Capability::Lock];
    proof {
        assert(caps@.to_set() =~= set![Capability::Lock]);
    }
    let e = MockIoTEntity::new(
        "mock-matter-front-door-lock",
        ConnectivityProtocol::Matter,
        "GeniePod",
        "Mock Matter Door Lock",
        mock_entity_id("lock.mock_front_door"),
        "Mock Front Door Lock",
        Some("entry"),
        EntityState::Locked,
        &caps,
        SafetyClass::Sensitive,
    ).with_radio(-54, 91).with_battery(72);
    entities.upsert(e);
    let caps = [Capability::SensorRead];
    proof {
        assert(caps@.to_set() =~= set![Capability::SensorRead]);
    }
    let e = MockIoTEntity::new(
        "mock-zigbee-contact-1",
        ConnectivityProtocol::Zigbee,
        "GeniePod",
        "Mock Zigbee Contact Sensor",
        mock_entity_id("binary_sensor.mock_entry_contact"),
        "Mock Entry Contact",
        Some("entry"),
        EntityState::Closed,
        &caps,
        SafetyClass::Normal,
    ).with_radio(-61, 84).with_battery(67);
    entities.upsert(e);
    let caps = [Capability::SensorRead];
    proof {
        assert(caps@.to_set() =~= set![Capability::SensorRead]);
    }
    let e = MockIoTEntity::new(
        "mock-ble-temp-1",
        ConnectivityProtocol::Ble,
        "GeniePod",
        "Mock BLE Temperature Sensor",
        mock_entity_id("sensor.mock_ble_temperature"),
        "Mock BLE Temperature",
        Some("bedroom"),
        EntityState::Numeric(String::from_str("21.4")),
        &caps,
        SafetyClass::Normal,
    ).with_radio(-69, 76).with_battery(52);
    entities.upsert(e);
    let caps = [Capability::Power, Capability::MediaPlayback, Capability::Brightness];
    proof {
        assert(caps@.to_set() =~= set![Capability::Power, Capability::MediaPlayback, Capability::Brightness]);
    }
    let e = MockIoTEntity::new(
        "mock-wifi-media-1",
        ConnectivityProtocol::Wifi,
        "GeniePod",
        "Mock Wi-Fi Media Player",
        mock_entity_id("media_player.mock_living_room"),
        "Mock Living Room Media",
        Some("living_room"),
        EntityState::Off,
        &caps,
        SafetyClass::Normal,
    ).with_radio(-43, 98);
    entities.upsert(e);
    let caps = [Capability::VacuumControl];
    proof {
        assert(caps@.to_set() =~= set![Capability::VacuumControl]);
    }
    let e = MockIoTEntity::new(
        "mock-matter-vacuum-1",
        ConnectivityProtocol::Matter,
        "GeniePod",
        "Mock Matter Vacuum",
        mock_entity_id("vacuum.mock_robot"),
        "Mock Robot Vacuum",
        Some("living_room"),
        EntityState::Off,
        &caps,
        SafetyClass::Sensitive,
    ).with_radio(-58, 87).with_battery(63);
    entities.upsert(e);
    let caps = [Capability::AlarmControl];
    proof {
        assert(caps@.to_set() =~= set![Capability::AlarmControl]);
    }
    let e = MockIoTEntity::new(
        "mock-matter-alarm-1",
        ConnectivityProtocol::Matter,
        "GeniePod",
        "Mock Matter Alarm Panel",
        mock_entity_id("alarm_control_panel.mock_home"),
        "Mock Home Alarm",
        Some("entry"),
        EntityState::Text(String::from_str("disarmed")),
        &caps,
        SafetyClass::Sensitive,
    ).with_radio(-49, 94);
    entities.upsert(e);
        let r = MockHardwareBus {
            source: String::from_str("mock-hardware-reference-home"),
            sequence: 0,
            default_latency_ms: 35,
            entities,
        };
        proof {
            assert(r@.entities =~= reference_home_entities());
        }
        r
    }

    /// The devices, in entity-id order.
    pub fn entities(&self) -> (r: &[MockIoTEntity])
        ensures
            r@ == self.entity_seq(),
            crate::keyed::keys_sorted(r@),
            self@.entities == crate::keyed::seq_to_map(r@).map_values(|e: MockIoTEntity| e@),
    {
        self.entities.as_slice()
    }
}


/// A fault to inject into the simulated bus.
#[derive(Debug, Clone)]
pub enum MockHardwareFault {
    SetOnline { entity_id: EntityId, online: bool },
    SetState { entity_id: EntityId, state: EntityState },
    SetRadio { entity_id: EntityId, rssi_dbm: i16, link_quality: u8 },
    AddCommandLatency { latency_ms: u64 },
}

/// What injecting a fault did, with the state report it produced, if any.
#[derive(Debug, Clone)]
pub struct MockHardwareFaultApplied {
    pub source: String,
    pub fault: MockHardwareFault,
    pub applied: bool,
    pub message: String,
    pub state_report: Option<StateReport>,
}

/// What the simulated bus did with a command.
#[derive(Debug, Clone)]
pub struct MockHardwareCommandResult {
    pub source: String,
    pub entity_id: EntityId,
    pub accepted: bool,
    pub message: String,
    pub latency_ms: u64,
    pub state_report: Option<StateReport>,
}

/// A report holding one update.
pub open spec fn single_report(source: Seq<char>, e: MockEntityView, sequence: u64) -> StateReportView {
    StateReportView { source, updates: seq![update_view(e, sequence)] }
}

/// A device taken offline becomes unavailable; one brought online keeps its state.
pub open spec fn with_online(e: MockEntityView, online: bool) -> MockEntityView {
    MockEntityView {
        online,
        state: if !online {
            StateView::Unavailable
        } else {
            e.state
        },
        ..e
    }
}

/// A device with a new radio link; the quality is capped at 100.
pub open spec fn with_link(e: MockEntityView, rssi_dbm: i16, link_quality: u8) -> MockEntityView {
    MockEntityView { rssi_dbm, link_quality: if link_quality > 100 { 100 } else { link_quality }, ..e }
}

/// `new` is `old` with one report sequence used and the device `id` changed
/// to `changed`, reported in `r`; when there is no such device only the
/// sequence moves and there is no report.
pub open spec fn device_change(
    old: MockBusView,
    new: MockBusView,
    id: Seq<char>,
    changed: MockEntityView,
    r: Option<StateReport>,
) -> bool {
    &&& new.source == old.source
    &&& new.latency_ms == old.latency_ms
    &&& new.sequence == next_seq(old.sequence)
    &&& old.entities.contains_key(id) ==> {
        &&& new.entities == old.entities.insert(id, changed)
        &&& r matches Some(rep) && rep@ == single_report(old.source, changed, new.sequence)
    }
    &&& !old.entities.contains_key(id) ==> new.entities == old.entities && r is None
}

fn report_one(source: String, update: EntityStateUpdate) -> (r: StateReport)
    ensures
        r@ == (StateReportView { source: source@, updates: seq![update@] }),
{
    let mut updates: Vec<EntityStateUpdate> = Vec::new();
    updates.push(update);
    let r = StateReport { source, updates };
    assert(r@.updates =~= seq![update@]);
    r
}

impl MockHardwareBus {
    fn next_sequence(&mut self) -> (r: u64)
        ensures
            final(self)@ == (MockBusView { sequence: next_seq(old(self)@.sequence), ..old(self)@ }),
            r == next_seq(old(self)@.sequence),
            final(self).entity_seq() == old(self).entity_seq(),
    {
        let s0 = self.sequence;
        self.sequence = if s0 == u64::MAX {
            0
        } else {
            s0 + 1
        };
        self.sequence
    }

    /// Takes a device off line (it becomes unavailable) or back on line, and reports it.
    pub fn set_online(&mut self, entity_id: &EntityId, online: bool) -> (r: Option<StateReport>)
        ensures
            device_change(
                old(self)@,
                final(self)@,
                entity_id@,
                with_online(old(self)@.entities[entity_id@], online),
                r,
            ),
    {
        let source = self.source.clone();
        let sequence = self.next_sequence();
        let ghost mid = self.entities@;
        match self.entities.take(entity_id.as_str()) {
            Some(e) => {
                let mut e = e;
                e.online = online;
                if !online {
                    e.state = EntityState::Unavailable;
                }
                let update = e.state_update(sequence);
                self.entities.upsert(e);
                proof {
                    assert(self@.entities =~= old(self)@.entities.insert(
                        entity_id@,
                        with_online(old(self)@.entities[entity_id@], online),
                    ));
                }
                Some(report_one(source, update))
            },
            None => {
                proof {
                    assert(self@.entities =~= old(self)@.entities);
                }
                None
            },
        }
    }

    /// Changes a device's radio link (quality capped at 100) and reports it.
    pub fn set_radio(&mut self, entity_id: &EntityId, rssi_dbm: i16, link_quality: u8) -> (r: Option<StateReport>)
        ensures
            device_change(
                old(self)@,
                final(self)@,
                entity_id@,
                with_link(old(self)@.entities[entity_id@], rssi_dbm, link_quality),
                r,
            ),
    {
        let source = self.source.clone();
        let sequence = self.next_sequence();
        match self.entities.take(entity_id.as_str()) {
            Some(e) => {
                let mut e = e;
                e.rssi_dbm = rssi_dbm;
                e.link_quality = if link_quality > 100 {
                    100
                } else {
                    link_quality
                };
                let update = e.state_update(sequence);
                self.entities.upsert(e);
                proof {
                    assert(self@.entities =~= old(self)@.entities.insert(
                        entity_id@,
                        with_link(old(self)@.entities[entity_id@], rssi_dbm, link_quality),
                    ));
                }
                Some(report_one(source, update))
            },
            None => {
                proof {
                    assert(self@.entities =~= old(self)@.entities);
                }
                None
            },
        }
    }

    /// Sets a device's state and reports it.
    pub fn set_state(&mut self, entity_id: &EntityId, state: EntityState) -> (r: Option<StateReport>)
        ensures
            device_change(
                old(self)@,
                final(self)@,
                entity_id@,
                MockEntityView { state: state@, ..old(self)@.entities[entity_id@] },
                r,
            ),
    {
        let source = self.source.clone();
        let sequence = self.next_sequence();
        match self.entities.take(entity_id.as_str()) {
            Some(e) => {
                let mut e = e;
                e.state = state;
                let update = e.state_update(sequence);
                self.entities.upsert(e);
                proof {
                    assert(self@.entities =~= old(self)@.entities.insert(
                        entity_id@,
                        MockEntityView { state: state@, ..old(self)@.entities[entity_id@] },
                    ));
                }
                Some(report_one(source, update))
            },
            None => {
                proof {
                    assert(self@.entities =~= old(self)@.entities);
                }
                None
            },
        }
    }
}


/// A fault's message: what was applied, or that its target does not exist.
pub open spec fn fault_message(applied: bool, what: Seq<char>) -> Seq<char> {
    if applied {
        what
    } else {
        "fault target entity does not exist"@
    }
}

/// `r` reports injecting `fault` into `old`, giving `new`.
pub open spec fn fault_outcome(old: MockBusView, new: MockBusView, fault: MockHardwareFault, r: MockHardwareFaultApplied) -> bool {
    &&& r.source@ == old.source
    &&& r.fault == fault
    &&& match fault {
        MockHardwareFault::SetOnline { entity_id, online } => {
            &&& device_change(old, new, entity_id@, with_online(old.entities[entity_id@], online), r.state_report)
            &&& r.applied == old.entities.contains_key(entity_id@)
            &&& r.message@ == fault_message(r.applied, "mock online fault applied"@)
        },
        MockHardwareFault::SetState { entity_id, state } => {
            &&& device_change(
                old,
                new,
                entity_id@,
                MockEntityView { state: state@, ..old.entities[entity_id@] },
                r.state_report,
            )
            &&& r.applied == old.entities.contains_key(entity_id@)
            &&& r.message@ == fault_message(r.applied, "mock state fault applied"@)
        },
        MockHardwareFault::SetRadio { entity_id, rssi_dbm, link_quality } => {
            &&& device_change(
                old,
                new,
                entity_id@,
                with_link(old.entities[entity_id@], rssi_dbm, link_quality),
                r.state_report,
            )
            &&& r.applied == old.entities.contains_key(entity_id@)
            &&& r.message@ == fault_message(r.applied, "mock radio fault applied"@)
        },
        MockHardwareFault::AddCommandLatency { latency_ms } => {
            &&& new == (MockBusView {
                latency_ms: if old.latency_ms + latency_ms > u64::MAX {
                    u64::MAX
                } else {
                    (old.latency_ms + latency_ms) as u64
                },
                ..old
            })
            &&& r.applied
            &&& r.message@ == "mock command latency fault applied"@
            &&& r.state_report is None
        },
    }
}

/// What the bus does with a command on `old`, giving `new`: a missing, offline
/// or incapable target refuses it and changes nothing but the sequence; a
/// capable target carries it out. Either way a known target reports its state.
pub open spec fn command_outcome(old: MockBusView, new: MockBusView, c: HomeCommand, r: MockHardwareCommandResult) -> bool {
    let id = c.action.target.entity_id@;
    let seq = next_seq(old.sequence);
    &&& r.source@ == old.source
    &&& r.entity_id == c.action.target.entity_id
    &&& r.latency_ms == old.latency_ms
    &&& new.source == old.source
    &&& new.latency_ms == old.latency_ms
    &&& new.sequence == seq
    &&& if !old.entities.contains_key(id) {
        &&& !r.accepted
        &&& r.message@ == "target entity does not exist on mock hardware bus"@
        &&& r.state_report is None
        &&& new.entities == old.entities
    } else if !old.entities[id].online {
        &&& !r.accepted
        &&& r.message@ == "target entity is offline"@
        &&& r.state_report matches Some(rep) && rep@ == single_report(old.source, old.entities[id], seq)
        &&& new.entities == old.entities
    } else if !supports(old.entities[id].capabilities, c.action.kind) {
        &&& !r.accepted
        &&& r.message@ == "target entity does not support requested action"@
        &&& r.state_report matches Some(rep) && rep@ == single_report(old.source, old.entities[id], seq)
        &&& new.entities == old.entities
    } else {
        let e = acted(old.entities[id], c.action.kind, crate::command::opt_json_view(c.action.value));
        &&& r.accepted
        &&& r.message@ == "mock hardware accepted command"@
        &&& r.state_report matches Some(rep) && rep@ == single_report(old.source, e, seq)
        &&& new.entities == old.entities.insert(id, e)
    }
}

impl MockHardwareBus {
    /// Injects a fault: a device going off or on line, a forced state, a radio
    /// change, or extra command latency (saturating).
    pub fn apply_fault(&mut self, fault: MockHardwareFault) -> (r: MockHardwareFaultApplied)
        ensures
            fault_outcome(old(self)@, final(self)@, fault, r),
    {
        let source = self.source.clone();
        match &fault {
            MockHardwareFault::SetOnline { entity_id, online } => {
                let state_report = self.set_online(entity_id, *online);
                let applied = state_report.is_some();
                let message = if applied {
                    String::from_str("mock online fault applied")
                } else {
                    String::from_str("fault target entity does not exist")
                };
                MockHardwareFaultApplied { source, fault, applied, message, state_report }
            },
            MockHardwareFault::SetState { entity_id, state } => {
                let state_report = self.set_state(entity_id, state.clone());
                let applied = state_report.is_some();
                let message = if applied {
                    String::from_str("mock state fault applied")
                } else {
                    String::from_str("fault target entity does not exist")
                };
                MockHardwareFaultApplied { source, fault, applied, message, state_report }
            },
            MockHardwareFault::SetRadio { entity_id, rssi_dbm, link_quality } => {
                let state_report = self.set_radio(entity_id, *rssi_dbm, *link_quality);
                let applied = state_report.is_some();
                let message = if applied {
                    String::from_str("mock radio fault applied")
                } else {
                    String::from_str("fault target entity does not exist")
                };
                MockHardwareFaultApplied { source, fault, applied, message, state_report }
            },
            MockHardwareFault::AddCommandLatency { latency_ms } => {
                self.default_latency_ms = self.default_latency_ms.saturating_add(*latency_ms);
                MockHardwareFaultApplied {
                    source,
                    fault,
                    applied: true,
                    message: String::from_str("mock command latency fault applied"),
                    state_report: None,
                }
            },
        }
    }

    /// The sensor readings that drift between polls: each online `sensor`
    /// device whose state is a reading, with that reading.
    pub fn sensor_readings(&self) -> (r: Vec<(EntityId, String)>)
        ensures
            forall|i: int| 0 <= i < r@.len() ==> {
                let id = (#[trigger] r@[i]).0@;
                &&& self@.entities.contains_key(id)
                &&& self@.entities[id].online
                &&& crate::entity::domain_of(id) == "sensor"@
                &&& self@.entities[id].state == StateView::Numeric(r@[i].1@)
            },
            forall|k: Seq<char>| #[trigger] self@.entities.contains_key(k) && self@.entities[k].online
                && crate::entity::domain_of(k) == "sensor"@ && self@.entities[k].state is Numeric ==> exists|i: int|
                0 <= i < r@.len() && (#[trigger] r@[i]).0@ == k,
    {
        let items = self.entities.as_slice();
        let mut out: Vec<(EntityId, String)> = Vec::new();
        let mut i: usize = 0;
        while i < items.len()
            invariant
                i <= items@.len(),
                items@ == self.entity_seq(),
                crate::keyed::keys_sorted(items@),
                self@.entities == crate::keyed::seq_to_map(items@).map_values(|e: MockIoTEntity| e@),
                forall|j: int| 0 <= j < out@.len() ==> {
                    let id = (#[trigger] out@[j]).0@;
                    &&& self@.entities.contains_key(id)
                    &&& self@.entities[id].online
                    &&& crate::entity::domain_of(id) == "sensor"@
                    &&& self@.entities[id].state == StateView::Numeric(out@[j].1@)
                },
                forall|k: int| 0 <= k < i && (#[trigger] items@[k]).online
                    && crate::entity::domain_of(items@[k].entity_id@) == "sensor"@ && items@[k].state is Numeric
                    ==> exists|j: int| 0 <= j < out@.len() && (#[trigger] out@[j]).0@ == items@[k].entity_id@,
            decreases items@.len() - i,
        {
            let e = &items[i];
            proof {
                crate::keyed::lemma_key_index_unique(items@, i as int);
            }
            if e.online && crate::text::str_eq(e.entity_id.domain(), "sensor") {
                match &e.state {
                    EntityState::Numeric(v) => {
                        let ghost before = out@;
                        out.push((e.entity_id.clone(), v.clone()));
                        proof {
                            assert(out@[out@.len() - 1].0@ == e.entity_id@);
                            assert forall|k: int| 0 <= k < i + 1 && (#[trigger] items@[k]).online
                                && crate::entity::domain_of(items@[k].entity_id@) == "sensor"@ && items@[k].state is Numeric
                                implies exists|j: int| 0 <= j < out@.len() && (#[trigger] out@[j]).0@ == items@[k].entity_id@ by {
                                if k < i {
                                    let j = choose|j: int| 0 <= j < before.len() && (#[trigger] before[j]).0@ == items@[k].entity_id@;
                                    assert(out@[j] == before[j]);
                                } else {
                                    assert(out@[out@.len() - 1].0@ == items@[k].entity_id@);
                                }
                            }
                        }
                    },
                    _ => {},
                }
            }
            i = i + 1;
        }
        proof {
            assert forall|k: Seq<char>| #[trigger] self@.entities.contains_key(k) && self@.entities[k].online
                && crate::entity::domain_of(k) == "sensor"@ && self@.entities[k].state is Numeric implies exists|i: int|
                0 <= i < out@.len() && (#[trigger] out@[i]).0@ == k by {
                let j = choose|j: int| 0 <= j < items@.len() && #[trigger] items@[j].key() == k;
                crate::keyed::lemma_key_index_unique(items@, j);
            }
        }
        out
    }

    /// The number of the last report sequence used.
    pub fn sequence(&self) -> (r: u64)
        ensures
            r == self@.sequence,
    {
        self.sequence
    }

    /// Replaces the reading of a device without reporting it.
    pub fn set_reading(&mut self, entity_id: &EntityId, reading: String)
        ensures
            final(self)@ == (MockBusView {
                entities: if old(self)@.entities.contains_key(entity_id@) {
                    old(self)@.entities.insert(
                        entity_id@,
                        MockEntityView { state: StateView::Numeric(reading@), ..old(self)@.entities[entity_id@] },
                    )
                } else {
                    old(self)@.entities
                },
                ..old(self)@
            }),
    {
        let ghost r = reading@;
        match self.entities.take(entity_id.as_str()) {
            Some(e) => {
                let mut e = e;
                e.state = EntityState::Numeric(reading);
                self.entities.upsert(e);
                proof {
                    assert(self@.entities =~= old(self)@.entities.insert(
                        entity_id@,
                        MockEntityView { state: StateView::Numeric(r), ..old(self)@.entities[entity_id@] },
                    ));
                }
            },
            None => {
                proof {
                    assert(self@.entities =~= old(self)@.entities);
                }
            },
        }
    }
}


/// A hardware bus the runtime can discover devices on, poll and command.
pub trait HardwareInterface {
    fn source(&self) -> &str;

    fn discovery_report(&self) -> ConnectivityReport;

    fn poll_state(&mut self) -> StateReport;

    fn apply_command(&mut self, command: &HomeCommand) -> MockHardwareCommandResult;
}

impl HardwareInterface for MockHardwareBus {
    fn source(&self) -> (r: &str)
        ensures
            r@ == self@.source,
    {
        self.source.as_str()
    }

    /// Every device, in entity-id order, as a reported device.
    fn discovery_report(&self) -> (r: ConnectivityReport)
        ensures
            r.source@ == self@.source,
            r.devices@.map_values(|d: ConnectivityDevice| d@) == self.entity_seq().map_values(
                |e: MockIoTEntity| discovered_device(e@),
            ),
    {
        let items = self.entities.as_slice();
        let mut devices: Vec<ConnectivityDevice> = Vec::new();
        let mut i: usize = 0;
        while i < items.len()
            invariant
                i <= items@.len(),
                items@ == self.entity_seq(),
                devices@.map_values(|d: ConnectivityDevice| d@) == self.entity_seq().map_values(
                    |e: MockIoTEntity| discovered_device(e@),
                ).take(i as int),
            decreases items@.len() - i,
        {
            let d = items[i].connectivity_device();
            let ghost before = devices@;
            devices.push(d);
            proof {
                assert(devices@.map_values(|d: ConnectivityDevice| d@) =~= before.map_values(
                    |d: ConnectivityDevice| d@,
                ).push(d@));
                assert(devices@.map_values(|d: ConnectivityDevice| d@) =~= self.entity_seq().map_values(
                    |e: MockIoTEntity| discovered_device(e@),
                ).take(i + 1));
            }
            i = i + 1;
        }
        proof {
            assert(self.entity_seq().map_values(|e: MockIoTEntity| discovered_device(e@)).take(i as int) =~= self.entity_seq().map_values(
                |e: MockIoTEntity| discovered_device(e@),
            ));
        }
        ConnectivityReport { source: self.source.clone(), devices }
    }

    /// Uses the next report sequence and reports every device, in entity-id
    /// order. Sensor readings are left as they are; a caller that simulates
    /// drift sets them with `set_reading` first.
    /// Reports every device at the next sequence. Nothing but the sequence
    /// changes: sensor readings are held as they are here (`entity_seq` is
    /// unchanged); a caller that simulates drift sets new readings with
    /// `set_reading` before polling.
    fn poll_state(&mut self) -> (r: StateReport)
        ensures
            final(self)@ == (MockBusView { sequence: next_seq(old(self)@.sequence), ..old(self)@ }),
            final(self).entity_seq() == old(self).entity_seq(),
            r@ == (StateReportView {
                source: old(self)@.source,
                updates: old(self).entity_seq().map_values(|e: MockIoTEntity| update_view(e@, final(self)@.sequence)),
            }),
    {
        let source = self.source.clone();
        let sequence = self.next_sequence();
        let items = self.entities.as_slice();
        let ghost want = items@.map_values(|e: MockIoTEntity| update_view(e@, sequence));
        let mut updates: Vec<EntityStateUpdate> = Vec::new();
        let mut i: usize = 0;
        while i < items.len()
            invariant
                i <= items@.len(),
                want == items@.map_values(|e: MockIoTEntity| update_view(e@, sequence)),
                updates@.map_values(|u: EntityStateUpdate| u@) == want.take(i as int),
            decreases items@.len() - i,
        {
            let u = items[i].state_update(sequence);
            let ghost before = updates@;
            updates.push(u);
            proof {
                assert(updates@.map_values(|u: EntityStateUpdate| u@) =~= before.map_values(
                    |u: EntityStateUpdate| u@,
                ).push(u@));
                assert(updates@.map_values(|u: EntityStateUpdate| u@) =~= want.take(i + 1));
            }
            i = i + 1;
        }
        proof {
            assert(want.take(i as int) =~= want);
        }
        StateReport { source, updates }
    }

    /// Carries out a command on its target device when the device exists, is
    /// on line and can do it; reports the target's state when it exists.
    fn apply_command(&mut self, command: &HomeCommand) -> (r: MockHardwareCommandResult)
        ensures
            command_outcome(old(self)@, final(self)@, *command, r),
    {
        let source = self.source.clone();
        let sequence = self.next_sequence();
        let latency_ms = self.default_latency_ms;
        let entity_id = command.action.target.entity_id.clone();
        match self.entities.take(entity_id.as_str()) {
            None => {
                proof {
                    assert(self@.entities =~= old(self)@.entities);
                }
                MockHardwareCommandResult {
                    source,
                    entity_id,
                    accepted: false,
                    message: String::from_str("target entity does not exist on mock hardware bus"),
                    latency_ms,
                    state_report: None,
                }
            },
            Some(e) => {
                let mut e = e;
                if !e.online {
                    let update = e.state_update(sequence);
                    self.entities.upsert(e);
                    proof {
                        assert(self@.entities =~= old(self)@.entities);
                    }
                    let report = report_one(self.source.clone(), update);
                    return MockHardwareCommandResult {
                        source,
                        entity_id,
                        accepted: false,
                        message: String::from_str("target entity is offline"),
                        latency_ms,
                        state_report: Some(report),
                    };
                }
                if !e.supports_action(command.action.kind) {
                    let update = e.state_update(sequence);
                    self.entities.upsert(e);
                    proof {
                        assert(self@.entities =~= old(self)@.entities);
                    }
                    let report = report_one(self.source.clone(), update);
                    return MockHardwareCommandResult {
                        source,
                        entity_id,
                        accepted: false,
                        message: String::from_str("target entity does not support requested action"),
                        latency_ms,
                        state_report: Some(report),
                    };
                }
                e.apply_action(command.action.kind, &command.action.value);
                let update = e.state_update(sequence);
                let ghost ev = e@;
                self.entities.upsert(e);
                proof {
                    assert(self@.entities =~= old(self)@.entities.insert(entity_id@, ev));
                }
                let report = report_one(self.source.clone(), update);
                MockHardwareCommandResult {
                    source,
                    entity_id,
                    accepted: true,
                    message: String::from_str("mock hardware accepted command"),
                    latency_ms,
                    state_report: Some(report),
                }
            },
        }
    }
}

/// A local-API command to turn the reference home's Thread lamp on.
pub fn mock_turn_on_thread_lamp_command() -> (r: HomeCommand)
    ensures
        r@ == (crate::command::CommandView {
            origin: CommandOrigin::LocalApi,
            action: crate::runtime::plain_action("light.mock_thread_lamp"@, HomeActionKind::TurnOn),
            confirmed: false,
            approval: None,
            reason: None,
        }),
{
    proof {
        reveal_strlit("light.mock_thread_lamp");
        assert("light.mock_thread_lamp"@[5] == '.');
    }
    HomeCommand::new(
        CommandOrigin::LocalApi,
        HomeAction {
            target: TargetSelector::exact(mock_entity_id("light.mock_thread_lamp")),
            kind: HomeActionKind::TurnOn,
            value: None,
        },
    )
}


/// Everything that happened in the fault scenario, step by step.
#[derive(Debug, Clone)]
pub struct MockHardwareFaultScenarioResult {
    pub discovery_apply_result: ConnectivityApplyResult,
    pub initial_state_apply_result: StateApplyResult,
    pub latency_fault: MockHardwareFaultApplied,
    pub radio_fault: MockHardwareFaultApplied,
    pub offline_fault: MockHardwareFaultApplied,
    pub offline_state_apply_result: Option<StateApplyResult>,
    pub command: HomeCommand,
    pub safety_decision: SafetyDecision,
    pub hardware_command_result: Option<MockHardwareCommandResult>,
    pub recovery_online_fault: MockHardwareFaultApplied,
    pub recovery_state_fault: MockHardwareFaultApplied,
    pub recovery_state_apply_result: Option<StateApplyResult>,
}

/// Applies a fault's state report, if it has one, to the runtime.
fn apply_fault_report(runtime: &mut HomeRuntime, fault: &MockHardwareFaultApplied) -> (r: Option<StateApplyResult>)
    ensures
        match fault.state_report {
            Some(rep) => exists|d: StateReport| d@ == rep@ && (r matches Some(x) && old(runtime).state_report_outcome(
                final(runtime),
                d,
                x,
            )),
            None => r is None && *final(runtime) == *old(runtime),
        },
{
    match &fault.state_report {
        Some(rep) => {
            let d = rep.duplicate();
            let ghost dv = d;
            let x = runtime.apply_state_report(d);
            assert(dv@ == rep@);
            Some(x)
        },
        None => None,
    }
}

/// The state an update view gives, after one update applied to a runtime that has the entity.
proof fn lemma_single_update(
    start: crate::connectivity::StateFold,
    report: StateReport,
    id: Seq<char>,
    state: StateView,
)
    requires
        report@.updates.len() == 1,
        report@.updates[0].entity == id,
        report@.updates[0].state == state,
        start.ents.contains_key(id),
    ensures
        crate::connectivity::apply_state_updates(start, report.updates@).updated == start.updated + 1,
        crate::connectivity::apply_state_updates(start, report.updates@).ents.contains_key(id),
        crate::connectivity::apply_state_updates(start, report.updates@).ents[id].state == state,
{
    let us = report.updates@;
    assert(us.len() == 1);
    assert(us[0]@ == report@.updates[0]);
    assert(us.drop_last() =~= Seq::<EntityStateUpdate>::empty());
    assert(crate::connectivity::apply_state_updates(start, us.drop_last()) == start);
}

/// The reference home holds seven devices.
proof fn lemma_reference_home_size()
    ensures
        reference_home_entities().dom().finite(),
        reference_home_entities().dom().len() == 7,
{
    reveal_strlit("light.mock_thread_lamp");
    reveal_strlit("lock.mock_front_door");
    reveal_strlit("binary_sensor.mock_entry_contact");
    reveal_strlit("sensor.mock_ble_temperature");
    reveal_strlit("media_player.mock_living_room");
    reveal_strlit("vacuum.mock_robot");
    reveal_strlit("alarm_control_panel.mock_home");
    assert("light.mock_thread_lamp"@[0] == 'l' && "light.mock_thread_lamp"@[1] == 'i');
    assert("lock.mock_front_door"@[0] == 'l' && "lock.mock_front_door"@[1] == 'o');
    assert("binary_sensor.mock_entry_contact"@[0] == 'b');
    assert("sensor.mock_ble_temperature"@[0] == 's');
    assert("media_player.mock_living_room"@[0] == 'm');
    assert("vacuum.mock_robot"@[0] == 'v');
    assert("alarm_control_panel.mock_home"@[0] == 'a');
    let want = set![
        "light.mock_thread_lamp"@,
        "lock.mock_front_door"@,
        "binary_sensor.mock_entry_contact"@,
        "sensor.mock_ble_temperature"@,
        "media_player.mock_living_room"@,
        "vacuum.mock_robot"@,
        "alarm_control_panel.mock_home"@
    ];
    assert(reference_home_entities().dom() =~= want);
}

/// Full confidence is not below the default confidence threshold.
proof fn lemma_full_confidence_meets_default()
    ensures
        !crate::command::f32_lt(crate::command::CONFIDENCE_ONE, crate::safety::DEFAULT_MIN_TARGET_CONFIDENCE),
{
    assert(0x3f80_0000u32 & 0x8000_0000u32 == 0u32 && 0x3f80_0000u32 & 0x7fff_ffffu32 == 0x3f80_0000u32)
        by (bit_vector);
    assert(0x3f47_ae14u32 & 0x8000_0000u32 == 0u32 && 0x3f47_ae14u32 & 0x7fff_ffffu32 == 0x3f47_ae14u32)
        by (bit_vector);
}

/// The fault scenario: discover the reference home, take its state, slow the
/// bus down and weaken the lamp's radio, take the lamp off line, try to turn
/// it on (the runtime refuses, so the hardware is never commanded), then bring
/// the lamp back and switch it off.
pub fn run_mock_hardware_fault_scenario() -> (r: MockHardwareFaultScenarioResult)
    ensures
        r.latency_fault.applied,
        r.radio_fault.applied,
        r.offline_fault.applied,
        r.offline_state_apply_result matches Some(x) && x.entities_updated == 1,
        r.command@ == (crate::command::CommandView {
            origin: CommandOrigin::LocalApi,
            action: crate::runtime::plain_action("light.mock_thread_lamp"@, HomeActionKind::TurnOn),
            confirmed: false,
            approval: None,
            reason: None,
        }),
        !r.safety_decision.allowed,
        r.safety_decision.reason == crate::safety::SafetyReason::TargetUnavailable,
        r.hardware_command_result is None,
        r.recovery_online_fault.applied,
        r.recovery_state_fault.applied,
        r.recovery_state_apply_result matches Some(x) && x.entities_updated == 1,
        r.latency_fault.fault == (MockHardwareFault::AddCommandLatency { latency_ms: 250 }),
        r.latency_fault.state_report is None,
        r.radio_fault.fault matches MockHardwareFault::SetRadio { entity_id, rssi_dbm, link_quality } && entity_id@
            == "light.mock_thread_lamp"@ && rssi_dbm == -91 && link_quality == 8,
        r.radio_fault.state_report matches Some(rep) && rep@.updates.len() == 1 && rep@.updates[0].entity
            == "light.mock_thread_lamp"@ && rep@.updates[0].attributes["rssi_dbm"@] == JsonView::Number(
            signed_text(-91),
        ) && rep@.updates[0].attributes["link_quality"@] == JsonView::Number(decimal_text(8)),
        r.offline_fault.fault matches MockHardwareFault::SetOnline { entity_id, online } && entity_id@
            == "light.mock_thread_lamp"@ && !online,
        r.offline_fault.state_report matches Some(rep) && rep@.updates.len() == 1 && rep@.updates[0].state
            == StateView::Unavailable,
        r.recovery_online_fault.fault matches MockHardwareFault::SetOnline { entity_id, online } && entity_id@
            == "light.mock_thread_lamp"@ && online,
        r.recovery_state_fault.fault matches MockHardwareFault::SetState { entity_id, state } && entity_id@
            == "light.mock_thread_lamp"@ && state@ == StateView::Off,
        r.discovery_apply_result.source@ == "mock-hardware-reference-home"@,
        r.discovery_apply_result.devices_seen == 7,
        r.discovery_apply_result.entities_upserted == 7,
        r.initial_state_apply_result.source@ == "mock-hardware-reference-home"@,
        r.initial_state_apply_result.updates_seen == 7,
        r.initial_state_apply_result.entities_updated == 7,
        r.initial_state_apply_result.unknown_entities@.len() == 0,
        r.latency_fault.source@ == "mock-hardware-reference-home"@,
        r.latency_fault.message@ == "mock command latency fault applied"@,
        r.radio_fault.source@ == "mock-hardware-reference-home"@,
        r.radio_fault.message@ == "mock radio fault applied"@,
        r.offline_fault.source@ == "mock-hardware-reference-home"@,
        r.offline_fault.message@ == "mock online fault applied"@,
        r.recovery_online_fault.source@ == "mock-hardware-reference-home"@,
        r.recovery_online_fault.message@ == "mock online fault applied"@,
        r.recovery_state_fault.source@ == "mock-hardware-reference-home"@,
        r.recovery_state_fault.message@ == "mock state fault applied"@,
        r.radio_fault.state_report matches Some(rep) && rep@.updates[0].attributes["mock_sequence"@]
            == JsonView::Number(decimal_text(2)),
        r.offline_fault.state_report matches Some(rep) && rep@.updates[0].attributes["mock_sequence"@]
            == JsonView::Number(decimal_text(3)),
        r.recovery_online_fault.state_report matches Some(rep) && rep@.updates.len() == 1
            && rep@.updates[0].attributes["mock_sequence"@] == JsonView::Number(decimal_text(4)),
        r.recovery_state_fault.state_report matches Some(rep) && rep@.updates.len() == 1
            && rep@.updates[0].state == StateView::Off && rep@.updates[0].attributes["mock_sequence"@]
            == JsonView::Number(decimal_text(5)),
{
    let mut hardware = MockHardwareBus::reference_home();
    let mut runtime = HomeRuntime::with_default_policy();
    proof {
        reveal_strlit("light.mock_thread_lamp");
        assert("light.mock_thread_lamp"@[5] == '.');
    }
    let entity_id = mock_entity_id("light.mock_thread_lamp");
    let ghost lamp = entity_id@;
    let listed = hardware.entities();
    proof {
        assert(reference_home_entities().contains_key(lamp));
        assert(crate::keyed::seq_to_map(listed@).map_values(|e: MockIoTEntity| e@).contains_key(lamp));
    }
    let discovery = hardware.discovery_report();
    let device_count = discovery.devices.len();
    proof {
        let ds = discovery.devices@;
        let mv = ds.map_values(|d: ConnectivityDevice| d@);
        let want = hardware.entity_seq().map_values(|e: MockIoTEntity| discovered_device(e@));
        assert(mv == want);
        assert(ds.len() == listed@.len());
        assert forall|i: int| 0 <= i < ds.len() implies (#[trigger] ds[i]).entities@.len() == 1 by {
            assert(mv[i] == ds[i]@);
            assert(want[i] == discovered_device(listed@[i]@));
            assert(ds[i]@.entities.len() == ds[i].entities@.len());
        }
        crate::connectivity::lemma_one_entity_each(ds);
        let j = choose|j: int| 0 <= j < listed@.len() && #[trigger] listed@[j].key() == lamp;
        assert(mv[j] == ds[j]@);
        assert(want[j] == discovered_device(listed@[j]@));
        assert(ds[j]@ == discovered_device(listed@[j]@));
        assert(ds[j]@.entities[0].entity_id == lamp);
        assert(ds[j].entities@[0]@.entity_id == lamp);
        crate::connectivity::lemma_report_entities_filed(entity_views(runtime.entities()), ds);
        assert(ds[j].entities@[0].entity_id@ == lamp);
    }
    let ghost ds0 = discovery.devices@;
    let ghost lseq = listed@;
    let ghost before_discovery = entity_views(runtime.entities());
    let discovery_apply_result = runtime.apply_connectivity_report(discovery);
    proof {
        assert(entity_views(runtime.entities()).contains_key(lamp));
        crate::keyed::lemma_sorted_len(listed@);
        lemma_reference_home_size();
        assert(crate::keyed::seq_to_map(listed@).dom() =~= reference_home_entities().dom());
        assert(listed@.len() == 7);
        let mv = ds0.map_values(|d: ConnectivityDevice| d@);
        let want = hardware.entity_seq().map_values(|e: MockIoTEntity| discovered_device(e@));
        crate::connectivity::lemma_report_entities_filed(before_discovery, ds0);
        assert forall|i: int| 0 <= i < lseq.len() implies entity_views(runtime.entities()).contains_key(
            (#[trigger] lseq[i]).entity_id@,
        ) by {
            assert(mv[i] == ds0[i]@);
            assert(want[i] == discovered_device(listed@[i]@));
            assert(ds0[i]@.entities[0].entity_id == listed@[i].entity_id@);
            assert(ds0[i].entities@[0]@.entity_id == listed@[i].entity_id@);
            assert(ds0[i].entities@[0].entity_id@ == listed@[i].entity_id@);
        }
    }
    let ghost seq_before_poll = hardware.entity_seq();
    proof {
        assert(seq_before_poll == lseq);
    }
    let poll = hardware.poll_state();
    let ghost before_poll_apply = runtime;
    let ghost poll_updates = poll.updates@;
    let ghost polled_seq = hardware@.sequence;
    proof {
        let pv = poll@.updates;
        assert(pv == seq_before_poll.map_values(|e: MockIoTEntity| update_view(e@, polled_seq)));
        assert(pv.len() == lseq.len());
        assert forall|i: int| 0 <= i < poll_updates.len() implies entity_views(runtime.entities()).contains_key(
            (#[trigger] poll_updates[i]).entity_id@,
        ) by {
            let pv = poll@.updates;
            assert(pv[i] == poll_updates[i]@);
            assert(pv[i] == update_view(lseq[i]@, polled_seq));
            assert(entity_views(runtime.entities()).contains_key(lseq[i].entity_id@));
        }
    }
    let initial_state_apply_result = runtime.apply_state_report(poll);
    proof {
        crate::connectivity::lemma_all_known(
            crate::connectivity::StateFold {
                ents: entity_views(before_poll_apply.entities()),
                events: Seq::empty(),
                updated: 0,
                unknown: Seq::empty(),
            },
            poll_updates,
        );
    }
    let latency_fault = hardware.apply_fault(MockHardwareFault::AddCommandLatency { latency_ms: 250 });
    let radio_fault = hardware.apply_fault(
        MockHardwareFault::SetRadio { entity_id: entity_id.clone(), rssi_dbm: -91, link_quality: 8 },
    );
    proof {
        reveal_strlit("rssi_dbm");
        reveal_strlit("link_quality");
        reveal_strlit("battery_percent");
        reveal_strlit("mock_sequence");
        reveal_strlit("online");
        reveal_strlit("protocol");
        assert("mock_sequence"@[0] == 'm' && "online"@[0] == 'o' && "protocol"@[0] == 'p');
        assert("rssi_dbm"@[0] != "battery_percent"@[0]);
        assert("link_quality"@[0] != "battery_percent"@[0]);
        let rep = radio_fault.state_report->0;
        let u = rep@.updates[0];
        assert(u.attributes["rssi_dbm"@] == JsonView::Number(signed_text(-91)));
        assert(u.attributes["link_quality"@] == JsonView::Number(decimal_text(8)));
    }
    let _ = apply_fault_report(&mut runtime, &radio_fault);
    let offline_fault = hardware.apply_fault(MockHardwareFault::SetOnline { entity_id: entity_id.clone(), online: false });
    let ghost before_offline = runtime;
    let offline_state_apply_result = apply_fault_report(&mut runtime, &offline_fault);
    proof {
        let rep = offline_fault.state_report->0;
        let d = choose|d: StateReport| d@ == rep@ && (offline_state_apply_result matches Some(x)
            && before_offline.state_report_outcome(&runtime, d, x));
        lemma_single_update(
            crate::connectivity::StateFold {
                ents: entity_views(before_offline.entities()),
                events: Seq::empty(),
                updated: 0,
                unknown: Seq::empty(),
            },
            d,
            lamp,
            StateView::Unavailable,
        );
        assert(runtime.entities()[lamp].state@ == StateView::Unavailable);
    }
    let command = mock_turn_on_thread_lamp_command();
    let safety_decision = runtime.execute(command.duplicate());
    proof {
        lemma_full_confidence_meets_default();
    }
    let hardware_command_result = if safety_decision.allowed {
        Some(hardware.apply_command(&command))
    } else {
        None
    };
    let recovery_online_fault = hardware.apply_fault(
        MockHardwareFault::SetOnline { entity_id: entity_id.clone(), online: true },
    );
    let recovery_state_fault = hardware.apply_fault(MockHardwareFault::SetState { entity_id, state: EntityState::Off });
    let ghost before_recovery = runtime;
    let recovery_state_apply_result = apply_fault_report(&mut runtime, &recovery_state_fault);
    proof {
        let rep = recovery_state_fault.state_report->0;
        let d = choose|d: StateReport| d@ == rep@ && (recovery_state_apply_result matches Some(x)
            && before_recovery.state_report_outcome(&runtime, d, x));
        lemma_single_update(
            crate::connectivity::StateFold {
                ents: entity_views(before_recovery.entities()),
                events: Seq::empty(),
                updated: 0,
                unknown: Seq::empty(),
            },
            d,
            lamp,
            StateView::Off,
        );
    }
    MockHardwareFaultScenarioResult {
        discovery_apply_result,
        initial_state_apply_result,
        latency_fault,
        radio_fault,
        offline_fault,
        offline_state_apply_result,
        command,
        safety_decision,
        hardware_command_result,
        recovery_online_fault,
        recovery_state_fault,
        recovery_state_apply_result,
    }
}

} // verus!
