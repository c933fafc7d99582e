//! Runtime events: the observable record of state changes, service calls,
//! reports and scheduler ticks.

use vstd::prelude::*;
use crate::command::CommandOrigin;
use crate::connectivity::ConnectivityProtocol;
use crate::entity::{EntityId, EntityState, StateView};
use crate::hardware::HardwareAdapterState;

verus! {

#[verifier::external_type_specification]
#[verifier::external_body]
pub struct ExOffsetDateTime(time::OffsetDateTime);

/// `time::OffsetDateTime::now_utc`: the current date and time in UTC. Nothing
/// is claimed of the value, which depends on the clock.
pub assume_specification[ time::OffsetDateTime::now_utc ]() -> time::OffsetDateTime;

/// `Clone::clone` of `time::OffsetDateTime`, which derives `Clone` and `Copy`:
/// the clone is the same value.
pub assume_specification[ <time::OffsetDateTime as Clone>::clone ](t: &time::OffsetDateTime) -> (r: time::OffsetDateTime)
    ensures
        r == *t,
;

/// A timestamped runtime event.
#[derive(Debug, Clone)]
pub struct RuntimeEvent {
    pub ts: time::OffsetDateTime,
    pub kind: RuntimeEventKind,
}

/// What happened.
#[derive(Debug, Clone)]
pub enum RuntimeEventKind {
    StateChanged {
        entity_id: EntityId,
        old_state: EntityState,
        new_state: EntityState,
        origin: CommandOrigin,
    },
    ServiceCalled { domain: String, service: String, targets: usize, executed: usize },
    ConnectivityApplied { source: String, devices_seen: usize, entities_upserted: usize },
    StateReportApplied {
        source: String,
        updates_seen: usize,
        entities_updated: usize,
        unknown_entities: usize,
    },
    GenieOsHeartbeat { source: String, monotonic_ms: u64 },
    GenieOsAdapterStatus {
        source: String,
        protocol: ConnectivityProtocol,
        state: HardwareAdapterState,
    },
    AutomationTick {
        now_hh_mm: String,
        automations_triggered: usize,
        actions_executed: usize,
        blocked: usize,
    },
}

/// The mathematical value of an event kind.
pub enum EventView {
    StateChanged { entity: Seq<char>, old_state: StateView, new_state: StateView, origin: CommandOrigin },
    ServiceCalled { domain: Seq<char>, service: Seq<char>, targets: usize, executed: usize },
    ConnectivityApplied { source: Seq<char>, devices_seen: usize, entities_upserted: usize },
    StateReportApplied {
        source: Seq<char>,
        updates_seen: usize,
        entities_updated: usize,
        unknown_entities: usize,
    },
    GenieOsHeartbeat { source: Seq<char>, monotonic_ms: u64 },
    GenieOsAdapterStatus {
        source: Seq<char>,
        protocol: ConnectivityProtocol,
        state: HardwareAdapterState,
    },
    AutomationTick {
        now_hh_mm: Seq<char>,
        automations_triggered: usize,
        actions_executed: usize,
        blocked: usize,
    },
}

impl View for RuntimeEventKind {
    type V = EventView;

    open spec fn view(&self) -> EventView {
        match self {
            RuntimeEventKind::StateChanged { entity_id, old_state, new_state, origin } => EventView::StateChanged {
                entity: entity_id@,
                old_state: old_state@,
                new_state: new_state@,
                origin: *origin,
            },
            RuntimeEventKind::ServiceCalled { domain, service, targets, executed } => EventView::ServiceCalled {
                domain: domain@,
                service: service@,
                targets: *targets,
                executed: *executed,
            },
            RuntimeEventKind::ConnectivityApplied { source, devices_seen, entities_upserted } =>
                EventView::ConnectivityApplied {
                source: source@,
                devices_seen: *devices_seen,
                entities_upserted: *entities_upserted,
            },
            RuntimeEventKind::StateReportApplied {
                source,
                updates_seen,
                entities_updated,
                unknown_entities,
            } => EventView::StateReportApplied {
                source: source@,
                updates_seen: *updates_seen,
                entities_updated: *entities_updated,
                unknown_entities: *unknown_entities,
            },
            RuntimeEventKind::GenieOsHeartbeat { source, monotonic_ms } => EventView::GenieOsHeartbeat {
                source: source@,
                monotonic_ms: *monotonic_ms,
            },
            RuntimeEventKind::GenieOsAdapterStatus { source, protocol, state } =>
                EventView::GenieOsAdapterStatus { source: source@, protocol: *protocol, state: *state },
            RuntimeEventKind::AutomationTick {
                now_hh_mm,
                automations_triggered,
                actions_executed,
                blocked,
            } => EventView::AutomationTick {
                now_hh_mm: now_hh_mm@,
                automations_triggered: *automations_triggered,
                actions_executed: *actions_executed,
                blocked: *blocked,
            },
        }
    }
}

/// The kinds of a list of events, in order.
pub open spec fn event_views(events: Seq<RuntimeEvent>) -> Seq<EventView> {
    events.map_values(|e: RuntimeEvent| e.kind@)
}

impl RuntimeEvent {
    /// An event of this kind stamped with the current time.
    pub fn new(kind: RuntimeEventKind) -> (r: RuntimeEvent)
        ensures
            r.kind == kind,
    {
        RuntimeEvent { ts: time::OffsetDateTime::now_utc(), kind }
    }

    /// A copy of this event: same time stamp, same kind.
    pub fn duplicate(&self) -> (r: RuntimeEvent)
        ensures
            r.ts == self.ts,
            r.kind@ == self.kind@,
    {
        RuntimeEvent { ts: self.ts, kind: self.kind.duplicate() }
    }
}

impl RuntimeEventKind {
    /// A copy of this event kind.
    pub fn duplicate(&self) -> (r: RuntimeEventKind)
        ensures
            r@ == self@,
    {
        match self {
            RuntimeEventKind::StateChanged { entity_id, old_state, new_state, origin } =>
                RuntimeEventKind::StateChanged {
                entity_id: entity_id.clone(),
                old_state: old_state.clone(),
                new_state: new_state.clone(),
                origin: *origin,
            },
            RuntimeEventKind::ServiceCalled { domain, service, targets, executed } =>
                RuntimeEventKind::ServiceCalled {
                domain: domain.clone(),
                service: service.clone(),
                targets: *targets,
                executed: *executed,
            },
            RuntimeEventKind::ConnectivityApplied { source, devices_seen, entities_upserted } =>
                RuntimeEventKind::ConnectivityApplied {
                source: source.clone(),
                devices_seen: *devices_seen,
                entities_upserted: *entities_upserted,
            },
            RuntimeEventKind::StateReportApplied {
                source,
                updates_seen,
                entities_updated,
                unknown_entities,
            } => RuntimeEventKind::StateReportApplied {
                source: source.clone(),
                updates_seen: *updates_seen,
                entities_updated: *entities_updated,
                unknown_entities: *unknown_entities,
            },
            RuntimeEventKind::GenieOsHeartbeat { source, monotonic_ms } =>
                RuntimeEventKind::GenieOsHeartbeat { source: source.clone(), monotonic_ms: *monotonic_ms },
            RuntimeEventKind::GenieOsAdapterStatus { source, protocol, state } =>
                RuntimeEventKind::GenieOsAdapterStatus {
                source: source.clone(),
                protocol: *protocol,
                state: *state,
            },
            RuntimeEventKind::AutomationTick {
                now_hh_mm,
                automations_triggered,
                actions_executed,
                blocked,
            } => RuntimeEventKind::AutomationTick {
                now_hh_mm: now_hh_mm.clone(),
                automations_triggered: *automations_triggered,
                actions_executed: *actions_executed,
                blocked: *blocked,
            },
        }
    }
}

} // verus!
