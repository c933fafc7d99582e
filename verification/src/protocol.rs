//! The request and response shapes of the local runtime protocol.

use vstd::prelude::*;
use crate::automation::{Automation, AutomationTickResult};
use crate::command::HomeCommand;
use crate::connectivity::{ConnectivityApplyResult, ConnectivityReport, StateApplyResult, StateReport};
use crate::device::Device;
use crate::entity::{Entity, EntityId};
use crate::event::RuntimeEvent;
use crate::hardware::HardwareInventory;
use crate::runtime::{AuditEntry, RuntimeStatus};
use crate::safety::SafetyDecision;
use crate::scene::Scene;
use crate::service::{DomainSupport, ServiceCall, ServiceCallResult, ServiceSpec};
use crate::validation::ValidationReport;

verus! {

/// The kind of configuration a change touched.
#[derive(Debug, Clone, Copy, PartialEq, Eq, Structural)]
pub enum ConfigResource {
    Scene,
    Automation,
}

/// What a configuration request did: which item, whether it changed, and the
/// validation run that decided it, when there was one.
#[derive(Debug, Clone)]
pub struct ConfigChangeResult {
    pub resource: ConfigResource,
    pub id: String,
    pub changed: bool,
    pub validation: Option<ValidationReport>,
}

/// A request to the runtime.
#[derive(Debug, Clone)]
#[allow(inconsistent_fields)]
pub enum RuntimeRequest {
    Status,
    Validate,
    ListDevices,
    ListEntities,
    ListAutomations,
    ListServices,
    ListDomains,
    HardwareInventory,
    Audit { limit: Option<usize> },
    Events { limit: Option<usize> },
    ListScenes,
    Evaluate { command: HomeCommand },
    Execute { command: HomeCommand },
    CallService { call: ServiceCall },
    UpsertScene { scene: Scene },
    DeleteScene { scene_id: EntityId },
    UpsertAutomation { automation: Automation },
    DeleteAutomation { automation_id: String },
    ApplyConnectivityReport { report: ConnectivityReport },
    ApplyStateReport { report: StateReport },
    RunAutomationTick { now_hh_mm: String },
}

/// A command to execute, or only to evaluate when `dry_run` is set.
#[derive(Debug, Clone)]
pub struct ExecuteCommandRequest {
    pub command: HomeCommand,
    pub dry_run: bool,
}

/// The runtime's answer to a request.
#[derive(Debug, Clone)]
#[allow(inconsistent_fields)]
pub enum RuntimeResponse {
    Status { status: RuntimeStatus },
    Validation { report: ValidationReport },
    Devices { devices: Vec<DeviceSnapshot> },
    Entities { entities: Vec<EntitySnapshot> },
    Automations { automations: Vec<Automation> },
    Services { services: Vec<ServiceSpec> },
    Domains { domains: Vec<DomainSupport> },
    HardwareInventory { inventory: HardwareInventory },
    Audit { entries: Vec<AuditEntry> },
    Events { events: Vec<RuntimeEvent> },
    Scenes { scenes: Vec<Scene> },
    Command { result: CommandResponse },
    ServiceCall { result: ServiceCallResult },
    ConfigChanged { result: ConfigChangeResult },
    ConnectivityApplied { result: ConnectivityApplyResult },
    StateApplied { result: StateApplyResult },
    AutomationTick { result: AutomationTickResult },
    Error { error: String },
}

/// The decision on a command, and whether it was carried out.
#[derive(Debug, Clone)]
pub struct CommandResponse {
    pub decision: SafetyDecision,
    pub executed: bool,
}

/// A copy of an entity as listed to clients.
#[derive(Debug, Clone)]
pub struct EntitySnapshot {
    pub entity: Entity,
}

/// A copy of a device as listed to clients.
#[derive(Debug, Clone)]
pub struct DeviceSnapshot {
    pub device: Device,
}

impl EntitySnapshot {
    /// A snapshot holding a copy of `entity`.
    pub fn of(entity: &Entity) -> (r: EntitySnapshot)
        ensures
            r.entity@ == entity@,
    {
        EntitySnapshot { entity: entity.duplicate() }
    }
}

impl DeviceSnapshot {
    /// A snapshot holding a copy of `device`.
    pub fn of(device: &Device) -> (r: DeviceSnapshot)
        ensures
            r.device@ == device@,
    {
        DeviceSnapshot { device: device.duplicate() }
    }
}

} // verus!
