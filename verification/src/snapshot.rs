//! A persisted copy of the runtime's configuration.

use vstd::prelude::*;
use crate::automation::Automation;
use crate::device::Device;
use crate::entity::Entity;
use crate::scene::Scene;
use crate::validation::ValidationReport;

verus! {

/// The configuration of a runtime, as saved: devices, entities, scenes and automations.
#[derive(Debug, Clone)]
pub struct RuntimeSnapshot {
    pub schema: String,
    pub devices: Vec<Device>,
    pub entities: Vec<Entity>,
    pub scenes: Vec<Scene>,
    pub automations: Vec<Automation>,
}

/// What restoring a snapshot did, with the validation that decided it.
#[derive(Debug, Clone)]
pub struct SnapshotApplyResult {
    pub changed: bool,
    pub devices: usize,
    pub entities: usize,
    pub scenes: usize,
    pub automations: usize,
    pub validation: ValidationReport,
}

/// The schema name snapshots are written under.
pub open spec fn snapshot_schema() -> Seq<char> {
    "genie.home.runtime_snapshot.v1"@
}

impl RuntimeSnapshot {
    /// A snapshot of this configuration under the current schema.
    pub fn new(
        devices: Vec<Device>,
        entities: Vec<Entity>,
        scenes: Vec<Scene>,
        automations: Vec<Automation>,
    ) -> (r: RuntimeSnapshot)
        ensures
            r.schema@ == snapshot_schema(),
            r.devices == devices,
            r.entities == entities,
            r.scenes == scenes,
            r.automations == automations,
    {
        RuntimeSnapshot {
            schema: String::from_str("genie.home.runtime_snapshot.v1"),
            devices,
            entities,
            scenes,
            automations,
        }
    }
}

} // verus!
