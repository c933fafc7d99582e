//! Automations: enabled rules with a trigger, conditions and actions.

use vstd::prelude::*;
use crate::command::HomeAction;
use crate::entity::{EntityId, EntityState};
use crate::keyed::Keyed;
use crate::safety::SafetyDecision;

verus! {

/// What starts an automation.
#[derive(Debug, Clone)]
pub enum AutomationTrigger {
    /// A scheduler tick at this `HH:MM`.
    TimeOfDay { hh_mm: String },
}

/// A condition that must hold for a triggered automation to run.
#[derive(Debug, Clone)]
pub enum AutomationCondition {
    EntityStateIs { entity_id: EntityId, state: EntityState },
}

/// A rule: when the trigger fires and every condition holds, run the actions.
#[derive(Debug, Clone)]
pub struct Automation {
    pub id: String,
    pub display_name: String,
    pub enabled: bool,
    pub trigger: AutomationTrigger,
    pub conditions: Vec<AutomationCondition>,
    pub actions: Vec<HomeAction>,
}

impl Keyed for Automation {
    open spec fn key(&self) -> Seq<char> {
        self.id@
    }

    fn key_str(&self) -> (r: &str) {
        self.id.as_str()
    }

    fn copy_item(&self) -> (r: Self) {
        self.duplicate()
    }
}

impl Automation {
    /// An enabled automation with no conditions and no actions.
    pub fn new(id: &str, display_name: &str, trigger: AutomationTrigger) -> (r: Automation)
        ensures
            r.id@ == id@,
            r.display_name@ == display_name@,
            r.enabled,
            r.trigger == trigger,
            r.conditions@.len() == 0,
            r.actions@.len() == 0,
    {
        Automation {
            id: String::from_str(id),
            display_name: String::from_str(display_name),
            enabled: true,
            trigger,
            conditions: Vec::new(),
            actions: Vec::new(),
        }
    }

    /// Appends `condition` to the conditions.
    pub fn with_condition(self, condition: AutomationCondition) -> (r: Automation)
        ensures
            r.conditions@ == self.conditions@.push(condition),
            r.id == self.id,
            r.display_name == self.display_name,
            r.enabled == self.enabled,
            r.trigger == self.trigger,
            r.actions == self.actions,
    {
        let mut conditions = self.conditions;
        conditions.push(condition);
        Automation { conditions, ..self }
    }

    /// Appends `action` to the actions.
    pub fn with_action(self, action: HomeAction) -> (r: Automation)
        ensures
            r.actions@ == self.actions@.push(action),
            r.id == self.id,
            r.display_name == self.display_name,
            r.enabled == self.enabled,
            r.trigger == self.trigger,
            r.conditions == self.conditions,
    {
        let mut actions = self.actions;
        actions.push(action);
        Automation { actions, ..self }
    }
}

/// What one scheduler tick did.
#[derive(Debug, Clone)]
pub struct AutomationTickResult {
    pub now_hh_mm: String,
    pub automations_checked: usize,
    pub automations_triggered: usize,
    pub actions_executed: usize,
    pub blocked: Vec<AutomationBlock>,
}

/// An automation that matched but did not run because an action was refused.
#[derive(Debug, Clone)]
pub struct AutomationBlock {
    pub automation_id: String,
    pub decision: SafetyDecision,
}

/// `a` and `b` are the same automation: id, name, switch, trigger, conditions and actions.
pub open spec fn same_automation(a: Automation, b: Automation) -> bool {
    &&& a.id@ == b.id@
    &&& a.display_name@ == b.display_name@
    &&& a.enabled == b.enabled
    &&& crate::validation::trigger_time(a.trigger) == crate::validation::trigger_time(b.trigger)
    &&& a.conditions@ == b.conditions@
    &&& crate::scene::action_views(a.actions@) == crate::scene::action_views(b.actions@)
}

impl Automation {
    /// A copy of this automation.
    pub fn duplicate(&self) -> (r: Automation)
        ensures
            same_automation(r, *self),
    {
        let trigger = match &self.trigger {
            AutomationTrigger::TimeOfDay { hh_mm } => AutomationTrigger::TimeOfDay { hh_mm: hh_mm.clone() },
        };
        let mut conditions: Vec<AutomationCondition> = Vec::new();
        let mut i: usize = 0;
        while i < self.conditions.len()
            invariant
                i <= self.conditions@.len(),
                conditions@ == self.conditions@.take(i as int),
            decreases self.conditions@.len() - i,
        {
            let c = match &self.conditions[i] {
                AutomationCondition::EntityStateIs { entity_id, state } => AutomationCondition::EntityStateIs {
                    entity_id: entity_id.clone(),
                    state: state.clone(),
                },
            };
            conditions.push(c);
            assert(conditions@ =~= self.conditions@.take(i + 1));
            i = i + 1;
        }
        assert(self.conditions@.take(i as int) =~= self.conditions@);
        Automation {
            id: self.id.clone(),
            display_name: self.display_name.clone(),
            enabled: self.enabled,
            trigger,
            conditions,
            actions: crate::scene::duplicate_actions(&self.actions),
        }
    }
}

} // verus!
