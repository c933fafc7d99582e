//! The in-memory runtime: registries, safety-gated execution, audit and events.

use vstd::prelude::*;
use crate::automation::{Automation, AutomationBlock, AutomationCondition, AutomationTickResult, AutomationTrigger};
use crate::command::{
    opt_string_view, ActionView, CommandOrigin, CommandView, HomeAction, HomeActionKind, HomeCommand,
};
use crate::device::{Device, DeviceId, DeviceRegistry, DeviceView, device_views};
use crate::entity::{
    Capability, CapabilitySet, Entity, EntityView, attribute_views, entity_views, EntityGraph, EntityId, EntityState, SafetyClass, StateView, state_available, same_state,
};
use crate::connectivity::{
    ConnectivityApplyResult, ConnectivityDevice, ConnectivityEntity, ConnectivityReport,
    EntityStateUpdate, StateApplyResult, StateFold, StateReport, apply_state_update,
    apply_state_updates,
    connectivity_device_id, file_device_entities, file_report_devices, file_report_entities,
    lemma_reported_count_prefix, reported_device_view, reported_entity_count, reported_entity_view,
};
use crate::automation::same_automation;
use crate::command::{CONFIDENCE_ONE, TargetSelector};
use crate::hardware::{HardwareAdapterStatus, default_hardware_inventory, hardware_table};
use crate::keyed::{keys_sorted, seq_to_map};
use crate::protocol::{
    CommandResponse, ConfigChangeResult, ConfigResource, DeviceSnapshot, EntitySnapshot, RuntimeRequest,
    RuntimeResponse,
};
use crate::scene::same_scene;
use crate::validation::{
    automation_candidate_issues, has_error, issue_views, runtime_issues, scene_candidate_issues,
    validate_runtime,
};
use crate::event::{EventView, RuntimeEvent, RuntimeEventKind, event_views};
use crate::keyed::KeyedList;
use crate::safety::{
    DecisionView, SafetyDecision, SafetyPolicy, SafetyReason, allow_view, block_view,
    default_policy, evaluate_command, evaluation,
};
use crate::scene::{Scene, action_views};
use crate::service::{
    CallView, DomainSupport, ServiceActionResult, ServiceCall, ServiceCallError, ServiceCallResult,
    ServiceSpec, command_views, domain_matrix, domain_support_matrix, error_text, service_call_to_commands,
    service_commands, service_specs, service_table,
};

verus! {

/// One audited execution request: when, what, and what the policy decided.
#[derive(Debug, Clone)]
pub struct AuditEntry {
    pub ts: time::OffsetDateTime,
    pub command: HomeCommand,
    pub decision: SafetyDecision,
}

/// The runtime: devices, entities, scenes, automations, policy, audit log and event log.
#[derive(Debug, Clone)]
pub struct HomeRuntime {
    devices: DeviceRegistry,
    graph: EntityGraph,
    scenes: KeyedList<Scene>,
    automations: KeyedList<Automation>,
    policy: SafetyPolicy,
    audit: Vec<AuditEntry>,
    events: Vec<RuntimeEvent>,
}

// ---------------------------------------------------------------------------
// The model: what actions do to entity states.
// ---------------------------------------------------------------------------

/// The entity states of a graph, by id.
pub open spec fn states_of(g: Map<Seq<char>, Entity>) -> Map<Seq<char>, StateView> {
    g.map_values(|e: Entity| e.state@)
}

/// `g2` has the entities of `g1`, differing at most in their states.
pub open spec fn same_shape(g1: Map<Seq<char>, Entity>, g2: Map<Seq<char>, Entity>) -> bool {
    &&& g1.dom() == g2.dom()
    &&& forall|k: Seq<char>| #[trigger] g1.contains_key(k) ==> g2[k] == (Entity { state: g2[k].state, ..g1[k] })
}

/// The state an action leaves behind on an entity in state `cur`.
pub open spec fn next_state(kind: HomeActionKind, cur: StateView) -> StateView {
    match kind {
        HomeActionKind::TurnOn => StateView::On,
        HomeActionKind::TurnOff => StateView::Off,
        HomeActionKind::Lock => StateView::Locked,
        HomeActionKind::Unlock => StateView::Unlocked,
        HomeActionKind::Open => StateView::Open,
        HomeActionKind::Close => StateView::Closed,
        HomeActionKind::Start => StateView::On,
        HomeActionKind::Stop | HomeActionKind::Pause => StateView::Off,
        HomeActionKind::ReturnToBase => StateView::Text("returning"@),
        HomeActionKind::Arm => StateView::Text("armed"@),
        HomeActionKind::Disarm => StateView::Text("disarmed"@),
        HomeActionKind::Toggle => match cur {
            StateView::On => StateView::Off,
            StateView::Off => StateView::On,
            other => other,
        },
        HomeActionKind::SetValue | HomeActionKind::ActivateScene => cur,
    }
}

/// One action applied to the states: the new states, and the state-change
/// event it emits when the state changes. Unknown targets are left alone.
pub open spec fn step(states: Map<Seq<char>, StateView>, a: ActionView, origin: CommandOrigin) -> (
    Map<Seq<char>, StateView>,
    Seq<EventView>,
) {
    if states.contains_key(a.entity) {
        let cur = states[a.entity];
        let nxt = next_state(a.kind, cur);
        (
            states.insert(a.entity, nxt),
            if !same_state(cur, nxt) {
                seq![
                    EventView::StateChanged {
                        entity: a.entity,
                        old_state: cur,
                        new_state: nxt,
                        origin,
                    },
                ]
            } else {
                Seq::empty()
            },
        )
    } else {
        (states, Seq::empty())
    }
}

/// Actions applied in order.
pub open spec fn run_actions(
    states: Map<Seq<char>, StateView>,
    acts: Seq<ActionView>,
    origin: CommandOrigin,
) -> (Map<Seq<char>, StateView>, Seq<EventView>)
    decreases acts.len(),
{
    if acts.len() == 0 {
        (states, Seq::empty())
    } else {
        let p = run_actions(states, acts.drop_last(), origin);
        let q = step(p.0, acts.last(), origin);
        (q.0, p.1 + q.1)
    }
}

/// What an allowed command does: a scene activation runs the scene's actions,
/// any other command its own action.
pub open spec fn command_effect(
    states: Map<Seq<char>, StateView>,
    scenes: Map<Seq<char>, Scene>,
    c: CommandView,
) -> (Map<Seq<char>, StateView>, Seq<EventView>) {
    if c.action.kind == HomeActionKind::ActivateScene {
        if scenes.contains_key(c.action.entity) {
            run_actions(states, action_views(scenes[c.action.entity].actions@), c.origin)
        } else {
            (states, Seq::empty())
        }
    } else {
        step(states, c.action, c.origin)
    }
}

/// The command by which a scene's action is checked: the scene command's origin,
/// confirmation and reason, with no approval of its own.
pub open spec fn child_command(c: CommandView, a: ActionView) -> CommandView {
    CommandView { origin: c.origin, action: a, confirmed: c.confirmed, approval: None, reason: c.reason }
}

/// The scene's actions from `i` on, checked in order; the first refusal blocks the scene.
pub open spec fn scene_children_verdict(
    g: Map<Seq<char>, Entity>,
    acts: Seq<ActionView>,
    c: CommandView,
    p: SafetyPolicy,
    i: int,
) -> DecisionView
    decreases acts.len() - i,
{
    if i < 0 || i >= acts.len() {
        allow_view()
    } else {
        let d = evaluation(g, child_command(c, acts[i]), p);
        if !d.allowed {
            block_view(SafetyReason::SceneActionBlocked, "scene action blocked: "@ + d.message)
        } else {
            scene_children_verdict(g, acts, c, p, i + 1)
        }
    }
}

/// A scene whose nested actions pass from `i` on has every one of them allowed.
pub proof fn lemma_scene_children_allowed(
    g: Map<Seq<char>, Entity>,
    acts: Seq<ActionView>,
    c: CommandView,
    p: SafetyPolicy,
    i: int,
)
    requires
        0 <= i,
        scene_children_verdict(g, acts, c, p, i).allowed,
    ensures
        forall|k: int| i <= k < acts.len() ==> (#[trigger] evaluation(g, child_command(c, acts[k]), p)).allowed,
    decreases acts.len() - i,
{
    if i < acts.len() {
        lemma_scene_children_allowed(g, acts, c, p, i + 1);
    }
}

/// The decision on a scene activation: the activation itself, then a registered
/// definition, then every nested action.
pub open spec fn scene_verdict(
    g: Map<Seq<char>, Entity>,
    scenes: Map<Seq<char>, Scene>,
    c: CommandView,
    p: SafetyPolicy,
) -> DecisionView {
    let base = evaluation(g, c, p);
    if !base.allowed {
        base
    } else if !scenes.contains_key(c.action.entity) {
        block_view(
            SafetyReason::SceneDefinitionMissing,
            "scene entity exists but no scene definition is registered"@,
        )
    } else {
        scene_children_verdict(g, action_views(scenes[c.action.entity].actions@), c, p, 0)
    }
}

/// The decision taken before executing `c`.
pub open spec fn execution_verdict(
    g: Map<Seq<char>, Entity>,
    scenes: Map<Seq<char>, Scene>,
    c: CommandView,
    p: SafetyPolicy,
) -> DecisionView {
    if c.action.kind == HomeActionKind::ActivateScene {
        scene_verdict(g, scenes, c, p)
    } else {
        evaluation(g, c, p)
    }
}

pub proof fn lemma_same_shape_refl(g: Map<Seq<char>, Entity>)
    ensures
        same_shape(g, g),
{
}

pub proof fn lemma_same_shape_trans(
    g1: Map<Seq<char>, Entity>,
    g2: Map<Seq<char>, Entity>,
    g3: Map<Seq<char>, Entity>,
)
    requires
        same_shape(g1, g2),
        same_shape(g2, g3),
    ensures
        same_shape(g1, g3),
{
    assert forall|k: Seq<char>| #[trigger] g1.contains_key(k) implies g3[k] == (Entity {
        state: g3[k].state,
        ..g1[k]
    }) by {
        assert(g2.contains_key(k));
    }
}


/// Every available state in `s1` is still there, and available, in `s2`.
pub open spec fn avail_kept(s1: Map<Seq<char>, StateView>, s2: Map<Seq<char>, StateView>) -> bool {
    &&& s1.dom() == s2.dom()
    &&& forall|k: Seq<char>| #[trigger] s1.contains_key(k) && state_available(s1[k]) ==> state_available(s2[k])
}

pub proof fn lemma_avail_trans(
    s1: Map<Seq<char>, StateView>,
    s2: Map<Seq<char>, StateView>,
    s3: Map<Seq<char>, StateView>,
)
    requires
        avail_kept(s1, s2),
        avail_kept(s2, s3),
    ensures
        avail_kept(s1, s3),
{
    assert forall|k: Seq<char>| #[trigger] s1.contains_key(k) && state_available(s1[k]) implies state_available(s3[k]) by {
        assert(s2.contains_key(k));
    }
}

pub proof fn lemma_step_avail(s: Map<Seq<char>, StateView>, a: ActionView, o: CommandOrigin)
    ensures
        avail_kept(s, step(s, a, o).0),
{
    let s2 = step(s, a, o).0;
    if s.contains_key(a.entity) {
        assert(s2.dom() =~= s.dom());
    }
}

pub proof fn lemma_run_actions_avail(s: Map<Seq<char>, StateView>, acts: Seq<ActionView>, o: CommandOrigin)
    ensures
        avail_kept(s, run_actions(s, acts, o).0),
    decreases acts.len(),
{
    if acts.len() > 0 {
        lemma_run_actions_avail(s, acts.drop_last(), o);
        let p = run_actions(s, acts.drop_last(), o);
        lemma_step_avail(p.0, acts.last(), o);
        lemma_avail_trans(s, p.0, step(p.0, acts.last(), o).0);
    }
}

pub proof fn lemma_effect_avail(s: Map<Seq<char>, StateView>, scenes: Map<Seq<char>, Scene>, c: CommandView)
    ensures
        avail_kept(s, command_effect(s, scenes, c).0),
{
    if c.action.kind == HomeActionKind::ActivateScene {
        if scenes.contains_key(c.action.entity) {
            lemma_run_actions_avail(s, action_views(scenes[c.action.entity].actions@), c.origin);
        }
    } else {
        lemma_step_avail(s, c.action, c.origin);
    }
}

/// An allowed evaluation stays allowed when states change but no entity loses availability.
pub proof fn lemma_evaluation_stable(
    g1: Map<Seq<char>, Entity>,
    g2: Map<Seq<char>, Entity>,
    c: CommandView,
    p: SafetyPolicy,
)
    requires
        same_shape(g1, g2),
        avail_kept(states_of(g1), states_of(g2)),
        evaluation(g1, c, p).allowed,
    ensures
        evaluation(g2, c, p) == evaluation(g1, c, p),
        evaluation(g1, c, p) == allow_view(),
{
    let k = c.action.entity;
    if g1.contains_key(k) {
        assert(g2[k] == (Entity { state: g2[k].state, ..g1[k] }));
        assert(states_of(g1)[k] == g1[k].state@);
        assert(states_of(g2)[k] == g2[k].state@);
        assert(g2.contains_key(k));
        assert(states_of(g1).contains_key(k));
        if state_available(g1[k].state@) {
            assert(state_available(g2[k].state@));
        }
        assert(g2[k].capabilities == g1[k].capabilities);
        assert(g2[k].safety_class == g1[k].safety_class);
    } else {
        assert(!g2.contains_key(k));
    }
}

proof fn lemma_children_stable(
    g1: Map<Seq<char>, Entity>,
    g2: Map<Seq<char>, Entity>,
    acts: Seq<ActionView>,
    c: CommandView,
    p: SafetyPolicy,
    i: int,
)
    requires
        same_shape(g1, g2),
        avail_kept(states_of(g1), states_of(g2)),
        scene_children_verdict(g1, acts, c, p, i).allowed,
    ensures
        scene_children_verdict(g2, acts, c, p, i) == allow_view(),
        scene_children_verdict(g1, acts, c, p, i) == allow_view(),
    decreases acts.len() - i,
{
    if 0 <= i < acts.len() {
        let d = evaluation(g1, child_command(c, acts[i]), p);
        if d.allowed {
            lemma_evaluation_stable(g1, g2, child_command(c, acts[i]), p);
            lemma_children_stable(g1, g2, acts, c, p, i + 1);
        }
    }
}

/// An allowed execution decision stays allowed when states change but no entity
/// loses availability; scenes and policy being the same.
pub proof fn lemma_verdict_stable(
    g1: Map<Seq<char>, Entity>,
    g2: Map<Seq<char>, Entity>,
    scenes: Map<Seq<char>, Scene>,
    c: CommandView,
    p: SafetyPolicy,
)
    requires
        same_shape(g1, g2),
        avail_kept(states_of(g1), states_of(g2)),
        execution_verdict(g1, scenes, c, p).allowed,
    ensures
        execution_verdict(g2, scenes, c, p) == allow_view(),
        execution_verdict(g1, scenes, c, p) == allow_view(),
{
    lemma_evaluation_stable(g1, g2, c, p);
    if c.action.kind == HomeActionKind::ActivateScene && scenes.contains_key(c.action.entity) {
        lemma_children_stable(g1, g2, action_views(scenes[c.action.entity].actions@), c, p, 0);
    }
}

/// Commands applied in order.
pub open spec fn run_commands(
    states: Map<Seq<char>, StateView>,
    scenes: Map<Seq<char>, Scene>,
    cmds: Seq<CommandView>,
) -> (Map<Seq<char>, StateView>, Seq<EventView>)
    decreases cmds.len(),
{
    if cmds.len() == 0 {
        (states, Seq::empty())
    } else {
        let p = run_commands(states, scenes, cmds.drop_last());
        let q = command_effect(p.0, scenes, cmds.last());
        (q.0, p.1 + q.1)
    }
}

pub proof fn lemma_run_commands_avail(
    s: Map<Seq<char>, StateView>,
    scenes: Map<Seq<char>, Scene>,
    cmds: Seq<CommandView>,
)
    ensures
        avail_kept(s, run_commands(s, scenes, cmds).0),
    decreases cmds.len(),
{
    if cmds.len() > 0 {
        lemma_run_commands_avail(s, scenes, cmds.drop_last());
        let p = run_commands(s, scenes, cmds.drop_last());
        lemma_effect_avail(p.0, scenes, cmds.last());
        lemma_avail_trans(s, p.0, command_effect(p.0, scenes, cmds.last()).0);
    }
}


// ---------------------------------------------------------------------------
// The model of a scheduler tick.
// ---------------------------------------------------------------------------

/// A graph of the shape of `g0` whose states are `s`.
pub open spec fn graph_for(g0: Map<Seq<char>, Entity>, s: Map<Seq<char>, StateView>) -> Map<Seq<char>, Entity> {
    choose|g: Map<Seq<char>, Entity>| same_shape(g0, g) && states_of(g) == s
}

/// The execution decision on `c` when the entities have the shape of `g0` and states `s`.
pub open spec fn verdict_at(
    g0: Map<Seq<char>, Entity>,
    s: Map<Seq<char>, StateView>,
    scenes: Map<Seq<char>, Scene>,
    c: CommandView,
    p: SafetyPolicy,
) -> DecisionView {
    execution_verdict(graph_for(g0, s), scenes, c, p)
}

/// Two graphs of one shape with the same states get the same decisions.
pub proof fn lemma_verdict_congruent(
    g0: Map<Seq<char>, Entity>,
    g1: Map<Seq<char>, Entity>,
    g2: Map<Seq<char>, Entity>,
    scenes: Map<Seq<char>, Scene>,
    c: CommandView,
    p: SafetyPolicy,
)
    requires
        same_shape(g0, g1),
        same_shape(g0, g2),
        states_of(g1) == states_of(g2),
    ensures
        execution_verdict(g1, scenes, c, p) == execution_verdict(g2, scenes, c, p),
{
    assert forall|cc: CommandView| evaluation(g1, cc, p) == evaluation(g2, cc, p) by {
        let k = cc.action.entity;
        if g1.contains_key(k) {
            assert(g0.contains_key(k));
            assert(g1[k] == (Entity { state: g1[k].state, ..g0[k] }));
            assert(g2[k] == (Entity { state: g2[k].state, ..g0[k] }));
            assert(states_of(g1)[k] == g1[k].state@);
            assert(states_of(g2)[k] == g2[k].state@);
        } else {
            assert(!g2.contains_key(k));
        }
    }
    if c.action.kind == HomeActionKind::ActivateScene && scenes.contains_key(c.action.entity) {
        lemma_children_congruent(g1, g2, action_views(scenes[c.action.entity].actions@), c, p, 0);
    }
}

proof fn lemma_children_congruent(
    g1: Map<Seq<char>, Entity>,
    g2: Map<Seq<char>, Entity>,
    acts: Seq<ActionView>,
    c: CommandView,
    p: SafetyPolicy,
    i: int,
)
    requires
        forall|cc: CommandView| evaluation(g1, cc, p) == evaluation(g2, cc, p),
    ensures
        scene_children_verdict(g1, acts, c, p, i) == scene_children_verdict(g2, acts, c, p, i),
    decreases acts.len() - i,
{
    if 0 <= i < acts.len() {
        assert(evaluation(g1, child_command(c, acts[i]), p) == evaluation(g2, child_command(c, acts[i]), p));
        lemma_children_congruent(g1, g2, acts, c, p, i + 1);
    }
}

/// The decision on `c` is that of the model for the actual graph.
pub proof fn lemma_verdict_at(
    g0: Map<Seq<char>, Entity>,
    g: Map<Seq<char>, Entity>,
    scenes: Map<Seq<char>, Scene>,
    c: CommandView,
    p: SafetyPolicy,
)
    requires
        same_shape(g0, g),
    ensures
        verdict_at(g0, states_of(g), scenes, c, p) == execution_verdict(g, scenes, c, p),
{
    let s = states_of(g);
    assert(same_shape(g0, g) && states_of(g) == s);
    let g2 = graph_for(g0, s);
    lemma_verdict_congruent(g0, g, g2, scenes, c, p);
}

/// The command by which an automation runs an action.
pub open spec fn automation_command(a: ActionView) -> CommandView {
    CommandView {
        origin: CommandOrigin::Automation,
        action: a,
        confirmed: false,
        approval: None,
        reason: None,
    }
}

pub open spec fn automation_commands(a: Automation) -> Seq<CommandView> {
    action_views(a.actions@).map_values(|x: ActionView| automation_command(x))
}

pub open spec fn trigger_matches(t: AutomationTrigger, now: Seq<char>) -> bool {
    match t {
        AutomationTrigger::TimeOfDay { hh_mm } => hh_mm@ == now,
    }
}

/// Every condition holds of the states.
pub open spec fn conditions_hold(conds: Seq<AutomationCondition>, s: Map<Seq<char>, StateView>) -> bool {
    forall|i: int| 0 <= i < conds.len() ==> match #[trigger] conds[i] {
        AutomationCondition::EntityStateIs { entity_id, state } => s.contains_key(entity_id@)
            && same_state(s[entity_id@], state@),
    }
}

/// The decision on the first refused command from `i` on, if any.
pub open spec fn first_refusal(
    g0: Map<Seq<char>, Entity>,
    s: Map<Seq<char>, StateView>,
    scenes: Map<Seq<char>, Scene>,
    cmds: Seq<CommandView>,
    p: SafetyPolicy,
    i: int,
) -> Option<DecisionView>
    decreases cmds.len() - i,
{
    if i < 0 || i >= cmds.len() {
        None
    } else if !verdict_at(g0, s, scenes, cmds[i], p).allowed {
        Some(verdict_at(g0, s, scenes, cmds[i], p))
    } else {
        first_refusal(g0, s, scenes, cmds, p, i + 1)
    }
}

/// Where a scheduler tick stands after some automations.
pub struct TickModel {
    pub states: Map<Seq<char>, StateView>,
    pub events: Seq<EventView>,
    pub triggered: nat,
    pub executed: nat,
    pub blocked: Seq<(Seq<char>, DecisionView)>,
    pub audit: Seq<CommandView>,
}

/// One automation at a tick. A disabled, unmatched or unconditioned automation
/// does nothing; a matched one with a refused action is blocked and changes
/// nothing; otherwise all its actions run.
pub open spec fn tick_step(
    g0: Map<Seq<char>, Entity>,
    scenes: Map<Seq<char>, Scene>,
    p: SafetyPolicy,
    now: Seq<char>,
    m: TickModel,
    a: Automation,
) -> TickModel {
    if !a.enabled || !trigger_matches(a.trigger, now) || !conditions_hold(a.conditions@, m.states) {
        m
    } else {
        let cmds = automation_commands(a);
        match first_refusal(g0, m.states, scenes, cmds, p, 0) {
            Some(d) => TickModel {
                triggered: m.triggered + 1,
                blocked: m.blocked.push((a.id@, d)),
                ..m
            },
            None => {
                let run = run_commands(m.states, scenes, cmds);
                TickModel {
                    states: run.0,
                    events: m.events + run.1,
                    triggered: m.triggered + 1,
                    executed: m.executed + cmds.len(),
                    audit: m.audit + cmds,
                    blocked: m.blocked,
                }
            },
        }
    }
}

/// The automations taken in order.
pub open spec fn tick_fold(
    g0: Map<Seq<char>, Entity>,
    scenes: Map<Seq<char>, Scene>,
    p: SafetyPolicy,
    now: Seq<char>,
    init: TickModel,
    autos: Seq<Automation>,
) -> TickModel
    decreases autos.len(),
{
    if autos.len() == 0 {
        init
    } else {
        tick_step(g0, scenes, p, now, tick_fold(g0, scenes, p, now, init, autos.drop_last()), autos.last())
    }
}

/// An automation that is blocked at a tick changes no state and runs no action.
pub proof fn blocked_automation_changes_nothing(
    g0: Map<Seq<char>, Entity>,
    scenes: Map<Seq<char>, Scene>,
    p: SafetyPolicy,
    now: Seq<char>,
    m: TickModel,
    a: Automation,
)
    requires
        a.enabled,
        trigger_matches(a.trigger, now),
        conditions_hold(a.conditions@, m.states),
        first_refusal(g0, m.states, scenes, automation_commands(a), p, 0) is Some,
    ensures
        tick_step(g0, scenes, p, now, m, a).states == m.states,
        tick_step(g0, scenes, p, now, m, a).audit == m.audit,
        tick_step(g0, scenes, p, now, m, a).events == m.events,
        tick_step(g0, scenes, p, now, m, a).executed == m.executed,
{
}


pub proof fn lemma_no_refusal(
    g0: Map<Seq<char>, Entity>,
    s: Map<Seq<char>, StateView>,
    scenes: Map<Seq<char>, Scene>,
    cmds: Seq<CommandView>,
    p: SafetyPolicy,
    i: int,
)
    requires
        0 <= i,
        first_refusal(g0, s, scenes, cmds, p, i) is None,
    ensures
        forall|k: int| i <= k < cmds.len() ==> (#[trigger] verdict_at(g0, s, scenes, cmds[k], p)).allowed,
    decreases cmds.len() - i,
{
    if i < cmds.len() {
        lemma_no_refusal(g0, s, scenes, cmds, p, i + 1);
    }
}

/// Executing an allowed toggle turns an entity that is on off and one that is
/// off on, each with one state-change event from the command's origin; any
/// other state is left as it is, with no event.
pub proof fn toggle_flips_on_and_off(rt: HomeRuntime, new: HomeRuntime, c: CommandView, d: DecisionView)
    requires
        rt.executed(&new, c, d),
        d.allowed,
        c.action.kind == HomeActionKind::Toggle,
        rt.entities().contains_key(c.action.entity),
    ensures
        new.entities().contains_key(c.action.entity),
        rt.entities()[c.action.entity].state@ == StateView::On ==> {
            &&& new.entities()[c.action.entity].state@ == StateView::Off
            &&& event_views(new.event_log()) == event_views(rt.event_log()) + seq![
                EventView::StateChanged {
                    entity: c.action.entity,
                    old_state: StateView::On,
                    new_state: StateView::Off,
                    origin: c.origin,
                },
            ]
        },
        rt.entities()[c.action.entity].state@ == StateView::Off ==> {
            &&& new.entities()[c.action.entity].state@ == StateView::On
            &&& event_views(new.event_log()) == event_views(rt.event_log()) + seq![
                EventView::StateChanged {
                    entity: c.action.entity,
                    old_state: StateView::Off,
                    new_state: StateView::On,
                    origin: c.origin,
                },
            ]
        },
        !(rt.entities()[c.action.entity].state@ is On || rt.entities()[c.action.entity].state@ is Off) ==> {
            &&& new.entities()[c.action.entity].state@ == rt.entities()[c.action.entity].state@
            &&& (rt.entities()[c.action.entity].state@ !is Numeric ==> event_views(new.event_log()) == event_views(
                rt.event_log(),
            ))
        },
{
    let e = c.action.entity;
    let st = states_of(rt.entities());
    assert(st[e] == rt.entities()[e].state@);
    assert(states_of(new.entities())[e] == new.entities()[e].state@);
    let eff = command_effect(st, rt.scene_list()@, c);
    assert(eff == step(st, c.action, c.origin));
    assert(eff.0[e] == next_state(HomeActionKind::Toggle, st[e]));
    if st[e] !is On && st[e] !is Off && st[e] !is Numeric {
        assert(same_state(st[e], st[e]));
        assert(eff.1 =~= Seq::<EventView>::empty());
    }
}

/// An automation with a condition that does not hold at the tick (its entity is
/// missing, or is in another state) is not triggered: the tick goes on unchanged.
pub proof fn unmet_condition_skips_automation(
    g0: Map<Seq<char>, Entity>,
    scenes: Map<Seq<char>, Scene>,
    p: SafetyPolicy,
    now: Seq<char>,
    m: TickModel,
    a: Automation,
    i: int,
)
    requires
        0 <= i < a.conditions@.len(),
        a.conditions@[i] matches AutomationCondition::EntityStateIs { entity_id, state } && (!m.states.contains_key(
            entity_id@,
        ) || !same_state(m.states[entity_id@], state@)),
    ensures
        tick_step(g0, scenes, p, now, m, a) == m,
{
    assert(!conditions_hold(a.conditions@, m.states)) by {
        let c = a.conditions@[i];
        assert(match c {
            AutomationCondition::EntityStateIs { entity_id, state } => !(m.states.contains_key(entity_id@)
                && same_state(m.states[entity_id@], state@)),
        });
    }
}

/// An enabled automation whose time matches and each of whose entities is
/// present in the state its condition names is triggered at the tick.
pub proof fn met_conditions_trigger_automation(
    g0: Map<Seq<char>, Entity>,
    scenes: Map<Seq<char>, Scene>,
    p: SafetyPolicy,
    now: Seq<char>,
    m: TickModel,
    a: Automation,
)
    requires
        a.enabled,
        trigger_matches(a.trigger, now),
        forall|i: int| 0 <= i < a.conditions@.len() ==> (#[trigger] a.conditions@[i] matches AutomationCondition::EntityStateIs {
            entity_id,
            state,
        } && m.states.contains_key(entity_id@) && same_state(m.states[entity_id@], state@)),
    ensures
        tick_step(g0, scenes, p, now, m, a).triggered == m.triggered + 1,
{
    assert(conditions_hold(a.conditions@, m.states)) by {
        assert forall|i: int| 0 <= i < a.conditions@.len() implies match #[trigger] a.conditions@[i] {
            AutomationCondition::EntityStateIs { entity_id, state } => m.states.contains_key(entity_id@)
                && same_state(m.states[entity_id@], state@),
        } by {
            assert(a.conditions@[i] matches AutomationCondition::EntityStateIs { entity_id, state }
                && m.states.contains_key(entity_id@) && same_state(m.states[entity_id@], state@));
        }
    }
}

/// The blocked automations of a tick result, as ids with decisions.
pub open spec fn block_views(bs: Seq<AutomationBlock>) -> Seq<(Seq<char>, DecisionView)> {
    bs.map_values(|b: AutomationBlock| (b.automation_id@, b.decision@))
}

/// A tick that has not looked at any automation yet.
pub open spec fn tick_start(states: Map<Seq<char>, StateView>) -> TickModel {
    TickModel {
        states,
        events: Seq::empty(),
        triggered: 0,
        executed: 0,
        blocked: Seq::empty(),
        audit: Seq::empty(),
    }
}

fn next_state_for(kind: HomeActionKind, current: &EntityState) -> (r: EntityState)
    ensures
        r@ == next_state(kind, current@),
{
    match kind {
        HomeActionKind::TurnOn => EntityState::On,
        HomeActionKind::TurnOff => EntityState::Off,
        HomeActionKind::Lock => EntityState::Locked,
        HomeActionKind::Unlock => EntityState::Unlocked,
        HomeActionKind::Open => EntityState::Open,
        HomeActionKind::Close => EntityState::Closed,
        HomeActionKind::Start => EntityState::On,
        HomeActionKind::Stop | HomeActionKind::Pause => EntityState::Off,
        HomeActionKind::ReturnToBase => EntityState::Text(String::from_str("returning")),
        HomeActionKind::Arm => EntityState::Text(String::from_str("armed")),
        HomeActionKind::Disarm => EntityState::Text(String::from_str("disarmed")),
        HomeActionKind::Toggle => match current {
            EntityState::On => EntityState::Off,
            EntityState::Off => EntityState::On,
            other => other.clone(),
        },
        HomeActionKind::SetValue | HomeActionKind::ActivateScene => current.clone(),
    }
}

impl HomeRuntime {
    pub closed spec fn device_registry(&self) -> DeviceRegistry {
        self.devices
    }

    pub closed spec fn entity_graph(&self) -> EntityGraph {
        self.graph
    }

    pub closed spec fn scene_list(&self) -> KeyedList<Scene> {
        self.scenes
    }

    pub closed spec fn automation_list(&self) -> KeyedList<Automation> {
        self.automations
    }

    pub closed spec fn policy_spec(&self) -> SafetyPolicy {
        self.policy
    }

    pub closed spec fn audit_log(&self) -> Seq<AuditEntry> {
        self.audit@
    }

    pub closed spec fn event_log(&self) -> Seq<RuntimeEvent> {
        self.events@
    }

    /// The entities, by id.
    pub open spec fn entities(&self) -> Map<Seq<char>, Entity> {
        self.entity_graph()@
    }

    /// The decision taken before executing `c` on this runtime.
    pub open spec fn verdict(&self, c: CommandView) -> DecisionView {
        execution_verdict(self.entities(), self.scene_list()@, c, self.policy_spec())
    }

    /// Devices, scenes, automations and policy are those of `other`.
    pub open spec fn same_config(&self, other: &HomeRuntime) -> bool {
        &&& self.device_registry() == other.device_registry()
        &&& self.scene_list() == other.scene_list()
        &&& self.automation_list() == other.automation_list()
        &&& self.policy_spec() == other.policy_spec()
    }

    /// `new` is `self` after executing `c` with decision `d`: states change and
    /// state-change events are emitted only when `d` allows, and one audit entry is added.
    pub open spec fn executed(&self, new: &HomeRuntime, c: CommandView, d: DecisionView) -> bool {
        &&& d == self.verdict(c)
        &&& new.same_config(self)
        &&& same_shape(self.entities(), new.entities())
        &&& d.allowed ==> {
            let eff = command_effect(states_of(self.entities()), self.scene_list()@, c);
            &&& states_of(new.entities()) == eff.0
            &&& event_views(new.event_log()) == event_views(self.event_log()) + eff.1
        }
        &&& !d.allowed ==> new.entities() == self.entities() && new.event_log() == self.event_log()
        &&& new.audit_log().len() == self.audit_log().len() + 1
        &&& new.audit_log().take(self.audit_log().len() as int) == self.audit_log()
        &&& new.audit_log().last().command@ == c
        &&& new.audit_log().last().decision@ == d
    }

    /// A runtime with no devices, entities, scenes, automations, audit or events.
    pub fn new(policy: SafetyPolicy) -> (r: HomeRuntime)
        ensures
            r.policy_spec() == policy,
            r.device_registry()@ == Map::<Seq<char>, Device>::empty(),
            r.entities() == Map::<Seq<char>, Entity>::empty(),
            r.scene_list()@ == Map::<Seq<char>, Scene>::empty(),
            r.automation_list()@ == Map::<Seq<char>, Automation>::empty(),
            r.automation_list().seq().len() == 0,
            r.audit_log().len() == 0,
            r.event_log().len() == 0,
    {
        HomeRuntime {
            graph: EntityGraph::new(),
            devices: DeviceRegistry::new(),
            scenes: KeyedList::new(),
            automations: KeyedList::new(),
            policy,
            audit: Vec::new(),
            events: Vec::new(),
        }
    }

    /// The policy's decision on `command` alone; a scene's own actions are not looked at.
    fn policy_decision(&self, command: &HomeCommand) -> (r: SafetyDecision)
        ensures
            r@ == evaluation(self.entities(), command@, self.policy_spec()),
    {
        evaluate_command(&self.graph, command, &self.policy)
    }

    /// Answers "can this physical action happen?" without changing anything:
    /// the decision that executing `command` now would take, including the
    /// refusal of a scene whose nested action would be blocked.
    pub fn evaluate(&self, command: &HomeCommand) -> (r: SafetyDecision)
        ensures
            r@ == self.verdict(command@),
            r.allowed && command.action.kind == HomeActionKind::ActivateScene ==> {
                let acts = action_views(self.scene_list()@[command.action.target.entity_id@].actions@);
                &&& self.scene_list()@.contains_key(command.action.target.entity_id@)
                &&& forall|i: int|
                    0 <= i < acts.len() ==> (#[trigger] evaluation(
                        self.entities(),
                        child_command(command@, acts[i]),
                        self.policy_spec(),
                    )).allowed
            },
    {
        let r = self.evaluate_for_execution(command);
        proof {
            if r.allowed && command.action.kind == HomeActionKind::ActivateScene {
                let acts = action_views(self.scene_list()@[command.action.target.entity_id@].actions@);
                lemma_scene_children_allowed(self.entities(), acts, command@, self.policy_spec(), 0);
            }
        }
        r
    }

    fn evaluate_scene_command(&self, command: &HomeCommand) -> (r: SafetyDecision)
        ensures
            r@ == scene_verdict(self.entities(), self.scene_list()@, command@, self.policy_spec()),
    {
        let scene_activation = self.policy_decision(command);
        if !scene_activation.allowed {
            return scene_activation;
        }
        let scene = match self.scenes.get(command.action.target.entity_id.as_str()) {
            Some(s) => s,
            None => {
                return SafetyDecision::block(
                    SafetyReason::SceneDefinitionMissing,
                    "scene entity exists but no scene definition is registered",
                );
            },
        };
        let ghost acts = action_views(scene.actions@);
        let ghost g = self.entities();
        let ghost c = command@;
        let ghost p = self.policy_spec();
        assert(scene_verdict(g, self.scene_list()@, c, p) == scene_children_verdict(g, acts, c, p, 0));
        let mut i: usize = 0;
        while i < scene.actions.len()
            invariant
                scene_verdict(g, self.scene_list()@, c, p) == scene_children_verdict(g, acts, c, p, 0),
                i <= scene.actions@.len(),
                acts == action_views(scene.actions@),
                g == self.entities(),
                c == command@,
                p == self.policy_spec(),
                scene_children_verdict(g, acts, c, p, 0) == scene_children_verdict(g, acts, c, p, i as int),
            decreases scene.actions@.len() - i,
        {
            let child = HomeCommand {
                origin: command.origin,
                action: scene.actions[i].duplicate(),
                confirmed: command.confirmed,
                approval: None,
                reason: match &command.reason {
                    Some(s) => Some(s.clone()),
                    None => None,
                },
            };
            assert(acts[i as int] == scene.actions@[i as int]@);
            assert(child@ == child_command(c, acts[i as int]));
            let decision = self.policy_decision(&child);
            if !decision.allowed {
                assert(scene_children_verdict(g, acts, c, p, i as int) == block_view(
                    SafetyReason::SceneActionBlocked,
                    "scene action blocked: "@ + decision.message@,
                ));
                let message = String::from_str("scene action blocked: ").concat(decision.message.as_str());
                assert(message@ == "scene action blocked: "@ + decision.message@);
                assert(scene_children_verdict(g, acts, c, p, 0) == block_view(
                    SafetyReason::SceneActionBlocked,
                    "scene action blocked: "@ + decision.message@,
                ));
                return SafetyDecision {
                    allowed: false,
                    requires_confirmation: false,
                    reason: SafetyReason::SceneActionBlocked,
                    message,
                };
            }
            assert(scene_children_verdict(g, acts, c, p, i as int) == scene_children_verdict(g, acts, c, p, i + 1));
            i = i + 1;
        }
        SafetyDecision::allow()
    }

    fn evaluate_for_execution(&self, command: &HomeCommand) -> (r: SafetyDecision)
        ensures
            r@ == self.verdict(command@),
    {
        if command.action.kind == HomeActionKind::ActivateScene {
            self.evaluate_scene_command(command)
        } else {
            self.policy_decision(command)
        }
    }



    /// `new` and `res` are `self` and the result after a service call that
    /// translated to `cs`: when any target is refused nothing is executed,
    /// otherwise every target is, in order. One service-call event is added.
    /// `new` is `self` after one scheduler tick at `now`, with result `r`: each
    /// enabled automation whose time matches and whose conditions hold is
    /// triggered; its actions run only when every one of them is allowed, and
    /// otherwise it is reported as blocked with the first refusal.
    pub open spec fn tick_outcome(&self, new: &HomeRuntime, now: Seq<char>, r: AutomationTickResult) -> bool {
        let autos = self.automation_list().seq();
        let g0 = self.entities();
        let m = tick_fold(g0, self.scene_list()@, self.policy_spec(), now, tick_start(states_of(g0)), autos);
        &&& r.now_hh_mm@ == now
        &&& r.automations_checked == autos.len()
        &&& r.automations_triggered == m.triggered
        &&& r.actions_executed == m.executed
        &&& block_views(r.blocked@) == m.blocked
        &&& new.same_config(self)
        &&& same_shape(g0, new.entities())
        &&& states_of(new.entities()) == m.states
        &&& event_views(new.event_log()) == (event_views(self.event_log()) + m.events).push(
            EventView::AutomationTick {
                now_hh_mm: now,
                automations_triggered: r.automations_triggered,
                actions_executed: r.actions_executed,
                blocked: r.blocked@.len() as usize,
            },
        )
        &&& new.audit_log().len() == self.audit_log().len() + m.audit.len()
        &&& new.audit_log().take(self.audit_log().len() as int) == self.audit_log()
        &&& forall|i: int|
            0 <= i < m.audit.len() ==> (#[trigger] new.audit_log()[self.audit_log().len() + i]).command@
                == m.audit[i] && new.audit_log()[self.audit_log().len() + i].decision@ == allow_view()
    }

    pub open spec fn service_outcome(
        &self,
        new: &HomeRuntime,
        call: CallView,
        cs: Seq<CommandView>,
        res: ServiceCallResult,
    ) -> bool {
        let n = cs.len();
        let blocked = exists|i: int| 0 <= i < n && !(#[trigger] self.verdict(cs[i])).allowed;
        let scenes = self.scene_list()@;
        let run = run_commands(states_of(self.entities()), scenes, cs);
        &&& res.domain@ == call.domain
        &&& res.service@ == call.service
        &&& res.targets == n
        &&& res.results@.len() == n
        &&& forall|i: int| 0 <= i < n ==> (#[trigger] res.results@[i]).entity_id@ == cs[i].action.entity
        &&& new.same_config(self)
        &&& same_shape(self.entities(), new.entities())
        &&& blocked ==> {
            &&& res.executed == 0
            &&& forall|i: int| 0 <= i < n ==> !(#[trigger] res.results@[i]).executed
                && res.results@[i].decision@ == self.verdict(cs[i])
            &&& new.entities() == self.entities()
            &&& new.audit_log() == self.audit_log()
            &&& event_views(new.event_log()) == event_views(self.event_log()).push(
                EventView::ServiceCalled {
                    domain: call.domain,
                    service: call.service,
                    targets: n as usize,
                    executed: 0,
                },
            )
        }
        &&& !blocked ==> {
            &&& res.executed == n
            &&& forall|i: int| 0 <= i < n ==> (#[trigger] res.results@[i]).executed
                && res.results@[i].decision@ == allow_view()
            &&& states_of(new.entities()) == run.0
            &&& event_views(new.event_log()) == (event_views(self.event_log()) + run.1).push(
                EventView::ServiceCalled {
                    domain: call.domain,
                    service: call.service,
                    targets: n as usize,
                    executed: n as usize,
                },
            )
            &&& new.audit_log().len() == self.audit_log().len() + n
            &&& new.audit_log().take(self.audit_log().len() as int) == self.audit_log()
            &&& forall|i: int| 0 <= i < n ==> (#[trigger] new.audit_log()[self.audit_log().len() + i]).command@ == cs[i]
                && new.audit_log()[self.audit_log().len() + i].decision@ == allow_view()
        }
    }

    /// Translates a domain service call into commands and executes them all or none:
    /// when the policy refuses any target, no target is changed.
    pub fn call_service(&mut self, call: ServiceCall) -> (r: Result<ServiceCallResult, ServiceCallError>)
        ensures
            match service_commands(old(self).entities(), call@) {
                Err(e) => (r matches Err(x) && x@ == e) && *final(self) == *old(self),
                Ok(cs) => (r matches Ok(res) && old(self).service_outcome(final(self), call@, cs, res)),
            },
    {
        let commands = match service_call_to_commands(&self.graph, &call) {
            Ok(c) => c,
            Err(e) => {
                return Err(e);
            },
        };
        let ghost cs = command_views(commands@);
        let ghost start = *self;
        let ghost g0 = self.entities();
        let ghost scenes = self.scene_list()@;
        let ghost p = self.policy_spec();
        let mut results: Vec<ServiceActionResult> = Vec::new();
        let mut blocked = false;
        let mut i: usize = 0;
        while i < commands.len()
            invariant
                *self == start,
                cs == command_views(commands@),
                i <= commands@.len(),
                results@.len() == i,
                forall|j: int| 0 <= j < i ==> !(#[trigger] results@[j]).executed
                    && results@[j].decision@ == start.verdict(cs[j])
                    && results@[j].entity_id@ == cs[j].action.entity,
                blocked == exists|j: int| 0 <= j < i && !(#[trigger] start.verdict(cs[j])).allowed,
            decreases commands@.len() - i,
        {
            let decision = self.evaluate_for_execution(&commands[i]);
            assert(cs[i as int] == commands@[i as int]@);
            if !decision.allowed {
                blocked = true;
            }
            results.push(
                ServiceActionResult {
                    entity_id: commands[i].action.target.entity_id.clone(),
                    executed: false,
                    decision,
                },
            );
            i = i + 1;
        }
        let n = commands.len();
        if !blocked {
            let mut new_results: Vec<ServiceActionResult> = Vec::new();
            let mut rest = commands;
            let mut k: usize = 0;
            let ghost a0 = self.audit_log();
            let ghost s0 = states_of(g0);
            let ghost ev0 = event_views(self.event_log());
            proof {
                lemma_same_shape_refl(g0);
                assert(cs.take(0) =~= Seq::<CommandView>::empty());
                assert(ev0 + Seq::<EventView>::empty() =~= ev0);
                assert(self.audit_log().take(a0.len() as int) =~= a0);
                assert(command_views(rest@) =~= cs.skip(0));
            }
            while rest.len() > 0
                invariant
                    n == cs.len(),
                    k <= n,
                    !blocked,
                    blocked == exists|j: int| 0 <= j < n && !(#[trigger] start.verdict(cs[j])).allowed,
                    command_views(rest@) == cs.skip(k as int),
                    self.same_config(&start),
                    scenes == start.scene_list()@,
                    p == start.policy_spec(),
                    g0 == start.entities(),
                    s0 == states_of(g0),
                    ev0 == event_views(start.event_log()),
                    a0 == start.audit_log(),
                    same_shape(g0, self.entities()),
                    states_of(self.entities()) == run_commands(s0, scenes, cs.take(k as int)).0,
                    event_views(self.event_log()) == ev0 + run_commands(s0, scenes, cs.take(k as int)).1,
                    self.audit_log().len() == a0.len() + k,
                    self.audit_log().take(a0.len() as int) == a0,
                    forall|j: int| 0 <= j < k ==> (#[trigger] self.audit_log()[a0.len() + j]).command@ == cs[j]
                        && self.audit_log()[a0.len() + j].decision@ == allow_view(),
                    new_results@.len() == k,
                    forall|j: int| 0 <= j < k ==> (#[trigger] new_results@[j]).executed
                        && new_results@[j].decision@ == allow_view()
                        && new_results@[j].entity_id@ == cs[j].action.entity,
                decreases rest@.len(),
            {
                let ghost before = *self;
                let ghost old_rest = rest@;
                let cmd = rest.remove(0);
                proof {
                    assert(old_rest.len() > 0);
                    assert(command_views(old_rest).len() == old_rest.len());
                    assert(command_views(old_rest)[0] == old_rest[0]@);
                    assert(cs.skip(k as int).len() == old_rest.len());
                    assert(k < n);
                    assert(cmd@ == cs.skip(k as int)[0]);
                    assert(cmd@ == cs[k as int]);
                    assert(!start.verdict(cs[k as int]).allowed ==> blocked);
                    lemma_run_commands_avail(s0, scenes, cs.take(k as int));
                    lemma_verdict_stable(g0, before.entities(), scenes, cs[k as int], p);
                }
                let entity_id = cmd.action.target.entity_id.clone();
                let decision = self.execute(cmd);
                proof {
                    lemma_same_shape_trans(g0, before.entities(), self.entities());
                    assert(cs.take(k + 1).drop_last() =~= cs.take(k as int));
                    assert(cs.take(k + 1).last() == cs[k as int]);
                    let prev = run_commands(s0, scenes, cs.take(k as int));
                    let q = command_effect(prev.0, scenes, cs[k as int]);
                    assert(ev0 + prev.1 + q.1 =~= ev0 + (prev.1 + q.1));
                    assert(rest@ =~= old_rest.drop_first());
                    assert forall|x: int| 0 <= x < rest@.len() implies command_views(rest@)[x] == cs.skip(k + 1)[x] by {
                        assert(command_views(old_rest)[x + 1] == old_rest[x + 1]@);
                        assert(cs.skip(k as int)[x + 1] == cs.skip(k + 1)[x]);
                    }
                    assert(command_views(rest@) =~= cs.skip(k + 1));
                    assert forall|j: int| 0 <= j < k + 1 implies (#[trigger] self.audit_log()[a0.len() + j]).command@ == cs[j]
                        && self.audit_log()[a0.len() + j].decision@ == allow_view() by {
                        if j < k {
                            assert(self.audit_log()[a0.len() + j] == before.audit_log().take(before.audit_log().len() as int)[a0.len() + j]);
                        }
                    }
                    assert(self.audit_log().take(a0.len() as int) =~= a0) by {
                        assert(self.audit_log().take(before.audit_log().len() as int) == before.audit_log());
                        assert forall|j: int| 0 <= j < a0.len() implies self.audit_log()[j] == a0[j] by {
                            assert(self.audit_log()[j] == self.audit_log().take(before.audit_log().len() as int)[j]);
                            assert(before.audit_log()[j] == before.audit_log().take(a0.len() as int)[j]);
                        }
                    }
                }
                new_results.push(ServiceActionResult { entity_id, executed: decision.allowed, decision });
                k = k + 1;
            }
            proof {
                assert(cs.take(n as int) =~= cs);
            }
            results = new_results;
        }
        let mut executed: usize = 0;
        let mut j: usize = 0;
        while j < results.len()
            invariant
                j <= results@.len(),
                results@.len() == n,
                n == cs.len(),
                blocked == exists|x: int| 0 <= x < n && !(#[trigger] start.verdict(cs[x])).allowed,
                blocked ==> forall|x: int| 0 <= x < n ==> !(#[trigger] results@[x]).executed,
                !blocked ==> forall|x: int| 0 <= x < n ==> (#[trigger] results@[x]).executed,
                blocked ==> executed == 0,
                !blocked ==> executed == j,
            decreases results@.len() - j,
        {
            if results[j].executed {
                executed = executed + 1;
            }
            j = j + 1;
        }
        let kind = RuntimeEventKind::ServiceCalled {
            domain: call.domain.clone(),
            service: call.service.clone(),
            targets: results.len(),
            executed,
        };
        let ghost ev1 = event_views(self.event_log());
        self.events.push(RuntimeEvent::new(kind));
        proof {
            assert(event_views(self.event_log()) =~= ev1.push(kind@));
        }
        let targets = results.len();
        Ok(ServiceCallResult { domain: call.domain, service: call.service, targets, executed, results })
    }


    /// The id and a copy of the actions of automation `i`, when it is enabled,
    /// its trigger matches `now` and its conditions hold.
    fn automation_plan(&self, i: usize, now: &str) -> (r: Option<(String, Vec<HomeAction>)>)
        requires
            i < self.automation_list().seq().len(),
        ensures
            ({
                let a = self.automation_list().seq()[i as int];
                &&& r is Some <==> (a.enabled && trigger_matches(a.trigger, now@) && conditions_hold(
                    a.conditions@,
                    states_of(self.entities()),
                ))
                &&& r matches Some(x) ==> x.0@ == a.id@ && action_views(x.1@) == action_views(a.actions@)
            }),
    {
        let autos = self.automations.as_slice();
        let a = &autos[i];
        if !a.enabled {
            return None;
        }
        let matched = match &a.trigger {
            AutomationTrigger::TimeOfDay { hh_mm } => crate::text::str_eq(hh_mm.as_str(), now),
        };
        if !matched {
            return None;
        }
        let ghost st = states_of(self.entities());
        let mut k: usize = 0;
        while k < a.conditions.len()
            invariant
                k <= a.conditions@.len(),
                i < self.automation_list().seq().len(),
                *a == self.automation_list().seq()[i as int],
                st == states_of(self.graph@),
                forall|x: int| 0 <= x < k ==> match #[trigger] a.conditions@[x] {
                    AutomationCondition::EntityStateIs { entity_id, state } => st.contains_key(entity_id@)
                        && same_state(st[entity_id@], state@),
                },
            decreases a.conditions@.len() - k,
        {
            let ok = match &a.conditions[k] {
                AutomationCondition::EntityStateIs { entity_id, state } => match self.graph.get(entity_id) {
                    Some(e) => {
                        assert(st.contains_key(entity_id@));
                        assert(st[entity_id@] == e.state@);
                        e.state.same_as(state)
                    },
                    None => {
                        assert(!st.contains_key(entity_id@));
                        false
                    },
                },
            };
            if !ok {
                proof {
                    let c = a.conditions@[k as int];
                    assert(!match c {
                        AutomationCondition::EntityStateIs { entity_id, state } => st.contains_key(entity_id@)
                            && same_state(st[entity_id@], state@),
                    });
                    assert(!conditions_hold(a.conditions@, st));
                }
                return None;
            }
            k = k + 1;
        }
        let mut copies: Vec<HomeAction> = Vec::new();
        let mut j: usize = 0;
        while j < a.actions.len()
            invariant
                j <= a.actions@.len(),
                copies@.len() == j,
                forall|x: int| 0 <= x < j ==> (#[trigger] copies@[x])@ == a.actions@[x]@,
            decreases a.actions@.len() - j,
        {
            copies.push(a.actions[j].duplicate());
            j = j + 1;
        }
        assert(action_views(copies@) =~= action_views(a.actions@));
        Some((a.id.clone(), copies))
    }

    /// Runs the automations whose time trigger matches `now_hh_mm`, in id order.
    /// A matching automation whose conditions hold first has all its actions
    /// checked; if any is refused it is reported as blocked and none runs.
    pub fn run_automation_tick(&mut self, now_hh_mm: String) -> (r: AutomationTickResult)
        ensures
            old(self).tick_outcome(final(self), now_hh_mm@, r),
    {
        let ghost start = *self;
        let ghost g0 = self.entities();
        let ghost scenes = self.scene_list()@;
        let ghost p = self.policy_spec();
        let ghost autos = self.automation_list().seq();
        let ghost now = now_hh_mm@;
        let ghost a0 = self.audit_log();
        let ghost ev0 = event_views(self.event_log());
        let ghost init = tick_start(states_of(g0));
        let n = self.automations.len();
        let mut triggered: usize = 0;
        let mut executed: usize = 0;
        let mut blocked: Vec<AutomationBlock> = Vec::new();
        let ghost mut m = init;
        let mut i: usize = 0;
        proof {
            lemma_same_shape_refl(g0);
            assert(autos.take(0) =~= Seq::<Automation>::empty());
            assert(ev0 + Seq::<EventView>::empty() =~= ev0);
            assert(self.audit_log().take(a0.len() as int) =~= a0);
            assert(block_views(blocked@) =~= Seq::<(Seq<char>, DecisionView)>::empty());
        }
        while i < n
            invariant
                n == autos.len(),
                i <= n,
                autos == self.automation_list().seq(),
                self.same_config(&start),
                scenes == start.scene_list()@,
                p == start.policy_spec(),
                g0 == start.entities(),
                ev0 == event_views(start.event_log()),
                a0 == start.audit_log(),
                now == now_hh_mm@,
                init == tick_start(states_of(g0)),
                m == tick_fold(g0, scenes, p, now, init, autos.take(i as int)),
                m.executed == m.audit.len(),
                m.triggered <= i,
                same_shape(g0, self.entities()),
                states_of(self.entities()) == m.states,
                event_views(self.event_log()) == ev0 + m.events,
                self.audit_log().len() == a0.len() + m.audit.len(),
                self.audit_log().take(a0.len() as int) == a0,
                forall|j: int| 0 <= j < m.audit.len() ==> (#[trigger] self.audit_log()[a0.len() + j]).command@ == m.audit[j]
                    && self.audit_log()[a0.len() + j].decision@ == allow_view(),
                triggered == m.triggered,
                executed == m.executed,
                block_views(blocked@) == m.blocked,
            decreases n - i,
        {
            let ghost a = autos[i as int];
            let ghost mi = m;
            proof {
                assert(autos.take(i + 1).drop_last() =~= autos.take(i as int));
                assert(autos.take(i + 1).last() == a);
            }
            let plan = self.automation_plan(i, now_hh_mm.as_str());
            match plan {
                None => {},
                Some((id, actions)) => {
                    let ghost cmds = automation_commands(a);
                    triggered = triggered + 1;
                    let mut refusal: Option<SafetyDecision> = None;
                    let mut j: usize = 0;
                    let ghost pre = *self;
                    while j < actions.len() && refusal.is_none()
                        invariant
                            *self == pre,
                            j <= actions@.len(),
                            action_views(actions@) == action_views(a.actions@),
                            cmds == automation_commands(a),
                            cmds.len() == actions@.len(),
                            same_shape(g0, self.entities()),
                            states_of(self.entities()) == mi.states,
                            refusal is None ==> first_refusal(g0, mi.states, scenes, cmds, p, 0) == first_refusal(g0, mi.states, scenes, cmds, p, j as int),
                            refusal matches Some(d) ==> first_refusal(g0, mi.states, scenes, cmds, p, 0) == Some(d@),
                            scenes == self.scene_list()@,
                            p == self.policy_spec(),
                        decreases actions@.len() - j,
                    {
                        let cmd = HomeCommand::new(CommandOrigin::Automation, actions[j].duplicate());
                        proof {
                            assert(action_views(actions@)[j as int] == actions@[j as int]@);
                            assert(cmd@ == cmds[j as int]);
                            lemma_verdict_at(g0, self.entities(), scenes, cmds[j as int], p);
                        }
                        let decision = self.evaluate_for_execution(&cmd);
                        if !decision.allowed {
                            refusal = Some(decision);
                        }
                        j = j + 1;
                    }
                    match refusal {
                        Some(d) => {
                            let ghost bv = blocked@;
                            blocked.push(AutomationBlock { automation_id: id, decision: d });
                            proof {
                                assert(block_views(blocked@) =~= block_views(bv).push((a.id@, d@)));
                            }
                        },
                        None => {
                            proof {
                                if j < actions@.len() {
                                    assert(false);
                                }
                                assert(first_refusal(g0, mi.states, scenes, cmds, p, j as int) is None);
                                lemma_no_refusal(g0, mi.states, scenes, cmds, p, 0);
                            }
                            let mut rest = actions;
                            let mut k: usize = 0;
                            let ghost gs = self.entities();
                            let ghost s0 = mi.states;
                            let ghost evs = event_views(self.event_log());
                            let ghost aud = self.audit_log();
                            proof {
                                lemma_same_shape_refl(gs);
                                assert(cmds.take(0) =~= Seq::<CommandView>::empty());
                                assert(evs + Seq::<EventView>::empty() =~= evs);
                                assert(self.audit_log().take(aud.len() as int) =~= aud);
                                assert(action_views(rest@) =~= action_views(a.actions@).skip(0));
                            }
                            while rest.len() > 0
                                invariant
                                    cmds == automation_commands(a),
                                    cmds.len() == action_views(a.actions@).len(),
                                    k <= cmds.len(),
                                    action_views(rest@) == action_views(a.actions@).skip(k as int),
                                    forall|x: int| 0 <= x < cmds.len() ==> (#[trigger] verdict_at(g0, s0, scenes, cmds[x], p)).allowed,
                                    s0 == states_of(gs),
                                    same_shape(g0, gs),
                                    self.same_config(&start),
                                    scenes == start.scene_list()@,
                                    p == start.policy_spec(),
                                    same_shape(gs, self.entities()),
                                    states_of(self.entities()) == run_commands(s0, scenes, cmds.take(k as int)).0,
                                    event_views(self.event_log()) == evs + run_commands(s0, scenes, cmds.take(k as int)).1,
                                    self.audit_log().len() == aud.len() + k,
                                    self.audit_log().take(aud.len() as int) == aud,
                                    forall|x: int| 0 <= x < k ==> (#[trigger] self.audit_log()[aud.len() + x]).command@ == cmds[x]
                                        && self.audit_log()[aud.len() + x].decision@ == allow_view(),
                                    executed == mi.executed + k,
                                    mi.executed == mi.audit.len(),
                                    aud.len() == a0.len() + mi.audit.len(),
                                decreases rest@.len(),
                            {
                                let ghost before = *self;
                                let ghost old_rest = rest@;
                                let act = rest.remove(0);
                                let cmd = HomeCommand::new(CommandOrigin::Automation, act);
                                proof {
                                    assert(action_views(old_rest)[0] == old_rest[0]@);
                                    assert(action_views(a.actions@).skip(k as int).len() == old_rest.len());
                                    assert(k < cmds.len());
                                    assert(action_views(a.actions@).skip(k as int)[0] == action_views(a.actions@)[k as int]);
                                    assert(cmd@ == cmds[k as int]);
                                    lemma_verdict_at(g0, gs, scenes, cmds[k as int], p);
                                    lemma_run_commands_avail(s0, scenes, cmds.take(k as int));
                                    lemma_verdict_stable(gs, before.entities(), scenes, cmds[k as int], p);
                                }
                                let decision = self.execute(cmd);
                                proof {
                                    lemma_same_shape_trans(gs, before.entities(), self.entities());
                                    assert(cmds.take(k + 1).drop_last() =~= cmds.take(k as int));
                                    assert(cmds.take(k + 1).last() == cmds[k as int]);
                                    let prev = run_commands(s0, scenes, cmds.take(k as int));
                                    let q = command_effect(prev.0, scenes, cmds[k as int]);
                                    assert(evs + prev.1 + q.1 =~= evs + (prev.1 + q.1));
                                    assert(rest@ =~= old_rest.drop_first());
                                    assert forall|x: int| 0 <= x < rest@.len() implies action_views(rest@)[x] == action_views(a.actions@).skip(k + 1)[x] by {
                                        assert(action_views(old_rest)[x + 1] == old_rest[x + 1]@);
                                        assert(action_views(a.actions@).skip(k as int)[x + 1] == action_views(a.actions@).skip(k + 1)[x]);
                                    }
                                    assert(action_views(rest@) =~= action_views(a.actions@).skip(k + 1));
                                    assert forall|x: int| 0 <= x < k + 1 implies (#[trigger] self.audit_log()[aud.len() + x]).command@ == cmds[x]
                                        && self.audit_log()[aud.len() + x].decision@ == allow_view() by {
                                        if x < k {
                                            assert(self.audit_log()[aud.len() + x] == before.audit_log().take(before.audit_log().len() as int)[aud.len() + x]);
                                        }
                                    }
                                    assert(self.audit_log().take(aud.len() as int) =~= aud) by {
                                        assert(self.audit_log().take(before.audit_log().len() as int) == before.audit_log());
                                        assert forall|x: int| 0 <= x < aud.len() implies self.audit_log()[x] == aud[x] by {
                                            assert(self.audit_log()[x] == self.audit_log().take(before.audit_log().len() as int)[x]);
                                            assert(before.audit_log()[x] == before.audit_log().take(aud.len() as int)[x]);
                                        }
                                    }
                                    assert(self.audit.len() == self.audit@.len());
                                }
                                if decision.allowed {
                                    executed = executed + 1;
                                }
                                k = k + 1;
                            }
                            proof {
                                assert(cmds.take(cmds.len() as int) =~= cmds);
                                lemma_same_shape_trans(g0, gs, self.entities());
                                let run = run_commands(s0, scenes, cmds);
                                assert(ev0 + mi.events + run.1 =~= ev0 + (mi.events + run.1));
                                assert(self.audit_log().take(a0.len() as int) =~= a0) by {
                                    assert forall|x: int| 0 <= x < a0.len() implies self.audit_log()[x] == a0[x] by {
                                        assert(self.audit_log()[x] == self.audit_log().take(aud.len() as int)[x]);
                                        assert(aud[x] == aud.take(a0.len() as int)[x]);
                                    }
                                }
                                assert forall|x: int| 0 <= x < mi.audit.len() + cmds.len() implies (#[trigger] self.audit_log()[a0.len() + x]).command@ == (mi.audit + cmds)[x]
                                    && self.audit_log()[a0.len() + x].decision@ == allow_view() by {
                                    if x < mi.audit.len() {
                                        assert(self.audit_log()[a0.len() + x] == self.audit_log().take(aud.len() as int)[a0.len() + x]);
                                    } else {
                                        assert(self.audit_log()[aud.len() + (x - mi.audit.len())] == self.audit_log()[a0.len() + x]);
                                    }
                                }
                            }
                        },
                    }
                },
            }
            proof {
                m = tick_fold(g0, scenes, p, now, init, autos.take(i + 1));
            }
            i = i + 1;
        }
        proof {
            assert(autos.take(n as int) =~= autos);
        }
        let kind = RuntimeEventKind::AutomationTick {
            now_hh_mm: now_hh_mm.clone(),
            automations_triggered: triggered,
            actions_executed: executed,
            blocked: blocked.len(),
        };
        let ghost ev1 = event_views(self.event_log());
        self.events.push(RuntimeEvent::new(kind));
        proof {
            assert(event_views(self.event_log()) =~= ev1.push(kind@));
        }
        AutomationTickResult {
            now_hh_mm,
            automations_checked: n,
            automations_triggered: triggered,
            actions_executed: executed,
            blocked,
        }
    }

    fn apply_actions(&mut self, actions: &Vec<HomeAction>, origin: CommandOrigin)
        ensures
            final(self).same_config(old(self)),
            final(self).audit_log() == old(self).audit_log(),
            same_shape(old(self).entities(), final(self).entities()),
            states_of(final(self).entities()) == run_actions(
                states_of(old(self).entities()),
                action_views(actions@),
                origin,
            ).0,
            event_views(final(self).event_log()) == event_views(old(self).event_log()) + run_actions(
                states_of(old(self).entities()),
                action_views(actions@),
                origin,
            ).1,
    {
        let ghost acts = action_views(actions@);
        let ghost s0 = states_of(self.entities());
        let ghost ev0 = event_views(self.event_log());
        let mut i: usize = 0;
        proof {
            assert(acts.take(0) =~= Seq::<ActionView>::empty());
            assert(ev0 + Seq::<EventView>::empty() =~= ev0);
        }
        while i < actions.len()
            invariant
                i <= actions@.len(),
                acts == action_views(actions@),
                self.same_config(old(self)),
                self.audit_log() == old(self).audit_log(),
                same_shape(old(self).entities(), self.entities()),
                s0 == states_of(old(self).entities()),
                ev0 == event_views(old(self).event_log()),
                states_of(self.entities()) == run_actions(s0, acts.take(i as int), origin).0,
                event_views(self.event_log()) == ev0 + run_actions(s0, acts.take(i as int), origin).1,
            decreases actions@.len() - i,
        {
            let ghost before = *self;
            self.apply_single_state_change(&actions[i], origin);
            proof {
                lemma_same_shape_trans(old(self).entities(), before.entities(), self.entities());
                assert(acts.take(i + 1).drop_last() =~= acts.take(i as int));
                assert(acts.take(i + 1).last() == actions@[i as int]@);
                let prev = run_actions(s0, acts.take(i as int), origin);
                let q = step(prev.0, actions@[i as int]@, origin);
                assert(ev0 + prev.1 + q.1 =~= ev0 + (prev.1 + q.1));
            }
            i = i + 1;
        }
        proof {
            assert(acts.take(actions@.len() as int) =~= acts);
        }
    }

    fn apply_state_change(&mut self, command: &HomeCommand)
        ensures
            final(self).same_config(old(self)),
            final(self).audit_log() == old(self).audit_log(),
            same_shape(old(self).entities(), final(self).entities()),
            states_of(final(self).entities()) == command_effect(
                states_of(old(self).entities()),
                old(self).scene_list()@,
                command@,
            ).0,
            event_views(final(self).event_log()) == event_views(old(self).event_log()) + command_effect(
                states_of(old(self).entities()),
                old(self).scene_list()@,
                command@,
            ).1,
    {
        if command.action.kind == HomeActionKind::ActivateScene {
            let actions = match self.scenes.get(command.action.target.entity_id.as_str()) {
                Some(scene) => {
                    let mut copies: Vec<HomeAction> = Vec::new();
                    let mut j: usize = 0;
                    while j < scene.actions.len()
                        invariant
                            j <= scene.actions@.len(),
                            copies@.len() == j,
                            forall|k: int| 0 <= k < j ==> (#[trigger] copies@[k])@ == scene.actions@[k]@,
                        decreases scene.actions@.len() - j,
                    {
                        copies.push(scene.actions[j].duplicate());
                        j = j + 1;
                    }
                    assert(action_views(copies@) =~= action_views(scene.actions@));
                    copies
                },
                None => {
                    proof {
                        lemma_same_shape_refl(self.entities());
                        assert(event_views(self.event_log()) =~= event_views(self.event_log()) + Seq::<EventView>::empty());
                    }
                    return;
                },
            };
            self.apply_actions(&actions, command.origin);
        } else {
            self.apply_single_state_change(&command.action, command.origin);
        }
    }

    /// Executes `command` when the policy allows it, and audits the decision either way.
    /// A scene activation is allowed only when the scene and every one of its actions is.
    pub fn execute(&mut self, command: HomeCommand) -> (r: SafetyDecision)
        ensures
            old(self).executed(final(self), command@, r@),
            final(self).audit_log().last().command == command,
    {
        let decision = self.evaluate_for_execution(&command);
        if decision.allowed {
            self.apply_state_change(&command);
        } else {
            proof {
                lemma_same_shape_refl(self.entities());
            }
        }
        let entry = AuditEntry {
            ts: time::OffsetDateTime::now_utc(),
            command,
            decision: decision.duplicate(),
        };
        let ghost a0 = self.audit@;
        self.audit.push(entry);
        proof {
            assert(self.audit@.take(a0.len() as int) =~= a0);
        }
        decision
    }

    fn apply_single_state_change(&mut self, action: &HomeAction, origin: CommandOrigin)
        ensures
            final(self).same_config(old(self)),
            final(self).audit_log() == old(self).audit_log(),
            same_shape(old(self).entities(), final(self).entities()),
            states_of(final(self).entities()) == step(states_of(old(self).entities()), action@, origin).0,
            event_views(final(self).event_log()) == event_views(old(self).event_log()) + step(
                states_of(old(self).entities()),
                action@,
                origin,
            ).1,
    {
        let ghost g0 = self.entities();
        let ghost ev0 = self.events@;
        let current = match self.graph.take(&action.target.entity_id) {
            Some(e) => e,
            None => {
                proof {
                    assert(self.graph@ =~= g0);
                    assert(event_views(self.events@) =~= event_views(ev0) + Seq::<EventView>::empty());
                }
                return;
            },
        };
        let ghost id = action.target.entity_id@;
        let old_state = current.state.clone();
        let next_state = next_state_for(action.kind, &current.state);
        if !old_state.same_as(&next_state) {
            let kind = RuntimeEventKind::StateChanged {
                entity_id: action.target.entity_id.clone(),
                old_state,
                new_state: next_state.clone(),
                origin,
            };
            self.events.push(RuntimeEvent::new(kind));
            proof {
                assert(event_views(self.events@) =~= event_views(ev0).push(kind@));
            }
        } else {
            proof {
                assert(event_views(self.events@) =~= event_views(ev0) + Seq::<EventView>::empty());
            }
        }
        let updated = current.with_state(next_state);
        self.graph.upsert(updated);
        proof {
            let g1 = self.graph@;
            assert(g1 =~= g0.insert(id, updated));
            assert(states_of(g1) =~= states_of(g0).insert(id, next_state@));
            assert forall|k: Seq<char>| #[trigger] g0.contains_key(k) implies g1[k] == (Entity {
                state: g1[k].state,
                ..g0[k]
            }) by {
                if k != id {
                    assert(g1[k] == g0[k]);
                }
            }
            assert(g0.dom() =~= g1.dom());
        }
    }
}


/// Counts and the policy, as reported by the `status` request.
#[derive(Debug, Clone)]
pub struct RuntimeStatus {
    pub device_count: usize,
    pub entity_count: usize,
    pub scene_count: usize,
    pub automation_count: usize,
    pub audit_count: usize,
    pub event_count: usize,
    pub safety_policy: SafetyPolicy,
}

/// The command and decision of each audit entry, in order.
pub open spec fn audit_views(entries: Seq<AuditEntry>) -> Seq<(CommandView, DecisionView)> {
    entries.map_values(|e: AuditEntry| (e.command@, e.decision@))
}

/// Where the last `limit` items of a list of `len` items start.
pub open spec fn tail_start(len: nat, limit: nat) -> int {
    if len > limit { len - limit } else { 0 }
}

impl AuditEntry {
    /// A copy of this entry.
    pub fn duplicate(&self) -> (r: AuditEntry)
        ensures
            r.ts == self.ts,
            r.command@ == self.command@,
            r.decision@ == self.decision@,
    {
        AuditEntry { ts: self.ts, command: self.command.duplicate(), decision: self.decision.duplicate() }
    }
}

impl HomeRuntime {
    /// A runtime under the default safety policy.
    pub fn with_default_policy() -> (r: HomeRuntime)
        ensures
            r.policy_spec() == default_policy(),
            r.device_registry()@ == Map::<Seq<char>, Device>::empty(),
            r.entities() == Map::<Seq<char>, Entity>::empty(),
            r.scene_list()@ == Map::<Seq<char>, Scene>::empty(),
            r.automation_list()@ == Map::<Seq<char>, Automation>::empty(),
            r.automation_list().seq().len() == 0,
            r.audit_log().len() == 0,
            r.event_log().len() == 0,
    {
        HomeRuntime::new(SafetyPolicy::default())
    }

    /// Files `entity` under its id, replacing any entity with that id.
    pub fn upsert_entity(&mut self, entity: Entity)
        ensures
            final(self).entities() == old(self).entities().insert(entity.id@, entity),
            final(self).same_config(old(self)),
            final(self).audit_log() == old(self).audit_log(),
            final(self).event_log() == old(self).event_log(),
    {
        self.graph.upsert(entity);
    }

    /// Files `device` under its id, replacing any device with that id.
    pub fn upsert_device(&mut self, device: Device)
        ensures
            final(self).device_registry()@ == old(self).device_registry()@.insert(device.id@, device),
            final(self).entity_graph() == old(self).entity_graph(),
            final(self).scene_list() == old(self).scene_list(),
            final(self).automation_list() == old(self).automation_list(),
            final(self).policy_spec() == old(self).policy_spec(),
            final(self).audit_log() == old(self).audit_log(),
            final(self).event_log() == old(self).event_log(),
    {
        self.devices.upsert(device);
    }

    /// Files `scene` under its id, replacing any scene with that id.
    pub fn upsert_scene(&mut self, scene: Scene)
        ensures
            final(self).scene_list()@ == old(self).scene_list()@.insert(scene.id@, scene),
            final(self).entity_graph() == old(self).entity_graph(),
            final(self).device_registry() == old(self).device_registry(),
            final(self).automation_list() == old(self).automation_list(),
            final(self).policy_spec() == old(self).policy_spec(),
            final(self).audit_log() == old(self).audit_log(),
            final(self).event_log() == old(self).event_log(),
    {
        self.scenes.upsert(scene);
    }

    /// Files `automation` under its id, replacing any automation with that id.
    pub fn upsert_automation(&mut self, automation: Automation)
        ensures
            final(self).automation_list()@ == old(self).automation_list()@.insert(
                automation.id@,
                automation,
            ),
            final(self).entity_graph() == old(self).entity_graph(),
            final(self).device_registry() == old(self).device_registry(),
            final(self).scene_list() == old(self).scene_list(),
            final(self).policy_spec() == old(self).policy_spec(),
            final(self).audit_log() == old(self).audit_log(),
            final(self).event_log() == old(self).event_log(),
    {
        self.automations.upsert(automation);
    }

    /// The devices, in id order.
    pub fn devices(&self) -> (r: &[Device])
        ensures
            r@ == self.device_registry().seq(),
    {
        self.devices.devices()
    }

    /// The device with this id.
    pub fn device(&self, id: &DeviceId) -> (r: Option<&Device>)
        ensures
            self.device_registry()@.contains_key(id@) ==> r == Some(&self.device_registry()@[id@]),
            !self.device_registry()@.contains_key(id@) ==> r is None,
    {
        self.devices.get(id)
    }

    /// The entity graph.
    pub fn graph(&self) -> (r: &EntityGraph)
        ensures
            *r == self.entity_graph(),
    {
        &self.graph
    }

    /// The scenes, in id order.
    pub fn scenes(&self) -> (r: &[Scene])
        ensures
            r@ == self.scene_list().seq(),
            crate::keyed::keys_sorted(r@),
    {
        self.scenes.as_slice()
    }

    /// The automations, in id order.
    pub fn automations(&self) -> (r: &[Automation])
        ensures
            r@ == self.automation_list().seq(),
            crate::keyed::keys_sorted(r@),
    {
        self.automations.as_slice()
    }

    /// `st` reports the registry sizes, the audit and event counts, and the policy.
    pub open spec fn status_is(&self, st: RuntimeStatus) -> bool {
        &&& st.device_count == self.device_registry().seq().len()
        &&& st.entity_count == self.entity_graph().seq().len()
        &&& st.scene_count == self.scene_list().seq().len()
        &&& st.automation_count == self.automation_list().seq().len()
        &&& st.audit_count == self.audit_log().len()
        &&& st.event_count == self.event_log().len()
        &&& st.safety_policy == self.policy_spec()
    }

    /// The registry sizes, the audit and event counts, and the policy.
    pub fn status(&self) -> (r: RuntimeStatus)
        ensures
            self.status_is(r),
    {
        RuntimeStatus {
            device_count: self.devices.len(),
            entity_count: self.graph.len(),
            scene_count: self.scenes.len(),
            automation_count: self.automations.len(),
            audit_count: self.audit.len(),
            event_count: self.events.len(),
            safety_policy: self.policy,
        }
    }

    /// The audit log, oldest first.
    pub fn audit(&self) -> (r: &[AuditEntry])
        ensures
            r@ == self.audit_log(),
    {
        self.audit.as_slice()
    }

    /// The event log, oldest first.
    pub fn events(&self) -> (r: &[RuntimeEvent])
        ensures
            r@ == self.event_log(),
    {
        self.events.as_slice()
    }

    /// Appends persisted events to the event log; nothing is replayed.
    pub fn restore_events(&mut self, entries: Vec<RuntimeEvent>)
        ensures
            final(self).event_log() == old(self).event_log() + entries@,
            final(self).entities() == old(self).entities(),
            final(self).entity_graph() == old(self).entity_graph(),
            final(self).same_config(old(self)),
            final(self).audit_log() == old(self).audit_log(),
    {
        let mut entries = entries;
        self.events.append(&mut entries);
    }

    /// Appends persisted audit entries to the audit log; no action is replayed.
    pub fn restore_audit_entries(&mut self, entries: Vec<AuditEntry>)
        ensures
            final(self).audit_log() == old(self).audit_log() + entries@,
            final(self).entities() == old(self).entities(),
            final(self).entity_graph() == old(self).entity_graph(),
            final(self).same_config(old(self)),
            final(self).event_log() == old(self).event_log(),
    {
        let mut entries = entries;
        self.audit.append(&mut entries);
    }

    pub fn audit_len(&self) -> (r: usize)
        ensures
            r == self.audit_log().len(),
    {
        self.audit.len()
    }

    pub fn event_len(&self) -> (r: usize)
        ensures
            r == self.event_log().len(),
    {
        self.events.len()
    }

    /// The audit entries from position `index` on; none when `index` is past the end.
    pub fn audit_since(&self, index: usize) -> (r: &[AuditEntry])
        ensures
            index < self.audit_log().len() ==> r@ == self.audit_log().subrange(
                index as int,
                self.audit_log().len() as int,
            ),
            index >= self.audit_log().len() ==> r@.len() == 0,
    {
        let all = self.audit.as_slice();
        if index >= all.len() {
            &all[0..0]
        } else {
            &all[index..all.len()]
        }
    }

    /// The events from position `index` on; none when `index` is past the end.
    pub fn events_since(&self, index: usize) -> (r: &[RuntimeEvent])
        ensures
            index < self.event_log().len() ==> r@ == self.event_log().subrange(
                index as int,
                self.event_log().len() as int,
            ),
            index >= self.event_log().len() ==> r@.len() == 0,
    {
        let all = self.events.as_slice();
        if index >= all.len() {
            &all[0..0]
        } else {
            &all[index..all.len()]
        }
    }

    /// Copies of the last `limit` audit entries (all of them when there are fewer).
    pub fn recent_audit(&self, limit: usize) -> (r: Vec<AuditEntry>)
        ensures
            audit_views(r@) == audit_views(self.audit_log()).subrange(
                tail_start(self.audit_log().len(), limit as nat),
                self.audit_log().len() as int,
            ),
    {
        let len = self.audit.len();
        let start = len.saturating_sub(limit);
        let mut out: Vec<AuditEntry> = Vec::new();
        let mut i: usize = start;
        while i < len
            invariant
                len == self.audit@.len(),
                start == tail_start(len as nat, limit as nat),
                start <= i <= len,
                audit_views(out@) == audit_views(self.audit@).subrange(start as int, i as int),
            decreases len - i,
        {
            let e = self.audit[i].duplicate();
            let ghost before = out@;
            out.push(e);
            proof {
                assert(audit_views(out@) =~= audit_views(before).push((e.command@, e.decision@)));
                assert(audit_views(self.audit@).subrange(start as int, i + 1) =~= audit_views(
                    self.audit@,
                ).subrange(start as int, i as int).push(audit_views(self.audit@)[i as int]));
            }
            i = i + 1;
        }
        out
    }

    /// Copies of the last `limit` events (all of them when there are fewer).
    pub fn recent_events(&self, limit: usize) -> (r: Vec<RuntimeEvent>)
        ensures
            event_views(r@) == event_views(self.event_log()).subrange(
                tail_start(self.event_log().len(), limit as nat),
                self.event_log().len() as int,
            ),
    {
        let len = self.events.len();
        let start = len.saturating_sub(limit);
        let mut out: Vec<RuntimeEvent> = Vec::new();
        let mut i: usize = start;
        while i < len
            invariant
                len == self.events@.len(),
                start == tail_start(len as nat, limit as nat),
                start <= i <= len,
                event_views(out@) == event_views(self.events@).subrange(start as int, i as int),
            decreases len - i,
        {
            let e = self.events[i].duplicate();
            let ghost before = out@;
            out.push(e);
            proof {
                assert(event_views(out@) =~= event_views(before).push(e.kind@));
                assert(event_views(self.events@).subrange(start as int, i + 1) =~= event_views(
                    self.events@,
                ).subrange(start as int, i as int).push(event_views(self.events@)[i as int]));
            }
            i = i + 1;
        }
        out
    }
}

/// `e` is the entity backing `scene` after it is configured over `ents`: the
/// existing entity with scene activation added, or a new entity named after the
/// scene, off, that can activate scenes and nothing else.
pub open spec fn scene_backing(ents: Map<Seq<char>, Entity>, scene: Scene, e: Entity) -> bool {
    if ents.contains_key(scene.id@) {
        &&& e == (Entity { capabilities: e.capabilities, ..ents[scene.id@] })
        &&& e.capabilities@ == ents[scene.id@].capabilities@.insert(Capability::SceneActivation)
    } else {
        &&& e.id == scene.id
        &&& e.display_name@ == scene.display_name@
        &&& e.area is None
        &&& e.device_id is None
        &&& e.state == EntityState::Off
        &&& e.capabilities@ == set![Capability::SceneActivation]
        &&& e.safety_class == SafetyClass::Normal
        &&& e.attributes@ == Map::<Seq<char>, crate::json::JsonMember>::empty()
    }
}

impl HomeRuntime {
    /// Everything observable of `self` is as in `other`.
    pub open spec fn unchanged_from(&self, other: &HomeRuntime) -> bool {
        &&& self.entities() == other.entities()
        &&& self.entity_graph().seq() == other.entity_graph().seq()
        &&& self.scene_list()@ == other.scene_list()@
        &&& self.scene_list().seq() == other.scene_list().seq()
        &&& self.automation_list()@ == other.automation_list()@
        &&& self.automation_list().seq() == other.automation_list().seq()
        &&& self.device_registry() == other.device_registry()
        &&& self.policy_spec() == other.policy_spec()
        &&& self.audit_log() == other.audit_log()
        &&& self.event_log() == other.event_log()
    }

    /// `new` is `self` after a request to configure `scene`, answered with `r`:
    /// the change is made only when the runtime so changed validates without
    /// error, and the answer carries that validation.
    pub open spec fn scene_config_outcome(&self, new: &HomeRuntime, scene: Scene, r: ConfigChangeResult) -> bool {
        &&& r.resource == ConfigResource::Scene
        &&& r.id@ == scene.id@
        &&& r.validation matches Some(rep) && issue_views(rep.issues@) == scene_candidate_issues(*self, scene)
            && rep.ok == r.changed
        &&& r.changed == !has_error(scene_candidate_issues(*self, scene))
        &&& r.changed ==> {
            &&& new.entities() == self.entities().insert(scene.id@, new.entities()[scene.id@])
            &&& scene_backing(self.entities(), scene, new.entities()[scene.id@])
            &&& new.scene_list()@ == self.scene_list()@.insert(scene.id@, scene)
            &&& new.device_registry() == self.device_registry()
            &&& new.automation_list() == self.automation_list()
            &&& new.policy_spec() == self.policy_spec()
            &&& new.audit_log() == self.audit_log()
            &&& new.event_log() == self.event_log()
        }
        &&& !r.changed ==> new.unchanged_from(self)
    }

    /// `new` is `self` after a request to configure `automation`, answered with
    /// `r`: the change is made only when the runtime so changed validates
    /// without error, and the answer carries that validation.
    pub open spec fn automation_config_outcome(
        &self,
        new: &HomeRuntime,
        automation: Automation,
        r: ConfigChangeResult,
    ) -> bool {
        &&& r.resource == ConfigResource::Automation
        &&& r.id@ == automation.id@
        &&& r.validation matches Some(rep) && issue_views(rep.issues@) == automation_candidate_issues(
            *self,
            automation,
        ) && rep.ok == r.changed
        &&& r.changed == !has_error(automation_candidate_issues(*self, automation))
        &&& r.changed ==> {
            &&& new.automation_list()@ == self.automation_list()@.insert(automation.id@, automation)
            &&& new.entity_graph() == self.entity_graph()
            &&& new.scene_list() == self.scene_list()
            &&& new.device_registry() == self.device_registry()
            &&& new.policy_spec() == self.policy_spec()
            &&& new.audit_log() == self.audit_log()
            &&& new.event_log() == self.event_log()
        }
        &&& !r.changed ==> new.unchanged_from(self)
    }

    /// `new` is `self` after removing the scene `id`, answered with `r`.
    pub open spec fn scene_delete_outcome(&self, new: &HomeRuntime, id: Seq<char>, r: ConfigChangeResult) -> bool {
        &&& r.resource == ConfigResource::Scene
        &&& r.id@ == id
        &&& r.changed == self.scene_list()@.contains_key(id)
        &&& r.validation is None
        &&& new.scene_list()@ == self.scene_list()@.remove(id)
        &&& new.entity_graph() == self.entity_graph()
        &&& new.device_registry() == self.device_registry()
        &&& new.automation_list() == self.automation_list()
        &&& new.policy_spec() == self.policy_spec()
        &&& new.audit_log() == self.audit_log()
        &&& new.event_log() == self.event_log()
    }

    /// `new` is `self` after removing the automation `id`, answered with `r`.
    pub open spec fn automation_delete_outcome(&self, new: &HomeRuntime, id: Seq<char>, r: ConfigChangeResult) -> bool {
        &&& r.resource == ConfigResource::Automation
        &&& r.id@ == id
        &&& r.changed == self.automation_list()@.contains_key(id)
        &&& r.validation is None
        &&& new.automation_list()@ == self.automation_list()@.remove(id)
        &&& new.entity_graph() == self.entity_graph()
        &&& new.device_registry() == self.device_registry()
        &&& new.scene_list() == self.scene_list()
        &&& new.policy_spec() == self.policy_spec()
        &&& new.audit_log() == self.audit_log()
        &&& new.event_log() == self.event_log()
    }

    /// Registers `scene` with a scene-capable backing entity, but only when the
    /// runtime so changed validates without error; otherwise nothing changes.
    /// Either way the result carries that validation report.
    pub fn configure_scene(&mut self, scene: Scene) -> (r: ConfigChangeResult)
        ensures
            old(self).scene_config_outcome(final(self), scene, r),
    {
        let ghost old_rt = *self;
        let ghost ents0 = self.entities();
        let ghost sid = scene.id@;
        let id_text = String::from_str(scene.id.as_str());
        let scene_id = scene.id.clone();
        let previous = self.graph.take(&scene.id);
        let mut saved_caps: Option<CapabilitySet> = None;
        let backing = match previous {
            Some(e) => {
                let mut caps = e.capabilities.duplicate();
                caps.insert(Capability::SceneActivation);
                let Entity { id, display_name, area, device_id, state, capabilities, safety_class, attributes } =
                    e;
                saved_caps = Some(capabilities);
                Entity { id, display_name, area, device_id, state, capabilities: caps, safety_class, attributes }
            },
            None => Entity::new(scene.id.clone(), scene.display_name.as_str()).with_state(
                EntityState::Off,
            ).with_capability(Capability::SceneActivation),
        };
        proof {
            if !ents0.contains_key(sid) {
                assert(backing.capabilities@ =~= set![Capability::SceneActivation]);
            }
        }
        let ghost b = backing;
        self.graph.upsert(backing);
        let previous_scene = self.scenes.take(scene.id.as_str());
        let ghost sc = scene;
        self.scenes.upsert(scene);
        proof {
            assert(self.entities() =~= ents0.insert(sid, b));
            assert(self.scene_list()@ =~= old_rt.scene_list()@.insert(sid, sc));
            assert(crate::validation::entity_summaries(self.entities()) =~= crate::validation::entity_summaries(
                ents0,
            ).insert(sid, crate::validation::scene_entity_summary(ents0, sid)));
            assert(crate::validation::scene_summaries(self.scene_list()@) =~= crate::validation::scene_summaries(
                old_rt.scene_list()@,
            ).insert(sid, crate::validation::action_targets(sc.actions@)));
        }
        let report = validate_runtime(self);
        if report.ok {
            ConfigChangeResult {
                resource: ConfigResource::Scene,
                id: id_text,
                changed: true,
                validation: Some(report),
            }
        } else {
            let ghost mid = *self;
            let taken = self.graph.take(&scene_id);
            match (taken, saved_caps) {
                (Some(e), Some(caps)) => {
                    let Entity { id, display_name, area, device_id, state, capabilities, safety_class, attributes } =
                        e;
                    self.graph.upsert(
                        Entity { id, display_name, area, device_id, state, capabilities: caps, safety_class, attributes },
                    );
                },
                _ => {},
            }
            let _ = self.scenes.take(scene_id.as_str());
            match previous_scene {
                Some(s) => self.scenes.upsert(s),
                None => {},
            }
            proof {
                assert(self.entities() =~= ents0);
                assert(self.scene_list()@ =~= old_rt.scene_list()@);
                EntityGraph::lemma_same_entities_same_order(&self.graph, &old_rt.graph);
                crate::keyed::lemma_same_map_same_seq(self.scenes.seq(), old_rt.scenes.seq());
            }
            ConfigChangeResult {
                resource: ConfigResource::Scene,
                id: id_text,
                changed: false,
                validation: Some(report),
            }
        }
    }

    /// Removes the scene with this id; `changed` says whether there was one.
    /// Its backing entity stays.
    pub fn delete_scene(&mut self, scene_id: &EntityId) -> (r: ConfigChangeResult)
        ensures
            old(self).scene_delete_outcome(final(self), scene_id@, r),
    {
        let changed = self.scenes.remove(scene_id.as_str());
        ConfigChangeResult {
            resource: ConfigResource::Scene,
            id: String::from_str(scene_id.as_str()),
            changed,
            validation: None,
        }
    }

    /// Registers `automation`, but only when the runtime so changed validates
    /// without error; otherwise nothing changes. Either way the result carries
    /// that validation report.
    pub fn configure_automation(&mut self, automation: Automation) -> (r: ConfigChangeResult)
        ensures
            old(self).automation_config_outcome(final(self), automation, r),
    {
        let ghost old_rt = *self;
        let ghost aid = automation.id@;
        let ghost a = automation;
        let id_text = automation.id.clone();
        let previous = self.automations.take(automation.id.as_str());
        self.automations.upsert(automation);
        proof {
            assert(self.automation_list()@ =~= old_rt.automation_list()@.insert(aid, a));
            assert(crate::validation::automation_summaries(self.automation_list()@) =~= crate::validation::automation_summaries(
                old_rt.automation_list()@,
            ).insert(aid, crate::validation::automation_summary(a)));
        }
        let report = validate_runtime(self);
        if report.ok {
            ConfigChangeResult {
                resource: ConfigResource::Automation,
                id: id_text,
                changed: true,
                validation: Some(report),
            }
        } else {
            let _ = self.automations.take(id_text.as_str());
            match previous {
                Some(p) => self.automations.upsert(p),
                None => {},
            }
            proof {
                assert(self.automation_list()@ =~= old_rt.automation_list()@);
                crate::keyed::lemma_same_map_same_seq(self.automations.seq(), old_rt.automations.seq());
            }
            ConfigChangeResult {
                resource: ConfigResource::Automation,
                id: id_text,
                changed: false,
                validation: Some(report),
            }
        }
    }

    /// Removes the automation with this id; `changed` says whether there was one.
    pub fn delete_automation(&mut self, automation_id: &str) -> (r: ConfigChangeResult)
        ensures
            old(self).automation_delete_outcome(final(self), automation_id@, r),
    {
        let changed = self.automations.remove(automation_id);
        ConfigChangeResult {
            resource: ConfigResource::Automation,
            id: String::from_str(automation_id),
            changed,
            validation: None,
        }
    }
}

impl HomeRuntime {
    /// `new` is `self` after applying a discovery report, answered with `r`:
    /// every reported device and its entities filed in report order, and one
    /// connectivity event with the counts.
    pub open spec fn connectivity_outcome(
        &self,
        new: &HomeRuntime,
        report: ConnectivityReport,
        r: ConnectivityApplyResult,
    ) -> bool {
        &&& entity_views(new.entities()) == file_report_entities(entity_views(self.entities()), report.devices@)
        &&& device_views(new.device_registry()@) == file_report_devices(
            device_views(self.device_registry()@),
            report.devices@,
        )
        &&& r.source@ == report.source@
        &&& r.devices_seen == report.devices@.len()
        &&& r.entities_upserted == reported_entity_count(report.devices@)
        &&& new.event_log().len() == self.event_log().len() + 1
        &&& new.event_log().take(self.event_log().len() as int) == self.event_log()
        &&& new.event_log().last().kind@ == (EventView::ConnectivityApplied {
            source: report.source@,
            devices_seen: r.devices_seen,
            entities_upserted: r.entities_upserted,
        })
        &&& new.scene_list() == self.scene_list()
        &&& new.automation_list() == self.automation_list()
        &&& new.policy_spec() == self.policy_spec()
        &&& new.audit_log() == self.audit_log()
    }

    /// `new` is `self` after applying a batch of state updates, answered with `r`.
    pub open spec fn state_report_outcome(&self, new: &HomeRuntime, report: StateReport, r: StateApplyResult) -> bool {
        let f = apply_state_updates(
            StateFold { ents: entity_views(self.entities()), events: Seq::empty(), updated: 0, unknown: Seq::empty() },
            report.updates@,
        );
        &&& entity_views(new.entities()) == f.ents
        &&& new.entities().dom() == self.entities().dom()
        &&& r.entities_updated == f.updated
        &&& r.unknown_entities@.map_values(|id: EntityId| id@) == f.unknown
        &&& event_views(new.event_log()) == event_views(self.event_log()) + f.events.push(
            EventView::StateReportApplied {
                source: report.source@,
                updates_seen: report.updates@.len() as usize,
                entities_updated: r.entities_updated,
                unknown_entities: r.unknown_entities@.len() as usize,
            },
        )
        &&& r.source@ == report.source@
        &&& r.updates_seen == report.updates@.len()
        &&& r.entities_updated + r.unknown_entities@.len() == report.updates@.len()
        &&& new.same_config(self)
        &&& new.audit_log() == self.audit_log()
    }
}

/// The device id a reported stable id is filed under.
fn reported_device_id(stable_id: &str) -> (r: DeviceId)
    ensures
        r@ == connectivity_device_id(stable_id@),
{
    match DeviceId::new(stable_id) {
        Ok(id) => id,
        Err(_) => {
            proof {
                reveal_strlit("unknown-device");
                assert(crate::device::all_device_id_chars("unknown-device"@));
            }
            DeviceId::from_valid("unknown-device")
        },
    }
}

/// The registry entry for a reported device filed under `device_id`.
fn reported_device(
    device_id: DeviceId,
    stable_id: &String,
    manufacturer: &Option<String>,
    model: &Option<String>,
) -> (r: Device)
    ensures
        r@ == (DeviceView {
            id: device_id@,
            display_name: match model {
                Some(m) => m@,
                None => stable_id@,
            },
            manufacturer: opt_string_view(*manufacturer),
            model: opt_string_view(*model),
            area: None,
            identifiers: set![stable_id@],
            connections: Set::empty(),
        }),
{
    let name = match model {
        Some(m) => m.as_str(),
        None => stable_id.as_str(),
    };
    let mut d = Device::new(device_id, name);
    match manufacturer {
        Some(m) => {
            d = d.with_manufacturer(m.as_str());
        },
        None => {},
    }
    match model {
        Some(m) => {
            d = d.with_model(m.as_str());
        },
        None => {},
    }
    let ghost before = d;
    d = d.with_identifier(stable_id.as_str());
    proof {
        assert(crate::device::string_set(before.identifiers@) =~= Set::<Seq<char>>::empty());
        assert(crate::device::string_set(d.identifiers@) =~= set![stable_id@]);
        assert(crate::device::string_set(d.connections@) =~= Set::<Seq<char>>::empty());
    }
    d
}

impl HomeRuntime {
    /// Files every reported device and its entities, in report order (a later
    /// report of the same id replaces an earlier one), then records one
    /// connectivity event with the counts.
    pub fn apply_connectivity_report(&mut self, report: ConnectivityReport) -> (r: ConnectivityApplyResult)
        requires
            reported_entity_count(report.devices@) <= usize::MAX,
        ensures
            old(self).connectivity_outcome(final(self), report, r),
    {
        let ghost e0 = entity_views(self.entities());
        let ghost d0 = device_views(self.device_registry()@);
        let ghost ev0 = self.events@;
        let ghost ds = report.devices@;
        let ConnectivityReport { source, devices } = report;
        let mut devices = devices;
        let devices_seen = devices.len();
        let mut entities_upserted: usize = 0;
        let mut i: usize = 0;
        proof {
            assert(ds.take(0) =~= Seq::<ConnectivityDevice>::empty());
        }
        while devices.len() > 0
            invariant
                i <= ds.len(),
                ds.len() == devices_seen,
                devices@ == ds.skip(i as int),
                reported_entity_count(ds) <= usize::MAX,
                entity_views(self.entities()) == file_report_entities(e0, ds.take(i as int)),
                device_views(self.device_registry()@) == file_report_devices(d0, ds.take(i as int)),
                entities_upserted == reported_entity_count(ds.take(i as int)),
                self.events@ == ev0,
                self.scene_list() == old(self).scene_list(),
                self.automation_list() == old(self).automation_list(),
                self.policy_spec() == old(self).policy_spec(),
                self.audit_log() == old(self).audit_log(),
            decreases devices@.len(),
        {
            let device = devices.remove(0);
            proof {
                assert(device == ds[i as int]);
                assert(devices@ =~= ds.skip(i + 1));
                assert(ds.take(i + 1).drop_last() =~= ds.take(i as int));
                lemma_reported_count_prefix(ds, i + 1);
            }
            let ConnectivityDevice { stable_id, protocol: _, manufacturer, model, entities } = device;
            let device_id = reported_device_id(stable_id.as_str());
            let registry = reported_device(device_id.clone(), &stable_id, &manufacturer, &model);
            let ghost dm = self.device_registry()@;
            self.devices.upsert(registry);
            proof {
                assert(device_views(self.device_registry()@) =~= device_views(dm).insert(
                    device_id@,
                    reported_device_view(ds[i as int]),
                ));
            }
            let ghost es = entities@;
            let ghost em = entity_views(self.entities());
            let mut entities = entities;
            let mut j: usize = 0;
            proof {
                assert(es.take(0) =~= Seq::<ConnectivityEntity>::empty());
            }
            while entities.len() > 0
                invariant
                    j <= es.len(),
                    entities@ == es.skip(j as int),
                    entity_views(self.entities()) == file_device_entities(em, es.take(j as int), device_id@),
                    entities_upserted == reported_entity_count(ds.take(i as int)) + j,
                    reported_entity_count(ds.take(i as int)) + es.len() <= usize::MAX,
                    self.events@ == ev0,
                    self.scene_list() == old(self).scene_list(),
                    self.automation_list() == old(self).automation_list(),
                    self.policy_spec() == old(self).policy_spec(),
                    self.audit_log() == old(self).audit_log(),
                    i < ds.len(),
                    ds.len() == devices_seen,
                    device_views(self.device_registry()@) == file_report_devices(d0, ds.take(i + 1)),
                    em == file_report_entities(e0, ds.take(i as int)),
                    es == ds[i as int].entities@,
                    device_id@ == connectivity_device_id(ds[i as int].stable_id@),
                decreases entities@.len(),
            {
                let ce = entities.remove(0);
                proof {
                    assert(ce == es[j as int]);
                    assert(entities@ =~= es.skip(j + 1));
                    assert(es.take(j + 1).drop_last() =~= es.take(j as int));
                }
                let ghost gm = self.entities();
                let entity = ce.into_entity().with_device_id(device_id.clone());
                self.graph.upsert(entity);
                proof {
                    assert(entity@ == reported_entity_view(es[j as int], device_id@)) by {
                        assert(attribute_views(entity.attributes@) =~= Map::<Seq<char>, crate::json::JsonView>::empty());
                    }
                    assert(entity_views(self.entities()) =~= entity_views(gm).insert(entity.id@, entity@));
                }
                entities_upserted = entities_upserted + 1;
                j = j + 1;
            }
            proof {
                assert(es.take(j as int) =~= es);
            }
            i = i + 1;
        }
        proof {
            assert(ds.take(i as int) =~= ds);
        }
        let result = ConnectivityApplyResult { source, devices_seen, entities_upserted };
        let kind = RuntimeEventKind::ConnectivityApplied {
            source: result.source.clone(),
            devices_seen: result.devices_seen,
            entities_upserted: result.entities_upserted,
        };
        self.events.push(RuntimeEvent::new(kind));
        proof {
            assert(self.events@.take(ev0.len() as int) =~= ev0);
        }
        result
    }
}

impl HomeRuntime {
    /// Applies each state update in order to the entity it names: the entity
    /// takes the new state and merges the attributes, with a bridge state-change
    /// event when the state differs; updates naming unknown entities change
    /// nothing and are listed. Then one report event records the counts.
    pub fn apply_state_report(&mut self, report: StateReport) -> (r: StateApplyResult)
        ensures
            old(self).state_report_outcome(final(self), report, r),
    {
        let ghost g0 = self.entities();
        let ghost ev0 = event_views(self.events@);
        let ghost us = report.updates@;
        let ghost f0 = StateFold {
            ents: entity_views(g0),
            events: Seq::empty(),
            updated: 0,
            unknown: Seq::empty(),
        };
        let StateReport { source, updates } = report;
        let mut updates = updates;
        let updates_seen = updates.len();
        let mut entities_updated: usize = 0;
        let mut unknown_entities: Vec<EntityId> = Vec::new();
        let mut i: usize = 0;
        proof {
            assert(us.take(0) =~= Seq::<EntityStateUpdate>::empty());
            assert(ev0 + f0.events =~= ev0);
        }
        while updates.len() > 0
            invariant
                i <= us.len(),
                us.len() == updates_seen,
                updates@ == us.skip(i as int),
                entity_views(self.entities()) == apply_state_updates(f0, us.take(i as int)).ents,
                self.entities().dom() == g0.dom(),
                entities_updated == apply_state_updates(f0, us.take(i as int)).updated,
                unknown_entities@.map_values(|id: EntityId| id@) == apply_state_updates(
                    f0,
                    us.take(i as int),
                ).unknown,
                entities_updated + unknown_entities@.len() == i,
                event_views(self.events@) == ev0 + apply_state_updates(f0, us.take(i as int)).events,
                self.same_config(old(self)),
                self.audit_log() == old(self).audit_log(),
            decreases updates@.len(),
        {
            let update = updates.remove(0);
            let ghost f = apply_state_updates(f0, us.take(i as int));
            proof {
                assert(update == us[i as int]);
                assert(updates@ =~= us.skip(i + 1));
                assert(us.take(i + 1).drop_last() =~= us.take(i as int));
            }
            let EntityStateUpdate { entity_id, state, attributes } = update;
            let ghost gm = self.entities();
            let ghost evm = self.events@;
            match self.graph.take(&entity_id) {
                Some(current) => {
                    let old_state = current.state.clone();
                    let changed = !old_state.same_as(&state);
                    let mut next = current.with_state(state);
                    let ghost attrs0 = next.attributes@;
                    next.attributes.extend(attributes);
                    proof {
                        assert(attribute_views(next.attributes@) =~= attribute_views(attrs0).union_prefer_right(
                            attribute_views(update.attributes@),
                        ));
                    }
                    if changed {
                        let kind = RuntimeEventKind::StateChanged {
                            entity_id: next.id.clone(),
                            old_state,
                            new_state: next.state.clone(),
                            origin: CommandOrigin::Bridge,
                        };
                        self.events.push(RuntimeEvent::new(kind));
                        proof {
                            assert(event_views(self.events@) =~= event_views(evm).push(kind@));
                        }
                    }
                    let ghost nv = next@;
                    self.graph.upsert(next);
                    entities_updated = entities_updated + 1;
                    proof {
                        assert(entity_views(self.entities()) =~= entity_views(gm).insert(entity_id@, nv));
                        assert(self.entities().dom() =~= g0.dom());
                    }
                },
                None => {
                    unknown_entities.push(entity_id);
                    proof {
                        assert(self.graph@ =~= gm);
                    }
                },
            }
            proof {
                let f1 = apply_state_updates(f0, us.take(i + 1));
                assert(f1 == apply_state_update(f, us[i as int]));
                assert(unknown_entities@.map_values(|id: EntityId| id@) =~= f1.unknown);
                assert(event_views(self.events@) =~= ev0 + f1.events);
            }
            i = i + 1;
        }
        proof {
            assert(us.take(i as int) =~= us);
        }
        let unknown_count = unknown_entities.len();
        let result = StateApplyResult { source, updates_seen, entities_updated, unknown_entities };
        let kind = RuntimeEventKind::StateReportApplied {
            source: result.source.clone(),
            updates_seen,
            entities_updated,
            unknown_entities: unknown_count,
        };
        let ghost evb = self.events@;
        self.events.push(RuntimeEvent::new(kind));
        proof {
            assert(event_views(self.events@) =~= event_views(evb).push(kind@));
        }
        result
    }
}

impl HomeRuntime {
    fn device_snapshots(&self) -> (r: Vec<DeviceSnapshot>)
        ensures
            r@.len() == self.device_registry().seq().len(),
            forall|i: int| 0 <= i < r@.len() ==> (#[trigger] r@[i]).device@ == self.device_registry().seq()[i]@,
    {
        let ds = self.devices();
        let mut out: Vec<DeviceSnapshot> = Vec::new();
        let mut i: usize = 0;
        while i < ds.len()
            invariant
                i <= ds@.len(),
                ds@ == self.device_registry().seq(),
                out@.len() == i,
                forall|k: int| 0 <= k < i ==> (#[trigger] out@[k]).device@ == ds@[k]@,
            decreases ds@.len() - i,
        {
            out.push(DeviceSnapshot::of(&ds[i]));
            i = i + 1;
        }
        out
    }

    fn entity_snapshots(&self) -> (r: Vec<EntitySnapshot>)
        ensures
            r@.len() == self.entity_graph().seq().len(),
            forall|i: int| 0 <= i < r@.len() ==> (#[trigger] r@[i]).entity@ == self.entity_graph().seq()[i]@,
    {
        let es = self.graph.entities();
        let mut out: Vec<EntitySnapshot> = Vec::new();
        let mut i: usize = 0;
        while i < es.len()
            invariant
                i <= es@.len(),
                es@ == self.entity_graph().seq(),
                out@.len() == i,
                forall|k: int| 0 <= k < i ==> (#[trigger] out@[k]).entity@ == es@[k]@,
            decreases es@.len() - i,
        {
            out.push(EntitySnapshot::of(&es[i]));
            i = i + 1;
        }
        out
    }

    fn automation_copies(&self) -> (r: Vec<Automation>)
        ensures
            r@.len() == self.automation_list().seq().len(),
            forall|i: int| 0 <= i < r@.len() ==> same_automation(#[trigger] r@[i], self.automation_list().seq()[i]),
    {
        let xs = self.automations.as_slice();
        let mut out: Vec<Automation> = Vec::new();
        let mut i: usize = 0;
        while i < xs.len()
            invariant
                i <= xs@.len(),
                xs@ == self.automation_list().seq(),
                out@.len() == i,
                forall|k: int| 0 <= k < i ==> same_automation(#[trigger] out@[k], xs@[k]),
            decreases xs@.len() - i,
        {
            out.push(xs[i].duplicate());
            i = i + 1;
        }
        out
    }

    fn scene_copies(&self) -> (r: Vec<Scene>)
        ensures
            r@.len() == self.scene_list().seq().len(),
            forall|i: int| 0 <= i < r@.len() ==> same_scene(#[trigger] r@[i], self.scene_list().seq()[i]),
    {
        let xs = self.scenes.as_slice();
        let mut out: Vec<Scene> = Vec::new();
        let mut i: usize = 0;
        while i < xs.len()
            invariant
                i <= xs@.len(),
                xs@ == self.scene_list().seq(),
                out@.len() == i,
                forall|k: int| 0 <= k < i ==> same_scene(#[trigger] out@[k], xs@[k]),
            decreases xs@.len() - i,
        {
            out.push(xs[i].duplicate());
            i = i + 1;
        }
        out
    }

    /// Answers one protocol request. Listing, status, validation, audit, event
    /// and evaluation requests leave the runtime as it was; the others do what
    /// the method of the same name does, and answer with its result.
    pub fn handle_request(&mut self, request: RuntimeRequest) -> (r: RuntimeResponse)
        requires
            request matches RuntimeRequest::ApplyConnectivityReport { report } ==> reported_entity_count(
                report.devices@,
            ) <= usize::MAX,
        ensures
            match request {
                RuntimeRequest::Status => *final(self) == *old(self) && (r matches RuntimeResponse::Status {
                    status,
                } && old(self).status_is(status)),
                RuntimeRequest::Validate => *final(self) == *old(self) && (r matches RuntimeResponse::Validation {
                    report,
                } && issue_views(report.issues@) == runtime_issues(*old(self)) && report.ok == !has_error(
                    runtime_issues(*old(self)),
                )),
                RuntimeRequest::ListDevices => *final(self) == *old(self) && (r matches RuntimeResponse::Devices {
                    devices,
                } && devices@.len() == old(self).device_registry().seq().len() && forall|i: int|
                    0 <= i < devices@.len() ==> (#[trigger] devices@[i]).device@ == old(
                        self,
                    ).device_registry().seq()[i]@),
                RuntimeRequest::ListEntities => *final(self) == *old(self) && (r matches RuntimeResponse::Entities {
                    entities,
                } && entities@.len() == old(self).entity_graph().seq().len() && forall|i: int|
                    0 <= i < entities@.len() ==> (#[trigger] entities@[i]).entity@ == old(
                        self,
                    ).entity_graph().seq()[i]@),
                RuntimeRequest::ListAutomations => *final(self) == *old(self) && (
                r matches RuntimeResponse::Automations { automations } && automations@.len() == old(
                    self,
                ).automation_list().seq().len() && forall|i: int|
                    0 <= i < automations@.len() ==> same_automation(
                        #[trigger] automations@[i],
                        old(self).automation_list().seq()[i],
                    )),
                RuntimeRequest::ListServices => *final(self) == *old(self) && (r matches RuntimeResponse::Services {
                    services,
                } && services@.map_values(|x: ServiceSpec| x@) == service_table()),
                RuntimeRequest::ListDomains => *final(self) == *old(self) && (r matches RuntimeResponse::Domains {
                    domains,
                } && keys_sorted(domains@) && seq_to_map(domains@).map_values(|x: DomainSupport| x@)
                    == domain_matrix()),
                RuntimeRequest::HardwareInventory => *final(self) == *old(self) && (
                r matches RuntimeResponse::HardwareInventory { inventory } && inventory.adapters@.map_values(
                    |a: HardwareAdapterStatus| a@,
                ) == hardware_table()),
                RuntimeRequest::Audit { limit } => *final(self) == *old(self) && (r matches RuntimeResponse::Audit {
                    entries,
                } && audit_views(entries@) == audit_views(old(self).audit_log()).subrange(
                    tail_start(
                        old(self).audit_log().len(),
                        match limit {
                            Some(n) => n as nat,
                            None => 20,
                        },
                    ),
                    old(self).audit_log().len() as int,
                )),
                RuntimeRequest::Events { limit } => *final(self) == *old(self) && (r matches RuntimeResponse::Events {
                    events,
                } && event_views(events@) == event_views(old(self).event_log()).subrange(
                    tail_start(
                        old(self).event_log().len(),
                        match limit {
                            Some(n) => n as nat,
                            None => 50,
                        },
                    ),
                    old(self).event_log().len() as int,
                )),
                RuntimeRequest::ListScenes => *final(self) == *old(self) && (r matches RuntimeResponse::Scenes {
                    scenes,
                } && scenes@.len() == old(self).scene_list().seq().len() && forall|i: int|
                    0 <= i < scenes@.len() ==> same_scene(#[trigger] scenes@[i], old(self).scene_list().seq()[i])),
                RuntimeRequest::Evaluate { command } => *final(self) == *old(self) && (
                r matches RuntimeResponse::Command { result } && result.decision@ == old(self).verdict(command@)
                    && !result.executed),
                RuntimeRequest::Execute { command } => r matches RuntimeResponse::Command { result } && old(
                    self,
                ).executed(final(self), command@, result.decision@) && result.executed == result.decision.allowed,
                RuntimeRequest::CallService { call } => match service_commands(old(self).entities(), call@) {
                    Err(e) => (r matches RuntimeResponse::Error { error } && error@ == error_text(e)) && *final(self)
                        == *old(self),
                    Ok(cs) => r matches RuntimeResponse::ServiceCall { result } && old(self).service_outcome(
                        final(self),
                        call@,
                        cs,
                        result,
                    ),
                },
                RuntimeRequest::UpsertScene { scene } => r matches RuntimeResponse::ConfigChanged { result } && old(
                    self,
                ).scene_config_outcome(final(self), scene, result),
                RuntimeRequest::DeleteScene { scene_id } => r matches RuntimeResponse::ConfigChanged { result }
                    && old(self).scene_delete_outcome(final(self), scene_id@, result),
                RuntimeRequest::UpsertAutomation { automation } => r matches RuntimeResponse::ConfigChanged {
                    result,
                } && old(self).automation_config_outcome(final(self), automation, result),
                RuntimeRequest::DeleteAutomation { automation_id } => r matches RuntimeResponse::ConfigChanged {
                    result,
                } && old(self).automation_delete_outcome(final(self), automation_id@, result),
                RuntimeRequest::ApplyConnectivityReport { report } => r matches RuntimeResponse::ConnectivityApplied {
                    result,
                } && old(self).connectivity_outcome(final(self), report, result),
                RuntimeRequest::ApplyStateReport { report } => r matches RuntimeResponse::StateApplied { result }
                    && old(self).state_report_outcome(final(self), report, result),
                RuntimeRequest::RunAutomationTick { now_hh_mm } => r matches RuntimeResponse::AutomationTick {
                    result,
                } && old(self).tick_outcome(final(self), now_hh_mm@, result),
            },
    {
        match request {
            RuntimeRequest::Status => RuntimeResponse::Status { status: self.status() },
            RuntimeRequest::Validate => RuntimeResponse::Validation { report: validate_runtime(self) },
            RuntimeRequest::ListDevices => RuntimeResponse::Devices { devices: self.device_snapshots() },
            RuntimeRequest::ListEntities => RuntimeResponse::Entities { entities: self.entity_snapshots() },
            RuntimeRequest::ListAutomations => RuntimeResponse::Automations { automations: self.automation_copies() },
            RuntimeRequest::ListServices => RuntimeResponse::Services { services: service_specs() },
            RuntimeRequest::ListDomains => RuntimeResponse::Domains { domains: domain_support_matrix() },
            RuntimeRequest::HardwareInventory => RuntimeResponse::HardwareInventory {
                inventory: default_hardware_inventory(),
            },
            RuntimeRequest::Audit { limit } => {
                let n = match limit {
                    Some(n) => n,
                    None => 20,
                };
                RuntimeResponse::Audit { entries: self.recent_audit(n) }
            },
            RuntimeRequest::Events { limit } => {
                let n = match limit {
                    Some(n) => n,
                    None => 50,
                };
                RuntimeResponse::Events { events: self.recent_events(n) }
            },
            RuntimeRequest::ListScenes => RuntimeResponse::Scenes { scenes: self.scene_copies() },
            RuntimeRequest::Evaluate { command } => {
                let decision = self.evaluate(&command);
                RuntimeResponse::Command { result: CommandResponse { decision, executed: false } }
            },
            RuntimeRequest::Execute { command } => {
                let decision = self.execute(command);
                let executed = decision.allowed;
                RuntimeResponse::Command { result: CommandResponse { decision, executed } }
            },
            RuntimeRequest::CallService { call } => match self.call_service(call) {
                Ok(result) => RuntimeResponse::ServiceCall { result },
                Err(err) => RuntimeResponse::Error { error: err.message() },
            },
            RuntimeRequest::UpsertScene { scene } => RuntimeResponse::ConfigChanged {
                result: self.configure_scene(scene),
            },
            RuntimeRequest::DeleteScene { scene_id } => RuntimeResponse::ConfigChanged {
                result: self.delete_scene(&scene_id),
            },
            RuntimeRequest::UpsertAutomation { automation } => RuntimeResponse::ConfigChanged {
                result: self.configure_automation(automation),
            },
            RuntimeRequest::DeleteAutomation { automation_id } => RuntimeResponse::ConfigChanged {
                result: self.delete_automation(automation_id.as_str()),
            },
            RuntimeRequest::ApplyConnectivityReport { report } => {
                let result = self.apply_connectivity_report(report);
                RuntimeResponse::ConnectivityApplied { result }
            },
            RuntimeRequest::ApplyStateReport { report } => {
                let result = self.apply_state_report(report);
                RuntimeResponse::StateApplied { result }
            },
            RuntimeRequest::RunAutomationTick { now_hh_mm } => {
                let result = self.run_automation_tick(now_hh_mm);
                RuntimeResponse::AutomationTick { result }
            },
        }
    }
}

/// An action on `id` of the given kind, at full confidence, with no value.
pub open spec fn plain_action(id: Seq<char>, kind: HomeActionKind) -> ActionView {
    ActionView { entity: id, confidence: CONFIDENCE_ONE, kind, value: None }
}

/// The demo device with this id, name, model and area, made by GeniePod.
pub open spec fn demo_device(id: Seq<char>, name: Seq<char>, model: Seq<char>, area: Seq<char>) -> DeviceView {
    DeviceView {
        id,
        display_name: name,
        manufacturer: Some("GeniePod"@),
        model: Some(model),
        area: Some(area),
        identifiers: Set::empty(),
        connections: Set::empty(),
    }
}

/// A demo entity with no attributes and normal safety.
pub open spec fn demo_entity(
    id: Seq<char>,
    name: Seq<char>,
    area: Seq<char>,
    device: Option<Seq<char>>,
    state: StateView,
    capability: Capability,
) -> EntityView {
    EntityView {
        id,
        display_name: name,
        area: Some(area),
        device_id: device,
        state,
        capabilities: set![capability],
        safety_class: SafetyClass::Normal,
        attributes: Map::empty(),
    }
}

fn demo_entity_id(s: &str) -> (r: EntityId)
    requires
        crate::entity::valid_entity_id(s@),
    ensures
        r@ == s@,
{
    EntityId::from_valid(s)
}

/// The demo home: a kitchen light and a front-door lock with their devices, a
/// movie-night scene that turns the light on, and an automation that turns it
/// off at 23:00, under the default policy.
pub fn demo_runtime() -> (r: HomeRuntime)
    ensures
        r.policy_spec() == default_policy(),
        device_views(r.device_registry()@) == map![
            "device.kitchen_light"@ => demo_device(
                "device.kitchen_light"@,
                "Kitchen Light Device"@,
                "Demo Light"@,
                "kitchen"@,
            ),
            "device.front_door_lock"@ => demo_device(
                "device.front_door_lock"@,
                "Front Door Lock Device"@,
                "Demo Lock"@,
                "entry"@,
            ),
        ],
        entity_views(r.entities()) == map![
            "light.kitchen"@ => demo_entity(
                "light.kitchen"@,
                "Kitchen Light"@,
                "kitchen"@,
                Some("device.kitchen_light"@),
                StateView::Off,
                Capability::Power,
            ),
            "lock.front_door"@ => demo_entity(
                "lock.front_door"@,
                "Front Door"@,
                "entry"@,
                Some("device.front_door_lock"@),
                StateView::Locked,
                Capability::Lock,
            ),
            "scene.movie_night"@ => demo_entity(
                "scene.movie_night"@,
                "Movie Night"@,
                "living_room"@,
                None,
                StateView::Off,
                Capability::SceneActivation,
            ),
        ],
        r.scene_list()@.dom() == set!["scene.movie_night"@],
        r.scene_list()@["scene.movie_night"@].display_name@ == "Movie Night"@,
        action_views(r.scene_list()@["scene.movie_night"@].actions@) == seq![
            plain_action("light.kitchen"@, HomeActionKind::TurnOn),
        ],
        r.automation_list()@.dom() == set!["automation.kitchen_lights_out"@],
        r.automation_list()@["automation.kitchen_lights_out"@].display_name@ == "Kitchen Lights Out"@,
        r.automation_list()@["automation.kitchen_lights_out"@].enabled,
        crate::validation::trigger_time(r.automation_list()@["automation.kitchen_lights_out"@].trigger)
            == "23:00"@,
        r.automation_list()@["automation.kitchen_lights_out"@].conditions@.len() == 0,
        action_views(r.automation_list()@["automation.kitchen_lights_out"@].actions@) == seq![
            plain_action("light.kitchen"@, HomeActionKind::TurnOff),
        ],
        r.audit_log().len() == 0,
        r.event_log().len() == 0,
{
    let mut runtime = HomeRuntime::with_default_policy();
    proof {
        reveal_strlit("light.kitchen");
        reveal_strlit("lock.front_door");
        reveal_strlit("scene.movie_night");
        reveal_strlit("device.kitchen_light");
        reveal_strlit("device.front_door_lock");
        assert("light.kitchen"@[5] == '.');
        assert("lock.front_door"@[4] == '.');
        assert("scene.movie_night"@[5] == '.');
        assert(crate::device::all_device_id_chars("device.kitchen_light"@));
        assert(crate::device::all_device_id_chars("device.front_door_lock"@));
    }
    let kitchen_light = demo_entity_id("light.kitchen");
    let front_door = demo_entity_id("lock.front_door");
    let movie_scene = demo_entity_id("scene.movie_night");
    let kitchen_device = DeviceId::from_valid("device.kitchen_light");
    let front_door_device = DeviceId::from_valid("device.front_door_lock");
    let d1 = Device::new(kitchen_device.clone(), "Kitchen Light Device").with_manufacturer("GeniePod").with_model(
        "Demo Light",
    ).with_area("kitchen");
    let d2 = Device::new(front_door_device.clone(), "Front Door Lock Device").with_manufacturer(
        "GeniePod",
    ).with_model("Demo Lock").with_area("entry");
    proof {
        assert(crate::device::string_set(d1.identifiers@) =~= Set::<Seq<char>>::empty());
        assert(crate::device::string_set(d1.connections@) =~= Set::<Seq<char>>::empty());
        assert(crate::device::string_set(d2.identifiers@) =~= Set::<Seq<char>>::empty());
        assert(crate::device::string_set(d2.connections@) =~= Set::<Seq<char>>::empty());
    }
    runtime.upsert_device(d1);
    runtime.upsert_device(d2);
    let e1 = Entity::new(kitchen_light.clone(), "Kitchen Light").with_area("kitchen").with_device_id(
        kitchen_device,
    ).with_state(EntityState::Off).with_capability(Capability::Power);
    let e2 = Entity::new(front_door, "Front Door").with_area("entry").with_device_id(front_door_device).with_state(
        EntityState::Locked,
    ).with_capability(Capability::Lock);
    let e3 = Entity::new(movie_scene.clone(), "Movie Night").with_area("living_room").with_state(
        EntityState::Off,
    ).with_capability(Capability::SceneActivation);
    proof {
        assert(e1.capabilities@ =~= set![Capability::Power]);
        assert(e2.capabilities@ =~= set![Capability::Lock]);
        assert(e3.capabilities@ =~= set![Capability::SceneActivation]);
        assert(attribute_views(e1.attributes@) =~= Map::<Seq<char>, crate::json::JsonView>::empty());
        assert(attribute_views(e2.attributes@) =~= Map::<Seq<char>, crate::json::JsonView>::empty());
        assert(attribute_views(e3.attributes@) =~= Map::<Seq<char>, crate::json::JsonView>::empty());
    }
    runtime.upsert_entity(e1);
    runtime.upsert_entity(e2);
    runtime.upsert_entity(e3);
    let scene = Scene::new(movie_scene, "Movie Night").with_action(
        HomeAction {
            target: TargetSelector::exact(kitchen_light.clone()),
            kind: HomeActionKind::TurnOn,
            value: None,
        },
    );
    proof {
        assert(action_views(scene.actions@) =~= seq![plain_action("light.kitchen"@, HomeActionKind::TurnOn)]);
    }
    runtime.upsert_scene(scene);
    let automation = Automation::new(
        "automation.kitchen_lights_out",
        "Kitchen Lights Out",
        AutomationTrigger::TimeOfDay { hh_mm: String::from_str("23:00") },
    ).with_action(
        HomeAction { target: TargetSelector::exact(kitchen_light), kind: HomeActionKind::TurnOff, value: None },
    );
    proof {
        assert(action_views(automation.actions@) =~= seq![
            plain_action("light.kitchen"@, HomeActionKind::TurnOff),
        ]);
    }
    runtime.upsert_automation(automation);
    proof {
        assert(device_views(runtime.device_registry()@) =~= map![
            "device.kitchen_light"@ => demo_device(
                "device.kitchen_light"@,
                "Kitchen Light Device"@,
                "Demo Light"@,
                "kitchen"@,
            ),
            "device.front_door_lock"@ => demo_device(
                "device.front_door_lock"@,
                "Front Door Lock Device"@,
                "Demo Lock"@,
                "entry"@,
            ),
        ]);
        assert(entity_views(runtime.entities()) =~= map![
            "light.kitchen"@ => demo_entity(
                "light.kitchen"@,
                "Kitchen Light"@,
                "kitchen"@,
                Some("device.kitchen_light"@),
                StateView::Off,
                Capability::Power,
            ),
            "lock.front_door"@ => demo_entity(
                "lock.front_door"@,
                "Front Door"@,
                "entry"@,
                Some("device.front_door_lock"@),
                StateView::Locked,
                Capability::Lock,
            ),
            "scene.movie_night"@ => demo_entity(
                "scene.movie_night"@,
                "Movie Night"@,
                "living_room"@,
                None,
                StateView::Off,
                Capability::SceneActivation,
            ),
        ]);
        assert(runtime.scene_list()@.dom() =~= set!["scene.movie_night"@]);
        assert(runtime.automation_list()@.dom() =~= set!["automation.kitchen_lights_out"@]);
    }
    runtime
}

/// A voice command to turn the demo kitchen light on.
pub fn demo_turn_on_kitchen_command() -> (r: HomeCommand)
    ensures
        r@ == (CommandView {
            origin: CommandOrigin::Voice,
            action: plain_action("light.kitchen"@, HomeActionKind::TurnOn),
            confirmed: false,
            approval: None,
            reason: None,
        }),
{
    proof {
        reveal_strlit("light.kitchen");
        assert("light.kitchen"@[5] == '.');
    }
    HomeCommand::new(
        CommandOrigin::Voice,
        HomeAction {
            target: TargetSelector::exact(demo_entity_id("light.kitchen")),
            kind: HomeActionKind::TurnOn,
            value: None,
        },
    )
}

} // verus!
