//! Consistency checks over the runtime's configuration: entities, scenes and automations.

use vstd::prelude::*;
use crate::automation::{Automation, AutomationTrigger};
use crate::command::{HomeAction, HomeActionKind};
use crate::entity::{Capability, Entity};
use crate::keyed::{Keyed, key_seq, lemma_key_index_unique, lemma_key_seq_sorted, seq_to_map, sorted_keys};
use crate::runtime::HomeRuntime;
use crate::scene::Scene;
use crate::scheduler::hh_mm_minutes;
use crate::text::{join3, join4};

verus! {

#[derive(Debug, Clone, Copy, PartialEq, Eq, Structural)]
pub enum ValidationSeverity {
    Error,
    Warning,
}

/// One finding: how serious, a stable code, and a message naming what is wrong.
#[derive(Debug, Clone)]
pub struct ValidationIssue {
    pub severity: ValidationSeverity,
    pub code: String,
    pub message: String,
}

pub struct IssueView {
    pub severity: ValidationSeverity,
    pub code: Seq<char>,
    pub message: Seq<char>,
}

impl View for ValidationIssue {
    type V = IssueView;

    open spec fn view(&self) -> IssueView {
        IssueView { severity: self.severity, code: self.code@, message: self.message@ }
    }
}

pub open spec fn issue_views(issues: Seq<ValidationIssue>) -> Seq<IssueView> {
    issues.map_values(|i: ValidationIssue| i@)
}

/// Some issue is an error.
pub open spec fn has_error(issues: Seq<IssueView>) -> bool {
    exists|i: int| 0 <= i < issues.len() && #[trigger] issues[i].severity == ValidationSeverity::Error
}

/// The findings, and whether none of them is an error.
#[derive(Debug, Clone)]
pub struct ValidationReport {
    pub ok: bool,
    pub issues: Vec<ValidationIssue>,
}

impl ValidationReport {
    /// A report over `issues`: it is ok when no issue is an error.
    pub fn new(issues: Vec<ValidationIssue>) -> (r: ValidationReport)
        ensures
            r.issues == issues,
            r.ok == !has_error(issue_views(issues@)),
    {
        let mut ok = true;
        let mut i: usize = 0;
        while i < issues.len()
            invariant
                i <= issues@.len(),
                ok == !(exists|j: int| 0 <= j < i && #[trigger] issues@[j].severity == ValidationSeverity::Error),
            decreases issues@.len() - i,
        {
            if issues[i].severity == ValidationSeverity::Error {
                ok = false;
            }
            i = i + 1;
        }
        proof {
            let v = issue_views(issues@);
            if has_error(v) {
                let j = choose|j: int| 0 <= j < v.len() && #[trigger] v[j].severity == ValidationSeverity::Error;
                assert(issues@[j].severity == ValidationSeverity::Error);
            }
            if !ok {
                let j = choose|j: int| 0 <= j < i && #[trigger] issues@[j].severity == ValidationSeverity::Error;
                assert(v[j].severity == ValidationSeverity::Error);
            }
        }
        ValidationReport { ok, issues }
    }
}

pub open spec fn error_issue(code: Seq<char>, message: Seq<char>) -> IssueView {
    IssueView { severity: ValidationSeverity::Error, code, message }
}

pub open spec fn warning_issue(code: Seq<char>, message: Seq<char>) -> IssueView {
    IssueView { severity: ValidationSeverity::Warning, code, message }
}

// ---------------------------------------------------------------------------
// What validation looks at.
// ---------------------------------------------------------------------------

/// What validation reads of an entity: its device, and whether it can activate a scene.
pub struct EntitySummary {
    pub device: Option<Seq<char>>,
    pub scene_capable: bool,
}

pub open spec fn entity_summary(e: Entity) -> EntitySummary {
    EntitySummary {
        device: match e.device_id {
            Some(d) => Some(d@),
            None => None,
        },
        scene_capable: e.capabilities@.contains(Capability::SceneActivation),
    }
}

pub open spec fn entity_summaries(m: Map<Seq<char>, Entity>) -> Map<Seq<char>, EntitySummary> {
    m.map_values(|e: Entity| entity_summary(e))
}

/// The target ids of a list of actions, in order.
pub open spec fn action_targets(actions: Seq<HomeAction>) -> Seq<Seq<char>> {
    actions.map_values(|a: HomeAction| a.target.entity_id@)
}

/// What validation reads of each scene: its action targets.
pub open spec fn scene_summaries(m: Map<Seq<char>, Scene>) -> Map<Seq<char>, Seq<Seq<char>>> {
    m.map_values(|s: Scene| action_targets(s.actions@))
}

/// What validation reads of an automation: its trigger time and its actions' targets and kinds.
pub struct AutomationSummary {
    pub hh_mm: Seq<char>,
    pub actions: Seq<(Seq<char>, HomeActionKind)>,
}

pub open spec fn trigger_time(t: AutomationTrigger) -> Seq<char> {
    match t {
        AutomationTrigger::TimeOfDay { hh_mm } => hh_mm@,
    }
}

pub open spec fn automation_summary(a: Automation) -> AutomationSummary {
    AutomationSummary {
        hh_mm: trigger_time(a.trigger),
        actions: a.actions@.map_values(|x: HomeAction| (x.target.entity_id@, x.kind)),
    }
}

pub open spec fn automation_summaries(m: Map<Seq<char>, Automation>) -> Map<Seq<char>, AutomationSummary> {
    m.map_values(|a: Automation| automation_summary(a))
}

// ---------------------------------------------------------------------------
// The checks.
// ---------------------------------------------------------------------------

/// An entity that names a device the registry does not hold.
pub open spec fn entity_issue(id: Seq<char>, e: EntitySummary, devices: Set<Seq<char>>) -> Seq<IssueView> {
    match e.device {
        Some(d) => if devices.contains(d) {
            seq![]
        } else {
            seq![
                error_issue(
                    "entity_device_missing"@,
                    "entity "@ + id + " references missing device "@ + d,
                ),
            ]
        },
        None => seq![],
    }
}

pub open spec fn entity_issues(
    ids: Seq<Seq<char>>,
    ents: Map<Seq<char>, EntitySummary>,
    devices: Set<Seq<char>>,
) -> Seq<IssueView>
    decreases ids.len(),
{
    if ids.len() == 0 {
        seq![]
    } else {
        entity_issues(ids.drop_last(), ents, devices) + entity_issue(ids.last(), ents[ids.last()], devices)
    }
}

/// Scene actions whose target is not an entity.
pub open spec fn scene_target_issues(id: Seq<char>, targets: Seq<Seq<char>>, ents: Set<Seq<char>>) -> Seq<
    IssueView,
>
    decreases targets.len(),
{
    if targets.len() == 0 {
        seq![]
    } else {
        scene_target_issues(id, targets.drop_last(), ents) + if ents.contains(targets.last()) {
            seq![]
        } else {
            seq![
                error_issue(
                    "scene_action_target_missing"@,
                    "scene "@ + id + " references missing target "@ + targets.last(),
                ),
            ]
        }
    }
}

/// A scene with no backing entity; otherwise a backing entity that cannot
/// activate scenes, a scene with no actions, and actions with missing targets.
pub open spec fn scene_issue(id: Seq<char>, targets: Seq<Seq<char>>, ents: Map<Seq<char>, EntitySummary>) -> Seq<
    IssueView,
> {
    if !ents.contains_key(id) {
        seq![error_issue("scene_entity_missing"@, "scene "@ + id + " has no backing scene entity"@)]
    } else {
        (if ents[id].scene_capable {
            seq![]
        } else {
            seq![
                error_issue(
                    "scene_entity_missing_capability"@,
                    "scene entity "@ + id + " lacks scene_activation capability"@,
                ),
            ]
        }) + (if targets.len() == 0 {
            seq![warning_issue("scene_empty"@, "scene "@ + id + " has no actions"@)]
        } else {
            seq![]
        }) + scene_target_issues(id, targets, ents.dom())
    }
}

pub open spec fn scene_issues(
    ids: Seq<Seq<char>>,
    scenes: Map<Seq<char>, Seq<Seq<char>>>,
    ents: Map<Seq<char>, EntitySummary>,
) -> Seq<IssueView>
    decreases ids.len(),
{
    if ids.len() == 0 {
        seq![]
    } else {
        scene_issues(ids.drop_last(), scenes, ents) + scene_issue(ids.last(), scenes[ids.last()], ents)
    }
}

/// An automation action whose target is not an entity, or that activates a scene that is not registered.
pub open spec fn automation_action_issue(
    id: Seq<char>,
    action: (Seq<char>, HomeActionKind),
    ents: Set<Seq<char>>,
    scenes: Set<Seq<char>>,
) -> Seq<IssueView> {
    (if ents.contains(action.0) {
        seq![]
    } else {
        seq![
            error_issue(
                "automation_action_target_missing"@,
                "automation "@ + id + " references missing target "@ + action.0,
            ),
        ]
    }) + (if action.1 == HomeActionKind::ActivateScene && !scenes.contains(action.0) {
        seq![
            error_issue(
                "automation_scene_missing"@,
                "automation "@ + id + " activates missing scene "@ + action.0,
            ),
        ]
    } else {
        seq![]
    })
}

pub open spec fn automation_action_issues(
    id: Seq<char>,
    actions: Seq<(Seq<char>, HomeActionKind)>,
    ents: Set<Seq<char>>,
    scenes: Set<Seq<char>>,
) -> Seq<IssueView>
    decreases actions.len(),
{
    if actions.len() == 0 {
        seq![]
    } else {
        automation_action_issues(id, actions.drop_last(), ents, scenes) + automation_action_issue(
            id,
            actions.last(),
            ents,
            scenes,
        )
    }
}

/// An automation with no actions, with a trigger time that is not `HH:MM`, and its action issues.
pub open spec fn automation_issue(
    id: Seq<char>,
    a: AutomationSummary,
    ents: Set<Seq<char>>,
    scenes: Set<Seq<char>>,
) -> Seq<IssueView> {
    (if a.actions.len() == 0 {
        seq![warning_issue("automation_empty"@, "automation "@ + id + " has no actions"@)]
    } else {
        seq![]
    }) + (if hh_mm_minutes(a.hh_mm) is None {
        seq![
            error_issue(
                "automation_invalid_time"@,
                "automation "@ + id + " has invalid time trigger "@ + a.hh_mm,
            ),
        ]
    } else {
        seq![]
    }) + automation_action_issues(id, a.actions, ents, scenes)
}

pub open spec fn automation_issues(
    ids: Seq<Seq<char>>,
    autos: Map<Seq<char>, AutomationSummary>,
    ents: Set<Seq<char>>,
    scenes: Set<Seq<char>>,
) -> Seq<IssueView>
    decreases ids.len(),
{
    if ids.len() == 0 {
        seq![]
    } else {
        automation_issues(ids.drop_last(), autos, ents, scenes) + automation_issue(
            ids.last(),
            autos[ids.last()],
            ents,
            scenes,
        )
    }
}

/// Every issue of a configuration: entities, then scenes, then automations, each in id order.
pub open spec fn configuration_issues(
    ents: Map<Seq<char>, EntitySummary>,
    devices: Set<Seq<char>>,
    scenes: Map<Seq<char>, Seq<Seq<char>>>,
    autos: Map<Seq<char>, AutomationSummary>,
) -> Seq<IssueView> {
    entity_issues(sorted_keys(ents.dom()), ents, devices) + scene_issues(
        sorted_keys(scenes.dom()),
        scenes,
        ents,
    ) + automation_issues(sorted_keys(autos.dom()), autos, ents.dom(), scenes.dom())
}

/// Every issue of the runtime's configuration.
pub open spec fn runtime_issues(rt: HomeRuntime) -> Seq<IssueView> {
    configuration_issues(
        entity_summaries(rt.entities()),
        rt.device_registry()@.dom(),
        scene_summaries(rt.scene_list()@),
        automation_summaries(rt.automation_list()@),
    )
}

/// What validation reads of the entity backing a newly configured scene: the
/// existing entity's device, if there is one, and the ability to activate scenes.
pub open spec fn scene_entity_summary(ents: Map<Seq<char>, Entity>, id: Seq<char>) -> EntitySummary {
    EntitySummary {
        device: if ents.contains_key(id) {
            entity_summary(ents[id]).device
        } else {
            None
        },
        scene_capable: true,
    }
}

/// The issues of the runtime once `scene` is configured with its backing entity.
pub open spec fn scene_candidate_issues(rt: HomeRuntime, scene: Scene) -> Seq<IssueView> {
    configuration_issues(
        entity_summaries(rt.entities()).insert(scene.id@, scene_entity_summary(rt.entities(), scene.id@)),
        rt.device_registry()@.dom(),
        scene_summaries(rt.scene_list()@).insert(scene.id@, action_targets(scene.actions@)),
        automation_summaries(rt.automation_list()@),
    )
}

/// The issues of the runtime once `automation` is configured.
pub open spec fn automation_candidate_issues(rt: HomeRuntime, automation: Automation) -> Seq<IssueView> {
    configuration_issues(
        entity_summaries(rt.entities()),
        rt.device_registry()@.dom(),
        scene_summaries(rt.scene_list()@),
        automation_summaries(rt.automation_list()@).insert(automation.id@, automation_summary(automation)),
    )
}

fn error(code: &str, message: String) -> (r: ValidationIssue)
    ensures
        r@ == error_issue(code@, message@),
{
    ValidationIssue { severity: ValidationSeverity::Error, code: String::from_str(code), message }
}

fn warning(code: &str, message: String) -> (r: ValidationIssue)
    ensures
        r@ == warning_issue(code@, message@),
{
    ValidationIssue { severity: ValidationSeverity::Warning, code: String::from_str(code), message }
}

/// Appends `issue` to `out`.
fn push_issue(out: &mut Vec<ValidationIssue>, issue: ValidationIssue)
    ensures
        issue_views(final(out)@) == issue_views(old(out)@).push(issue@),
{
    out.push(issue);
    assert(issue_views(out@) =~= issue_views(old(out)@).push(issue@));
}

/// Whether the `HH:MM` text names a minute of the day.
fn valid_hh_mm(value: &str) -> (r: bool)
    ensures
        r == (hh_mm_minutes(value@) is Some),
{
    crate::scheduler::parse_hh_mm(value).is_ok()
}

fn entity_checks(runtime: &HomeRuntime, out: &mut Vec<ValidationIssue>)
    ensures
        issue_views(final(out)@) == issue_views(old(out)@) + entity_issues(
            sorted_keys(runtime.entities().dom()),
            entity_summaries(runtime.entities()),
            runtime.device_registry()@.dom(),
        ),
{
    let ents = runtime.graph().entities();
    let ghost em = entity_summaries(runtime.entities());
    let ghost devs = runtime.device_registry()@.dom();
    let ghost ks = key_seq(ents@);
    let ghost start = issue_views(out@);
    proof {
        lemma_key_seq_sorted(ents@);
        assert(em.dom() == runtime.entities().dom());
    }
    let mut i: usize = 0;
    while i < ents.len()
        invariant
            i <= ents@.len(),
            ks == key_seq(ents@),
            crate::keyed::keys_sorted(ents@),
            runtime.entities() == seq_to_map(ents@),
            em == entity_summaries(runtime.entities()),
            devs == runtime.device_registry()@.dom(),
            issue_views(out@) == start + entity_issues(ks.take(i as int), em, devs),
        decreases ents@.len() - i,
    {
        let e = &ents[i];
        proof {
            lemma_key_index_unique(ents@, i as int);
            assert(ks.take(i + 1).drop_last() =~= ks.take(i as int));
            assert(ks.take(i + 1).last() == e.id@);
        }
        let ghost before = issue_views(out@);
        match &e.device_id {
            Some(d) => {
                if runtime.device(d).is_none() {
                    let m = join4("entity ", e.id.as_str(), " references missing device ", d.as_str());
                    push_issue(out, error("entity_device_missing", m));
                    proof {
                        assert(issue_views(out@) =~= start + entity_issues(ks.take(i + 1), em, devs));
                    }
                } else {
                    assert(issue_views(out@) =~= start + entity_issues(ks.take(i + 1), em, devs));
                }
            },
            None => {
                assert(issue_views(out@) =~= start + entity_issues(ks.take(i + 1), em, devs));
            },
        }
        i = i + 1;
    }
    proof {
        assert(ks.take(ents@.len() as int) =~= ks);
    }
}

fn scene_target_checks(
    id: &crate::entity::EntityId,
    actions: &Vec<HomeAction>,
    runtime: &HomeRuntime,
    out: &mut Vec<ValidationIssue>,
)
    ensures
        issue_views(final(out)@) == issue_views(old(out)@) + scene_target_issues(
            id@,
            action_targets(actions@),
            runtime.entities().dom(),
        ),
{
    let ghost ts = action_targets(actions@);
    let ghost dom = runtime.entities().dom();
    let ghost start = issue_views(out@);
    let mut j: usize = 0;
    while j < actions.len()
        invariant
            j <= actions@.len(),
            ts == action_targets(actions@),
            dom == runtime.entities().dom(),
            issue_views(out@) == start + scene_target_issues(id@, ts.take(j as int), dom),
        decreases actions@.len() - j,
    {
        let t = &actions[j].target.entity_id;
        proof {
            assert(ts.take(j + 1).drop_last() =~= ts.take(j as int));
            assert(ts.take(j + 1).last() == t@);
        }
        if !runtime.graph().contains(t) {
            let m = join4("scene ", id.as_str(), " references missing target ", t.as_str());
            push_issue(out, error("scene_action_target_missing", m));
        }
        proof {
            assert(issue_views(out@) =~= start + scene_target_issues(id@, ts.take(j + 1), dom));
        }
        j = j + 1;
    }
    proof {
        assert(ts.take(actions@.len() as int) =~= ts);
    }
}

fn scene_checks(runtime: &HomeRuntime, out: &mut Vec<ValidationIssue>)
    ensures
        issue_views(final(out)@) == issue_views(old(out)@) + scene_issues(
            sorted_keys(runtime.scene_list()@.dom()),
            scene_summaries(runtime.scene_list()@),
            entity_summaries(runtime.entities()),
        ),
{
    let scenes = runtime.scenes();
    let ghost em = entity_summaries(runtime.entities());
    let ghost sm = scene_summaries(runtime.scene_list()@);
    let ghost ks = key_seq(scenes@);
    let ghost start = issue_views(out@);
    proof {
        lemma_key_seq_sorted(scenes@);
        assert(em.dom() =~= runtime.entities().dom());
    }
    let mut i: usize = 0;
    while i < scenes.len()
        invariant
            i <= scenes@.len(),
            ks == key_seq(scenes@),
            crate::keyed::keys_sorted(scenes@),
            runtime.scene_list()@ == seq_to_map(scenes@),
            em == entity_summaries(runtime.entities()),
            em.dom() == runtime.entities().dom(),
            sm == scene_summaries(runtime.scene_list()@),
            issue_views(out@) == start + scene_issues(ks.take(i as int), sm, em),
        decreases scenes@.len() - i,
    {
        let sc = &scenes[i];
        proof {
            lemma_key_index_unique(scenes@, i as int);
            assert(ks.take(i + 1).drop_last() =~= ks.take(i as int));
            assert(ks.take(i + 1).last() == sc.id@);
            assert(sm[sc.id@] == action_targets(sc.actions@));
        }
        let ghost before = issue_views(out@);
        match runtime.graph().get(&sc.id) {
            None => {
                let m = join3("scene ", sc.id.as_str(), " has no backing scene entity");
                push_issue(out, error("scene_entity_missing", m));
            },
            Some(ent) => {
                if !ent.capabilities.contains(&Capability::SceneActivation) {
                    let m = join3("scene entity ", sc.id.as_str(), " lacks scene_activation capability");
                    push_issue(out, error("scene_entity_missing_capability", m));
                }
                if sc.actions.len() == 0 {
                    let m = join3("scene ", sc.id.as_str(), " has no actions");
                    push_issue(out, warning("scene_empty", m));
                }
                scene_target_checks(&sc.id, &sc.actions, runtime, out);
            },
        }
        proof {
            assert(issue_views(out@) =~= before + scene_issue(sc.id@, sm[sc.id@], em));
            assert(issue_views(out@) =~= start + scene_issues(ks.take(i + 1), sm, em));
        }
        i = i + 1;
    }
    proof {
        assert(ks.take(scenes@.len() as int) =~= ks);
        assert(sm.dom() =~= runtime.scene_list()@.dom());
    }
}

/// Whether a scene with this id is registered.
fn has_scene(runtime: &HomeRuntime, id: &crate::entity::EntityId) -> (r: bool)
    ensures
        r == runtime.scene_list()@.contains_key(id@),
{
    let scenes = runtime.scenes();
    let mut k: usize = 0;
    while k < scenes.len()
        invariant
            k <= scenes@.len(),
            runtime.scene_list()@ == seq_to_map(scenes@),
            forall|j: int| 0 <= j < k ==> (#[trigger] scenes@[j]).id@ != id@,
        decreases scenes@.len() - k,
    {
        if crate::text::str_eq(scenes[k].id.as_str(), id.as_str()) {
            proof {
                assert(crate::keyed::has_key(scenes@, id@)) by {
                    assert(scenes@[k as int].key() == id@);
                }
            }
            return true;
        }
        k = k + 1;
    }
    proof {
        if crate::keyed::has_key(scenes@, id@) {
            let j = choose|j: int| 0 <= j < scenes@.len() && #[trigger] scenes@[j].key() == id@;
            assert(scenes@[j].id@ == id@);
        }
    }
    false
}

fn automation_action_checks(
    id: &String,
    actions: &Vec<HomeAction>,
    runtime: &HomeRuntime,
    out: &mut Vec<ValidationIssue>,
)
    ensures
        issue_views(final(out)@) == issue_views(old(out)@) + automation_action_issues(
            id@,
            actions@.map_values(|x: HomeAction| (x.target.entity_id@, x.kind)),
            runtime.entities().dom(),
            runtime.scene_list()@.dom(),
        ),
{
    let ghost acts = actions@.map_values(|x: HomeAction| (x.target.entity_id@, x.kind));
    let ghost dom = runtime.entities().dom();
    let ghost sdom = runtime.scene_list()@.dom();
    let ghost start = issue_views(out@);
    let mut j: usize = 0;
    while j < actions.len()
        invariant
            j <= actions@.len(),
            acts == actions@.map_values(|x: HomeAction| (x.target.entity_id@, x.kind)),
            dom == runtime.entities().dom(),
            sdom == runtime.scene_list()@.dom(),
            issue_views(out@) == start + automation_action_issues(id@, acts.take(j as int), dom, sdom),
        decreases actions@.len() - j,
    {
        let a = &actions[j];
        let t = &a.target.entity_id;
        proof {
            assert(acts.take(j + 1).drop_last() =~= acts.take(j as int));
            assert(acts.take(j + 1).last() == (t@, a.kind));
        }
        let ghost before = issue_views(out@);
        if !runtime.graph().contains(t) {
            let m = join4("automation ", id.as_str(), " references missing target ", t.as_str());
            push_issue(out, error("automation_action_target_missing", m));
        }
        if a.kind == HomeActionKind::ActivateScene && !has_scene(runtime, t) {
            let m = join4("automation ", id.as_str(), " activates missing scene ", t.as_str());
            push_issue(out, error("automation_scene_missing", m));
        }
        proof {
            assert(issue_views(out@) =~= before + automation_action_issue(id@, (t@, a.kind), dom, sdom));
            assert(issue_views(out@) =~= start + automation_action_issues(id@, acts.take(j + 1), dom, sdom));
        }
        j = j + 1;
    }
    proof {
        assert(acts.take(actions@.len() as int) =~= acts);
    }
}

fn automation_checks(runtime: &HomeRuntime, out: &mut Vec<ValidationIssue>)
    ensures
        issue_views(final(out)@) == issue_views(old(out)@) + automation_issues(
            sorted_keys(runtime.automation_list()@.dom()),
            automation_summaries(runtime.automation_list()@),
            runtime.entities().dom(),
            runtime.scene_list()@.dom(),
        ),
{
    let autos = runtime.automations();
    let ghost am = automation_summaries(runtime.automation_list()@);
    let ghost dom = runtime.entities().dom();
    let ghost sdom = runtime.scene_list()@.dom();
    let ghost ks = key_seq(autos@);
    let ghost start = issue_views(out@);
    proof {
        lemma_key_seq_sorted(autos@);
    }
    let mut i: usize = 0;
    while i < autos.len()
        invariant
            i <= autos@.len(),
            ks == key_seq(autos@),
            crate::keyed::keys_sorted(autos@),
            runtime.automation_list()@ == seq_to_map(autos@),
            am == automation_summaries(runtime.automation_list()@),
            dom == runtime.entities().dom(),
            sdom == runtime.scene_list()@.dom(),
            issue_views(out@) == start + automation_issues(ks.take(i as int), am, dom, sdom),
        decreases autos@.len() - i,
    {
        let a = &autos[i];
        proof {
            lemma_key_index_unique(autos@, i as int);
            assert(ks.take(i + 1).drop_last() =~= ks.take(i as int));
            assert(ks.take(i + 1).last() == a.id@);
            assert(am[a.id@] == automation_summary(*a));
        }
        let ghost before = issue_views(out@);
        if a.actions.len() == 0 {
            let m = join3("automation ", a.id.as_str(), " has no actions");
            push_issue(out, warning("automation_empty", m));
        }
        match &a.trigger {
            AutomationTrigger::TimeOfDay { hh_mm } => {
                if !valid_hh_mm(hh_mm.as_str()) {
                    let m = join4("automation ", a.id.as_str(), " has invalid time trigger ", hh_mm.as_str());
                    push_issue(out, error("automation_invalid_time", m));
                }
            },
        }
        automation_action_checks(&a.id, &a.actions, runtime, out);
        proof {
            assert(issue_views(out@) =~= before + automation_issue(a.id@, am[a.id@], dom, sdom));
            assert(issue_views(out@) =~= start + automation_issues(ks.take(i + 1), am, dom, sdom));
        }
        i = i + 1;
    }
    proof {
        assert(ks.take(autos@.len() as int) =~= ks);
        assert(am.dom() =~= runtime.automation_list()@.dom());
    }
}

/// Checks the runtime's configuration: entities naming missing devices; scenes
/// without a scene-capable backing entity, without actions, or with missing
/// targets; automations without actions, with an invalid trigger time, with
/// missing targets, or activating scenes that are not registered. The report is
/// ok when no finding is an error.
pub fn validate_runtime(runtime: &HomeRuntime) -> (r: ValidationReport)
    ensures
        issue_views(r.issues@) == runtime_issues(*runtime),
        r.ok == !has_error(runtime_issues(*runtime)),
{
    let mut issues: Vec<ValidationIssue> = Vec::new();
    entity_checks(runtime, &mut issues);
    scene_checks(runtime, &mut issues);
    automation_checks(runtime, &mut issues);
    proof {
        let em = entity_summaries(runtime.entities());
        assert(em.dom() =~= runtime.entities().dom());
        assert(scene_summaries(runtime.scene_list()@).dom() =~= runtime.scene_list()@.dom());
        assert(automation_summaries(runtime.automation_list()@).dom() =~= runtime.automation_list()@.dom());
        assert(issue_views(issues@) =~= runtime_issues(*runtime));
    }
    ValidationReport::new(issues)
}

} // verus!
