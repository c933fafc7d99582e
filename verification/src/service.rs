//! Home-Assistant-style domain services, translated into safety-gated commands.

use vstd::prelude::*;
use crate::command::{
    ActionView, CONFIDENCE_ONE, CommandOrigin, CommandView, HomeAction, HomeActionKind,
    HomeCommand, TargetSelector,
};
use crate::entity::{Entity, EntityGraph, EntityId, domain_of};
use crate::json::{JsonValue, JsonView, json_get, opt_json};
use crate::safety::{DecisionView, SafetyDecision};
use crate::text::{str_eq, string_views};

verus! {

/// A domain service call, such as `light.turn_on`, on a list of entities.
#[derive(Debug, Clone)]
pub struct ServiceCall {
    pub domain: String,
    pub service: String,
    pub target: ServiceTarget,
    pub data: JsonValue,
    pub origin: CommandOrigin,
    pub confirmed: bool,
}

/// The entities a service call acts on.
#[derive(Debug, Clone)]
pub struct ServiceTarget {
    pub entity_ids: Vec<EntityId>,
}

pub struct CallView {
    pub domain: Seq<char>,
    pub service: Seq<char>,
    pub targets: Seq<Seq<char>>,
    pub data: JsonView,
    pub origin: CommandOrigin,
    pub confirmed: bool,
}

impl View for ServiceCall {
    type V = CallView;

    open spec fn view(&self) -> CallView {
        CallView {
            domain: self.domain@,
            service: self.service@,
            targets: self.target.entity_ids@.map_values(|id: EntityId| id@),
            data: self.data@,
            origin: self.origin,
            confirmed: self.confirmed,
        }
    }
}

/// What a service call did, target by target.
#[derive(Debug, Clone)]
pub struct ServiceCallResult {
    pub domain: String,
    pub service: String,
    pub targets: usize,
    pub executed: usize,
    pub results: Vec<ServiceActionResult>,
}

/// The decision on one target of a service call, and whether it was executed.
#[derive(Debug, Clone)]
pub struct ServiceActionResult {
    pub entity_id: EntityId,
    pub executed: bool,
    pub decision: SafetyDecision,
}

/// The origin of a service call that names none.
pub fn default_service_origin() -> (r: CommandOrigin)
    ensures
        r == CommandOrigin::LocalApi,
{
    CommandOrigin::LocalApi
}

/// Why a service call could not be translated.
#[derive(Debug, Clone, PartialEq, Eq)]
pub enum ServiceCallError {
    UnsupportedService { domain: String, service: String },
    EmptyTarget,
    TargetDomainMismatch { domain: String, entity_id: EntityId },
    UnknownTarget { entity_id: EntityId },
}

pub enum ServiceErrorView {
    UnsupportedService { domain: Seq<char>, service: Seq<char> },
    EmptyTarget,
    TargetDomainMismatch { domain: Seq<char>, entity: Seq<char> },
    UnknownTarget { entity: Seq<char> },
}

impl View for ServiceCallError {
    type V = ServiceErrorView;

    open spec fn view(&self) -> ServiceErrorView {
        match self {
            ServiceCallError::UnsupportedService { domain, service } => ServiceErrorView::UnsupportedService {
                domain: domain@,
                service: service@,
            },
            ServiceCallError::EmptyTarget => ServiceErrorView::EmptyTarget,
            ServiceCallError::TargetDomainMismatch { domain, entity_id } =>
                ServiceErrorView::TargetDomainMismatch { domain: domain@, entity: entity_id@ },
            ServiceCallError::UnknownTarget { entity_id } => ServiceErrorView::UnknownTarget {
                entity: entity_id@,
            },
        }
    }
}

/// The text of an error, as it is shown to callers.
pub open spec fn error_text(e: ServiceErrorView) -> Seq<char> {
    match e {
        ServiceErrorView::UnsupportedService { domain, service } => "unsupported service: "@ + domain
            + "."@ + service,
        ServiceErrorView::EmptyTarget => "service call requires at least one target"@,
        ServiceErrorView::TargetDomainMismatch { domain, entity } => "target domain mismatch: service domain "@
            + domain + ", entity "@ + entity,
        ServiceErrorView::UnknownTarget { entity } => "target entity is unknown: "@ + entity,
    }
}

impl ServiceCallError {
    /// The error's text.
    pub fn message(&self) -> (r: String)
        ensures
            r@ == error_text(self@),
    {
        match self {
            ServiceCallError::UnsupportedService { domain, service } => {
                let r = String::from_str("unsupported service: ").concat(domain.as_str()).concat(
                    ".",
                ).concat(service.as_str());
                r
            },
            ServiceCallError::EmptyTarget => String::from_str(
                "service call requires at least one target",
            ),
            ServiceCallError::TargetDomainMismatch { domain, entity_id } => {
                String::from_str("target domain mismatch: service domain ").concat(
                    domain.as_str(),
                ).concat(", entity ").concat(entity_id.as_str())
            },
            ServiceCallError::UnknownTarget { entity_id } => String::from_str(
                "target entity is unknown: ",
            ).concat(entity_id.as_str()),
        }
    }
}

/// Domains whose power services are `turn_on`, `turn_off` and `toggle`.
pub open spec fn is_power_domain(d: Seq<char>) -> bool {
    d == "light"@ || d == "switch"@ || d == "fan"@
}

/// The action a domain service stands for, if the runtime supports it.
pub open spec fn service_action(d: Seq<char>, s: Seq<char>) -> Option<HomeActionKind> {
    if is_power_domain(d) && s == "turn_on"@ {
        Some(HomeActionKind::TurnOn)
    } else if is_power_domain(d) && s == "turn_off"@ {
        Some(HomeActionKind::TurnOff)
    } else if is_power_domain(d) && s == "toggle"@ {
        Some(HomeActionKind::Toggle)
    } else if d == "fan"@ && s == "set_percentage"@ {
        Some(HomeActionKind::SetValue)
    } else if d == "lock"@ && s == "lock"@ {
        Some(HomeActionKind::Lock)
    } else if d == "lock"@ && s == "unlock"@ {
        Some(HomeActionKind::Unlock)
    } else if d == "cover"@ && s == "open_cover"@ {
        Some(HomeActionKind::Open)
    } else if d == "cover"@ && s == "close_cover"@ {
        Some(HomeActionKind::Close)
    } else if d == "cover"@ && s == "stop_cover"@ {
        Some(HomeActionKind::Stop)
    } else if d == "scene"@ && s == "turn_on"@ {
        Some(HomeActionKind::ActivateScene)
    } else if d == "climate"@ && s == "set_temperature"@ {
        Some(HomeActionKind::SetValue)
    } else if d == "media_player"@ && s == "turn_on"@ {
        Some(HomeActionKind::TurnOn)
    } else if d == "media_player"@ && s == "turn_off"@ {
        Some(HomeActionKind::TurnOff)
    } else if d == "media_player"@ && s == "media_play"@ {
        Some(HomeActionKind::Start)
    } else if d == "media_player"@ && s == "media_pause"@ {
        Some(HomeActionKind::Pause)
    } else if d == "media_player"@ && s == "media_stop"@ {
        Some(HomeActionKind::Stop)
    } else if d == "media_player"@ && s == "volume_set"@ {
        Some(HomeActionKind::SetValue)
    } else if d == "vacuum"@ && s == "start"@ {
        Some(HomeActionKind::Start)
    } else if d == "vacuum"@ && s == "stop"@ {
        Some(HomeActionKind::Stop)
    } else if d == "vacuum"@ && s == "return_to_base"@ {
        Some(HomeActionKind::ReturnToBase)
    } else if d == "alarm_control_panel"@ && (s == "alarm_arm_home"@ || s == "alarm_arm_away"@) {
        Some(HomeActionKind::Arm)
    } else if d == "alarm_control_panel"@ && s == "alarm_disarm"@ {
        Some(HomeActionKind::Disarm)
    } else {
        None
    }
}

fn service_to_action(domain: &str, service: &str) -> (r: Option<HomeActionKind>)
    ensures
        r == service_action(domain@, service@),
{
    let power = str_eq(domain, "light") || str_eq(domain, "switch") || str_eq(domain, "fan");
    if power && str_eq(service, "turn_on") {
        Some(HomeActionKind::TurnOn)
    } else if power && str_eq(service, "turn_off") {
        Some(HomeActionKind::TurnOff)
    } else if power && str_eq(service, "toggle") {
        Some(HomeActionKind::Toggle)
    } else if str_eq(domain, "fan") && str_eq(service, "set_percentage") {
        Some(HomeActionKind::SetValue)
    } else if str_eq(domain, "lock") && str_eq(service, "lock") {
        Some(HomeActionKind::Lock)
    } else if str_eq(domain, "lock") && str_eq(service, "unlock") {
        Some(HomeActionKind::Unlock)
    } else if str_eq(domain, "cover") && str_eq(service, "open_cover") {
        Some(HomeActionKind::Open)
    } else if str_eq(domain, "cover") && str_eq(service, "close_cover") {
        Some(HomeActionKind::Close)
    } else if str_eq(domain, "cover") && str_eq(service, "stop_cover") {
        Some(HomeActionKind::Stop)
    } else if str_eq(domain, "scene") && str_eq(service, "turn_on") {
        Some(HomeActionKind::ActivateScene)
    } else if str_eq(domain, "climate") && str_eq(service, "set_temperature") {
        Some(HomeActionKind::SetValue)
    } else if str_eq(domain, "media_player") && str_eq(service, "turn_on") {
        Some(HomeActionKind::TurnOn)
    } else if str_eq(domain, "media_player") && str_eq(service, "turn_off") {
        Some(HomeActionKind::TurnOff)
    } else if str_eq(domain, "media_player") && str_eq(service, "media_play") {
        Some(HomeActionKind::Start)
    } else if str_eq(domain, "media_player") && str_eq(service, "media_pause") {
        Some(HomeActionKind::Pause)
    } else if str_eq(domain, "media_player") && str_eq(service, "media_stop") {
        Some(HomeActionKind::Stop)
    } else if str_eq(domain, "media_player") && str_eq(service, "volume_set") {
        Some(HomeActionKind::SetValue)
    } else if str_eq(domain, "vacuum") && str_eq(service, "start") {
        Some(HomeActionKind::Start)
    } else if str_eq(domain, "vacuum") && str_eq(service, "stop") {
        Some(HomeActionKind::Stop)
    } else if str_eq(domain, "vacuum") && str_eq(service, "return_to_base") {
        Some(HomeActionKind::ReturnToBase)
    } else if str_eq(domain, "alarm_control_panel") && (str_eq(service, "alarm_arm_home") || str_eq(
        service,
        "alarm_arm_away",
    )) {
        Some(HomeActionKind::Arm)
    } else if str_eq(domain, "alarm_control_panel") && str_eq(service, "alarm_disarm") {
        Some(HomeActionKind::Disarm)
    } else {
        None
    }
}

/// The value a service passes on from its data: the field it reads, the whole
/// data for a `light.turn_on` with a non-empty object, or nothing.
pub open spec fn service_value(d: Seq<char>, s: Seq<char>, data: JsonView) -> Option<JsonView> {
    if d == "climate"@ && s == "set_temperature"@ {
        json_get(data, "temperature"@)
    } else if d == "fan"@ && s == "set_percentage"@ {
        json_get(data, "percentage"@)
    } else if d == "media_player"@ && s == "volume_set"@ {
        json_get(data, "volume_level"@)
    } else if d == "alarm_control_panel"@ && (s == "alarm_arm_home"@ || s == "alarm_arm_away"@ || s
        == "alarm_disarm"@) {
        json_get(data, "code"@)
    } else if d == "light"@ && s == "turn_on"@ {
        if data matches JsonView::Object(ms) && ms.len() > 0 {
            Some(data)
        } else {
            None
        }
    } else {
        None
    }
}

fn service_value_of(domain: &str, service: &str, data: &JsonValue) -> (r: Option<JsonValue>)
    ensures
        opt_json(r) == service_value(domain@, service@, data@),
{
    if str_eq(domain, "climate") && str_eq(service, "set_temperature") {
        data.get_cloned("temperature")
    } else if str_eq(domain, "fan") && str_eq(service, "set_percentage") {
        data.get_cloned("percentage")
    } else if str_eq(domain, "media_player") && str_eq(service, "volume_set") {
        data.get_cloned("volume_level")
    } else if str_eq(domain, "alarm_control_panel") && (str_eq(service, "alarm_arm_home") || str_eq(
        service,
        "alarm_arm_away",
    ) || str_eq(service, "alarm_disarm")) {
        data.get_cloned("code")
    } else if str_eq(domain, "light") && str_eq(service, "turn_on") {
        if data.is_nonempty_object() {
            Some(data.duplicate())
        } else {
            None
        }
    } else {
        None
    }
}

/// The command a call makes for one target.
pub open spec fn service_command(call: CallView, kind: HomeActionKind, id: Seq<char>) -> CommandView {
    CommandView {
        origin: call.origin,
        action: ActionView {
            entity: id,
            confidence: CONFIDENCE_ONE,
            kind,
            value: service_value(call.domain, call.service, call.data),
        },
        confirmed: call.confirmed,
        approval: None,
        reason: None,
    }
}

/// The first problem with the targets from `i` on: a target outside the
/// service's domain, or one the graph does not know.
pub open spec fn first_target_error(g: Map<Seq<char>, Entity>, call: CallView, i: int) -> Option<
    ServiceErrorView,
>
    decreases call.targets.len() - i,
{
    if i < 0 || i >= call.targets.len() {
        None
    } else if domain_of(call.targets[i]) != call.domain {
        Some(ServiceErrorView::TargetDomainMismatch { domain: call.domain, entity: call.targets[i] })
    } else if !g.contains_key(call.targets[i]) {
        Some(ServiceErrorView::UnknownTarget { entity: call.targets[i] })
    } else {
        first_target_error(g, call, i + 1)
    }
}

/// The commands a service call translates to, one per target in order, or why it cannot.
pub open spec fn service_commands(g: Map<Seq<char>, Entity>, call: CallView) -> Result<
    Seq<CommandView>,
    ServiceErrorView,
> {
    match service_action(call.domain, call.service) {
        None => Err(
            ServiceErrorView::UnsupportedService { domain: call.domain, service: call.service },
        ),
        Some(kind) => if call.targets.len() == 0 {
            Err(ServiceErrorView::EmptyTarget)
        } else {
            match first_target_error(g, call, 0) {
                Some(e) => Err(e),
                None => Ok(
                    Seq::new(call.targets.len(), |i: int| service_command(call, kind, call.targets[i])),
                ),
            }
        },
    }
}

/// The views of a list of commands.
pub open spec fn command_views(cmds: Seq<HomeCommand>) -> Seq<CommandView> {
    cmds.map_values(|c: HomeCommand| c@)
}

/// Translates a domain service call into one command per target.
pub fn service_call_to_commands(graph: &EntityGraph, call: &ServiceCall) -> (r: Result<
    Vec<HomeCommand>,
    ServiceCallError,
>)
    ensures
        match r {
            Ok(cmds) => service_commands(graph@, call@) == Ok::<Seq<CommandView>, ServiceErrorView>(
                command_views(cmds@),
            ),
            Err(e) => service_commands(graph@, call@) == Err::<Seq<CommandView>, ServiceErrorView>(
                e@,
            ),
        },
{
    let action_kind = match service_to_action(call.domain.as_str(), call.service.as_str()) {
        Some(k) => k,
        None => {
            return Err(
                ServiceCallError::UnsupportedService {
                    domain: call.domain.clone(),
                    service: call.service.clone(),
                },
            );
        },
    };
    if call.target.entity_ids.len() == 0 {
        return Err(ServiceCallError::EmptyTarget);
    }
    let ghost cv = call@;
    let ghost g = graph@;
    let mut commands: Vec<HomeCommand> = Vec::new();
    let mut i: usize = 0;
    while i < call.target.entity_ids.len()
        invariant
            cv == call@,
            g == graph@,
            service_action(cv.domain, cv.service) == Some(action_kind),
            i <= call.target.entity_ids@.len(),
            cv.targets.len() == call.target.entity_ids@.len(),
            first_target_error(g, cv, 0) == first_target_error(g, cv, i as int),
            commands@.len() == i,
            forall|j: int| 0 <= j < i ==> (#[trigger] commands@[j])@ == service_command(cv, action_kind, cv.targets[j]),
        decreases call.target.entity_ids@.len() - i,
    {
        let entity_id = &call.target.entity_ids[i];
        assert(cv.targets[i as int] == entity_id@);
        if !str_eq(entity_id.domain(), call.domain.as_str()) {
            return Err(
                ServiceCallError::TargetDomainMismatch {
                    domain: call.domain.clone(),
                    entity_id: entity_id.clone(),
                },
            );
        }
        if !graph.contains(entity_id) {
            return Err(ServiceCallError::UnknownTarget { entity_id: entity_id.clone() });
        }
        let value = service_value_of(call.domain.as_str(), call.service.as_str(), &call.data);
        let action = HomeAction {
            target: TargetSelector::exact(entity_id.clone()),
            kind: action_kind,
            value,
        };
        let mut command = HomeCommand::new(call.origin, action);
        if call.confirmed {
            command = command.confirmed();
        }
        commands.push(command);
        i = i + 1;
    }
    proof {
        assert(command_views(commands@) =~= Seq::new(
            cv.targets.len(),
            |j: int| service_command(cv, action_kind, cv.targets[j]),
        ));
    }
    Ok(commands)
}


/// A service the runtime advertises: its domain and name, what it does, and the action it maps to.
#[derive(Debug, Clone)]
pub struct ServiceSpec {
    pub domain: String,
    pub service: String,
    pub description: String,
    pub action_kind: Option<HomeActionKind>,
}

pub struct ServiceSpecView {
    pub domain: Seq<char>,
    pub service: Seq<char>,
    pub description: Seq<char>,
    pub action_kind: Option<HomeActionKind>,
}

impl View for ServiceSpec {
    type V = ServiceSpecView;

    open spec fn view(&self) -> ServiceSpecView {
        ServiceSpecView {
            domain: self.domain@,
            service: self.service@,
            description: self.description@,
            action_kind: self.action_kind,
        }
    }
}

pub open spec fn spec_row(d: Seq<char>, s: Seq<char>, desc: Seq<char>, k: HomeActionKind) -> ServiceSpecView {
    ServiceSpecView { domain: d, service: s, description: desc, action_kind: Some(k) }
}

/// The advertised services, in the order they are listed.
pub open spec fn service_table() -> Seq<ServiceSpecView> {
    seq![
        spec_row("light"@, "turn_on"@, "Turn on a light"@, HomeActionKind::TurnOn),
        spec_row("light"@, "turn_off"@, "Turn off a light"@, HomeActionKind::TurnOff),
        spec_row("light"@, "toggle"@, "Toggle a light"@, HomeActionKind::Toggle),
        spec_row("switch"@, "turn_on"@, "Turn on a switch"@, HomeActionKind::TurnOn),
        spec_row("switch"@, "turn_off"@, "Turn off a switch"@, HomeActionKind::TurnOff),
        spec_row("switch"@, "toggle"@, "Toggle a switch"@, HomeActionKind::Toggle),
        spec_row("fan"@, "turn_on"@, "Turn on a fan"@, HomeActionKind::TurnOn),
        spec_row("fan"@, "turn_off"@, "Turn off a fan"@, HomeActionKind::TurnOff),
        spec_row("fan"@, "toggle"@, "Toggle a fan"@, HomeActionKind::Toggle),
        spec_row("fan"@, "set_percentage"@, "Set fan percentage"@, HomeActionKind::SetValue),
        spec_row("lock"@, "lock"@, "Lock a lock entity"@, HomeActionKind::Lock),
        spec_row("lock"@, "unlock"@, "Unlock a lock entity"@, HomeActionKind::Unlock),
        spec_row("cover"@, "open_cover"@, "Open a cover entity"@, HomeActionKind::Open),
        spec_row("cover"@, "close_cover"@, "Close a cover entity"@, HomeActionKind::Close),
        spec_row("cover"@, "stop_cover"@, "Stop a cover entity"@, HomeActionKind::Stop),
        spec_row("scene"@, "turn_on"@, "Activate a scene"@, HomeActionKind::ActivateScene),
        spec_row("climate"@, "set_temperature"@, "Set a climate target temperature"@, HomeActionKind::SetValue),
        spec_row("media_player"@, "turn_on"@, "Turn on a media player"@, HomeActionKind::TurnOn),
        spec_row("media_player"@, "turn_off"@, "Turn off a media player"@, HomeActionKind::TurnOff),
        spec_row("media_player"@, "media_play"@, "Start media playback"@, HomeActionKind::Start),
        spec_row("media_player"@, "media_pause"@, "Pause media playback"@, HomeActionKind::Pause),
        spec_row("media_player"@, "media_stop"@, "Stop media playback"@, HomeActionKind::Stop),
        spec_row("media_player"@, "volume_set"@, "Set media player volume"@, HomeActionKind::SetValue),
        spec_row("vacuum"@, "start"@, "Start a vacuum"@, HomeActionKind::Start),
        spec_row("vacuum"@, "stop"@, "Stop a vacuum"@, HomeActionKind::Stop),
        spec_row("vacuum"@, "return_to_base"@, "Return a vacuum to base"@, HomeActionKind::ReturnToBase),
        spec_row("alarm_control_panel"@, "alarm_arm_home"@, "Arm alarm in home mode"@, HomeActionKind::Arm),
        spec_row("alarm_control_panel"@, "alarm_arm_away"@, "Arm alarm in away mode"@, HomeActionKind::Arm),
        spec_row("alarm_control_panel"@, "alarm_disarm"@, "Disarm alarm"@, HomeActionKind::Disarm),
    ]
}

fn service_spec(domain: &str, service: &str, description: &str, action_kind: HomeActionKind) -> (r: ServiceSpec)
    ensures
        r@ == spec_row(domain@, service@, description@, action_kind),
{
    ServiceSpec {
        domain: String::from_str(domain),
        service: String::from_str(service),
        description: String::from_str(description),
        action_kind: Some(action_kind),
    }
}

/// The services the runtime advertises.
pub fn service_specs() -> (r: Vec<ServiceSpec>)
    ensures
        r@.map_values(|s: ServiceSpec| s@) == service_table(),
{
    let mut v: Vec<ServiceSpec> = Vec::new();
    v.push(service_spec("light", "turn_on", "Turn on a light", HomeActionKind::TurnOn));
    v.push(service_spec("light", "turn_off", "Turn off a light", HomeActionKind::TurnOff));
    v.push(service_spec("light", "toggle", "Toggle a light", HomeActionKind::Toggle));
    v.push(service_spec("switch", "turn_on", "Turn on a switch", HomeActionKind::TurnOn));
    v.push(service_spec("switch", "turn_off", "Turn off a switch", HomeActionKind::TurnOff));
    v.push(service_spec("switch", "toggle", "Toggle a switch", HomeActionKind::Toggle));
    v.push(service_spec("fan", "turn_on", "Turn on a fan", HomeActionKind::TurnOn));
    v.push(service_spec("fan", "turn_off", "Turn off a fan", HomeActionKind::TurnOff));
    v.push(service_spec("fan", "toggle", "Toggle a fan", HomeActionKind::Toggle));
    v.push(service_spec("fan", "set_percentage", "Set fan percentage", HomeActionKind::SetValue));
    v.push(service_spec("lock", "lock", "Lock a lock entity", HomeActionKind::Lock));
    v.push(service_spec("lock", "unlock", "Unlock a lock entity", HomeActionKind::Unlock));
    v.push(service_spec("cover", "open_cover", "Open a cover entity", HomeActionKind::Open));
    v.push(service_spec("cover", "close_cover", "Close a cover entity", HomeActionKind::Close));
    v.push(service_spec("cover", "stop_cover", "Stop a cover entity", HomeActionKind::Stop));
    v.push(service_spec("scene", "turn_on", "Activate a scene", HomeActionKind::ActivateScene));
    v.push(service_spec("climate", "set_temperature", "Set a climate target temperature", HomeActionKind::SetValue));
    v.push(service_spec("media_player", "turn_on", "Turn on a media player", HomeActionKind::TurnOn));
    v.push(service_spec("media_player", "turn_off", "Turn off a media player", HomeActionKind::TurnOff));
    v.push(service_spec("media_player", "media_play", "Start media playback", HomeActionKind::Start));
    v.push(service_spec("media_player", "media_pause", "Pause media playback", HomeActionKind::Pause));
    v.push(service_spec("media_player", "media_stop", "Stop media playback", HomeActionKind::Stop));
    v.push(service_spec("media_player", "volume_set", "Set media player volume", HomeActionKind::SetValue));
    v.push(service_spec("vacuum", "start", "Start a vacuum", HomeActionKind::Start));
    v.push(service_spec("vacuum", "stop", "Stop a vacuum", HomeActionKind::Stop));
    v.push(service_spec("vacuum", "return_to_base", "Return a vacuum to base", HomeActionKind::ReturnToBase));
    v.push(service_spec("alarm_control_panel", "alarm_arm_home", "Arm alarm in home mode", HomeActionKind::Arm));
    v.push(service_spec("alarm_control_panel", "alarm_arm_away", "Arm alarm in away mode", HomeActionKind::Arm));
    v.push(service_spec("alarm_control_panel", "alarm_disarm", "Disarm alarm", HomeActionKind::Disarm));
    assert(v@.map_values(|s: ServiceSpec| s@) =~= service_table());
    v
}

/// Every advertised service is one a call can use, and it stands for the action it advertises.
#[verifier::rlimit(60)]
pub proof fn advertised_services_translate()
    ensures
        forall|i: int|
            0 <= i < service_table().len() ==> service_action(
                (#[trigger] service_table()[i]).domain,
                service_table()[i].service,
            ) == service_table()[i].action_kind,
{
    reveal_strlit("alarm_arm_away");
    reveal_strlit("alarm_arm_home");
    reveal_strlit("alarm_control_panel");
    reveal_strlit("alarm_disarm");
    reveal_strlit("climate");
    reveal_strlit("close_cover");
    reveal_strlit("cover");
    reveal_strlit("fan");
    reveal_strlit("light");
    reveal_strlit("lock");
    reveal_strlit("media_pause");
    reveal_strlit("media_play");
    reveal_strlit("media_player");
    reveal_strlit("media_stop");
    reveal_strlit("open_cover");
    reveal_strlit("return_to_base");
    reveal_strlit("scene");
    reveal_strlit("set_percentage");
    reveal_strlit("set_temperature");
    reveal_strlit("start");
    reveal_strlit("stop");
    reveal_strlit("stop_cover");
    reveal_strlit("switch");
    reveal_strlit("toggle");
    reveal_strlit("turn_off");
    reveal_strlit("turn_on");
    reveal_strlit("unlock");
    reveal_strlit("vacuum");
    reveal_strlit("volume_set");
    let t = service_table();
    assert forall|i: int| 0 <= i < t.len() implies service_action(
        (#[trigger] t[i]).domain,
        t[i].service,
    ) == t[i].action_kind by {
        assert("alarm_arm_away"@.len() == 14);
        assert("alarm_arm_away"@[0] == 'a');
        assert("alarm_arm_home"@[0] == 'a');
        assert("alarm_control_panel"@[0] == 'a');
        assert("alarm_disarm"@[0] == 'a');
        assert("climate"@[0] == 'c');
        assert("close_cover"@[0] == 'c');
        assert("cover"@[0] == 'c');
        assert("fan"@[0] == 'f');
        assert("light"@[0] == 'l');
        assert("lock"@[0] == 'l');
        assert("media_pause"@[0] == 'm');
        assert("media_play"@[0] == 'm');
        assert("media_player"@[0] == 'm');
        assert("media_stop"@[0] == 'm');
        assert("open_cover"@[0] == 'o');
        assert("return_to_base"@[0] == 'r');
        assert("scene"@[0] == 's');
        assert("set_percentage"@[0] == 's');
        assert("set_temperature"@[0] == 's');
        assert("start"@[0] == 's');
        assert("stop"@[0] == 's');
        assert("stop_cover"@[0] == 's');
        assert("switch"@[0] == 's');
        assert("toggle"@[0] == 't');
        assert("turn_off"@[0] == 't');
        assert("turn_on"@[0] == 't');
        assert("unlock"@[0] == 'u');
        assert("vacuum"@[0] == 'v');
        assert("volume_set"@[0] == 'v');
        assert("media_play"@[6] == 'p');
        assert("media_stop"@[6] == 's');
        assert("alarm_arm_home"@[10] == 'h');
        assert("alarm_arm_away"@[10] == 'a');
        assert("alarm_arm_home"@.len() == 14);
        assert("alarm_control_panel"@.len() == 19);
        assert("alarm_disarm"@.len() == 12);
        assert("climate"@.len() == 7);
        assert("close_cover"@.len() == 11);
        assert("cover"@.len() == 5);
        assert("fan"@.len() == 3);
        assert("light"@.len() == 5);
        assert("lock"@.len() == 4);
        assert("media_pause"@.len() == 11);
        assert("media_play"@.len() == 10);
        assert("media_player"@.len() == 12);
        assert("media_stop"@.len() == 10);
        assert("open_cover"@.len() == 10);
        assert("return_to_base"@.len() == 14);
        assert("scene"@.len() == 5);
        assert("set_percentage"@.len() == 14);
        assert("set_temperature"@.len() == 15);
        assert("start"@.len() == 5);
        assert("stop"@.len() == 4);
        assert("stop_cover"@.len() == 10);
        assert("switch"@.len() == 6);
        assert("toggle"@.len() == 6);
        assert("turn_off"@.len() == 8);
        assert("turn_on"@.len() == 7);
        assert("unlock"@.len() == 6);
        assert("vacuum"@.len() == 6);
        assert("volume_set"@.len() == 10);
        assert(service_action(t[0].domain, t[0].service) == t[0].action_kind);
        assert(service_action(t[1].domain, t[1].service) == t[1].action_kind);
        assert(service_action(t[2].domain, t[2].service) == t[2].action_kind);
        assert(service_action(t[3].domain, t[3].service) == t[3].action_kind);
        assert(service_action(t[4].domain, t[4].service) == t[4].action_kind);
        assert(service_action(t[5].domain, t[5].service) == t[5].action_kind);
        assert(service_action(t[6].domain, t[6].service) == t[6].action_kind);
        assert(service_action(t[7].domain, t[7].service) == t[7].action_kind);
        assert(service_action(t[8].domain, t[8].service) == t[8].action_kind);
        assert(service_action(t[9].domain, t[9].service) == t[9].action_kind);
        assert(service_action(t[10].domain, t[10].service) == t[10].action_kind);
        assert(service_action(t[11].domain, t[11].service) == t[11].action_kind);
        assert(service_action(t[12].domain, t[12].service) == t[12].action_kind);
        assert(service_action(t[13].domain, t[13].service) == t[13].action_kind);
        assert(service_action(t[14].domain, t[14].service) == t[14].action_kind);
        assert(service_action(t[15].domain, t[15].service) == t[15].action_kind);
        assert(service_action(t[16].domain, t[16].service) == t[16].action_kind);
        assert(service_action(t[17].domain, t[17].service) == t[17].action_kind);
        assert(service_action(t[18].domain, t[18].service) == t[18].action_kind);
        assert(service_action(t[19].domain, t[19].service) == t[19].action_kind);
        assert(service_action(t[20].domain, t[20].service) == t[20].action_kind);
        assert(service_action(t[21].domain, t[21].service) == t[21].action_kind);
        assert(service_action(t[22].domain, t[22].service) == t[22].action_kind);
        assert(service_action(t[23].domain, t[23].service) == t[23].action_kind);
        assert(service_action(t[24].domain, t[24].service) == t[24].action_kind);
        assert(service_action(t[25].domain, t[25].service) == t[25].action_kind);
        assert(service_action(t[26].domain, t[26].service) == t[26].action_kind);
        assert(service_action(t[27].domain, t[27].service) == t[27].action_kind);
        assert(service_action(t[28].domain, t[28].service) == t[28].action_kind);
    }
}

/// The place in the service table of the row for domain `d` and service `s`, or -1.
pub open spec fn service_row(d: Seq<char>, s: Seq<char>) -> int {
    if d == "light"@ && s == "turn_on"@ {
        0
    } else if d == "light"@ && s == "turn_off"@ {
        1
    } else if d == "light"@ && s == "toggle"@ {
        2
    } else if d == "switch"@ && s == "turn_on"@ {
        3
    } else if d == "switch"@ && s == "turn_off"@ {
        4
    } else if d == "switch"@ && s == "toggle"@ {
        5
    } else if d == "fan"@ && s == "turn_on"@ {
        6
    } else if d == "fan"@ && s == "turn_off"@ {
        7
    } else if d == "fan"@ && s == "toggle"@ {
        8
    } else if d == "fan"@ && s == "set_percentage"@ {
        9
    } else if d == "lock"@ && s == "lock"@ {
        10
    } else if d == "lock"@ && s == "unlock"@ {
        11
    } else if d == "cover"@ && s == "open_cover"@ {
        12
    } else if d == "cover"@ && s == "close_cover"@ {
        13
    } else if d == "cover"@ && s == "stop_cover"@ {
        14
    } else if d == "scene"@ && s == "turn_on"@ {
        15
    } else if d == "climate"@ && s == "set_temperature"@ {
        16
    } else if d == "media_player"@ && s == "turn_on"@ {
        17
    } else if d == "media_player"@ && s == "turn_off"@ {
        18
    } else if d == "media_player"@ && s == "media_play"@ {
        19
    } else if d == "media_player"@ && s == "media_pause"@ {
        20
    } else if d == "media_player"@ && s == "media_stop"@ {
        21
    } else if d == "media_player"@ && s == "volume_set"@ {
        22
    } else if d == "vacuum"@ && s == "start"@ {
        23
    } else if d == "vacuum"@ && s == "stop"@ {
        24
    } else if d == "vacuum"@ && s == "return_to_base"@ {
        25
    } else if d == "alarm_control_panel"@ && s == "alarm_arm_home"@ {
        26
    } else if d == "alarm_control_panel"@ && s == "alarm_arm_away"@ {
        27
    } else if d == "alarm_control_panel"@ && s == "alarm_disarm"@ {
        28
    } else {
        -1
    }
}

/// No domain and service pair is listed twice in the service table, and every
/// listed service stands for an action.
#[verifier::rlimit(100)]
pub proof fn service_pairs_unique()
    ensures
        forall|i: int, j: int|
            0 <= i < j < service_table().len() ==> !((#[trigger] service_table()[i]).domain == (
            #[trigger] service_table()[j]).domain && service_table()[i].service == service_table()[j].service),
        forall|i: int| 0 <= i < service_table().len() ==> (#[trigger] service_table()[i]).action_kind is Some,
{
    reveal_strlit("alarm_arm_away");
    reveal_strlit("alarm_arm_home");
    reveal_strlit("alarm_control_panel");
    reveal_strlit("alarm_disarm");
    reveal_strlit("climate");
    reveal_strlit("close_cover");
    reveal_strlit("cover");
    reveal_strlit("fan");
    reveal_strlit("light");
    reveal_strlit("lock");
    reveal_strlit("media_pause");
    reveal_strlit("media_play");
    reveal_strlit("media_player");
    reveal_strlit("media_stop");
    reveal_strlit("open_cover");
    reveal_strlit("return_to_base");
    reveal_strlit("scene");
    reveal_strlit("set_percentage");
    reveal_strlit("set_temperature");
    reveal_strlit("start");
    reveal_strlit("stop");
    reveal_strlit("stop_cover");
    reveal_strlit("switch");
    reveal_strlit("toggle");
    reveal_strlit("turn_off");
    reveal_strlit("turn_on");
    reveal_strlit("unlock");
    reveal_strlit("vacuum");
    reveal_strlit("volume_set");
    let t = service_table();
    assert forall|i: int| 0 <= i < t.len() implies service_row((#[trigger] t[i]).domain, t[i].service) == i by {
        assert("alarm_arm_away"@.len() == 14);
        assert("alarm_arm_away"@[0] == 'a');
        assert("alarm_arm_home"@[0] == 'a');
        assert("alarm_control_panel"@[0] == 'a');
        assert("alarm_disarm"@[0] == 'a');
        assert("climate"@[0] == 'c');
        assert("close_cover"@[0] == 'c');
        assert("cover"@[0] == 'c');
        assert("fan"@[0] == 'f');
        assert("light"@[0] == 'l');
        assert("lock"@[0] == 'l');
        assert("media_pause"@[0] == 'm');
        assert("media_play"@[0] == 'm');
        assert("media_player"@[0] == 'm');
        assert("media_stop"@[0] == 'm');
        assert("open_cover"@[0] == 'o');
        assert("return_to_base"@[0] == 'r');
        assert("scene"@[0] == 's');
        assert("set_percentage"@[0] == 's');
        assert("set_temperature"@[0] == 's');
        assert("start"@[0] == 's');
        assert("stop"@[0] == 's');
        assert("stop_cover"@[0] == 's');
        assert("switch"@[0] == 's');
        assert("toggle"@[0] == 't');
        assert("turn_off"@[0] == 't');
        assert("turn_on"@[0] == 't');
        assert("unlock"@[0] == 'u');
        assert("vacuum"@[0] == 'v');
        assert("volume_set"@[0] == 'v');
        assert("media_play"@[6] == 'p');
        assert("media_stop"@[6] == 's');
        assert("alarm_arm_home"@[10] == 'h');
        assert("alarm_arm_away"@[10] == 'a');
        assert("alarm_arm_home"@.len() == 14);
        assert("alarm_control_panel"@.len() == 19);
        assert("alarm_disarm"@.len() == 12);
        assert("climate"@.len() == 7);
        assert("close_cover"@.len() == 11);
        assert("cover"@.len() == 5);
        assert("fan"@.len() == 3);
        assert("light"@.len() == 5);
        assert("lock"@.len() == 4);
        assert("media_pause"@.len() == 11);
        assert("media_play"@.len() == 10);
        assert("media_player"@.len() == 12);
        assert("media_stop"@.len() == 10);
        assert("open_cover"@.len() == 10);
        assert("return_to_base"@.len() == 14);
        assert("scene"@.len() == 5);
        assert("set_percentage"@.len() == 14);
        assert("set_temperature"@.len() == 15);
        assert("start"@.len() == 5);
        assert("stop"@.len() == 4);
        assert("stop_cover"@.len() == 10);
        assert("switch"@.len() == 6);
        assert("toggle"@.len() == 6);
        assert("turn_off"@.len() == 8);
        assert("turn_on"@.len() == 7);
        assert("unlock"@.len() == 6);
        assert("vacuum"@.len() == 6);
        assert("volume_set"@.len() == 10);
        assert(service_row(t[0].domain, t[0].service) == 0);
        assert(service_row(t[1].domain, t[1].service) == 1);
        assert(service_row(t[2].domain, t[2].service) == 2);
        assert(service_row(t[3].domain, t[3].service) == 3);
        assert(service_row(t[4].domain, t[4].service) == 4);
        assert(service_row(t[5].domain, t[5].service) == 5);
        assert(service_row(t[6].domain, t[6].service) == 6);
        assert(service_row(t[7].domain, t[7].service) == 7);
        assert(service_row(t[8].domain, t[8].service) == 8);
        assert(service_row(t[9].domain, t[9].service) == 9);
        assert(service_row(t[10].domain, t[10].service) == 10);
        assert(service_row(t[11].domain, t[11].service) == 11);
        assert(service_row(t[12].domain, t[12].service) == 12);
        assert(service_row(t[13].domain, t[13].service) == 13);
        assert(service_row(t[14].domain, t[14].service) == 14);
        assert(service_row(t[15].domain, t[15].service) == 15);
        assert(service_row(t[16].domain, t[16].service) == 16);
        assert(service_row(t[17].domain, t[17].service) == 17);
        assert(service_row(t[18].domain, t[18].service) == 18);
        assert(service_row(t[19].domain, t[19].service) == 19);
        assert(service_row(t[20].domain, t[20].service) == 20);
        assert(service_row(t[21].domain, t[21].service) == 21);
        assert(service_row(t[22].domain, t[22].service) == 22);
        assert(service_row(t[23].domain, t[23].service) == 23);
        assert(service_row(t[24].domain, t[24].service) == 24);
        assert(service_row(t[25].domain, t[25].service) == 25);
        assert(service_row(t[26].domain, t[26].service) == 26);
        assert(service_row(t[27].domain, t[27].service) == 27);
        assert(service_row(t[28].domain, t[28].service) == 28);
    }
    assert forall|i: int, j: int|
        0 <= i < j < t.len() implies !((#[trigger] t[i]).domain == (#[trigger] t[j]).domain && t[i].service
            == t[j].service) by {
        assert(service_row(t[i].domain, t[i].service) == i);
        assert(service_row(t[j].domain, t[j].service) == j);
    }
}

/// The commands a service call translates to carry the call's data where the
/// service takes one: the `temperature` member for `climate.set_temperature`,
/// `percentage` for `fan.set_percentage`, `volume_level` for
/// `media_player.volume_set`, `code` for arming or disarming an alarm, the whole
/// data for `light.turn_on` when it is a non-empty object; `lock` and `switch`
/// services carry none. Each command targets its own entity.
pub proof fn service_commands_carry_data(g: Map<Seq<char>, Entity>, call: CallView)
    requires
        service_commands(g, call) is Ok,
    ensures
        forall|i: int| 0 <= i < call.targets.len() ==> {
            let c = #[trigger] service_commands(g, call)->Ok_0[i];
            &&& service_commands(g, call)->Ok_0.len() == call.targets.len()
            &&& c.action.entity == call.targets[i]
            &&& call.domain == "climate"@ && call.service == "set_temperature"@ ==> c.action.value == json_get(
                call.data,
                "temperature"@,
            )
            &&& call.domain == "fan"@ && call.service == "set_percentage"@ ==> c.action.value == json_get(
                call.data,
                "percentage"@,
            )
            &&& call.domain == "media_player"@ && call.service == "volume_set"@ ==> c.action.value == json_get(
                call.data,
                "volume_level"@,
            )
            &&& call.domain == "alarm_control_panel"@ ==> c.action.value == json_get(call.data, "code"@)
            &&& call.domain == "light"@ && call.service == "turn_on"@ ==> c.action.value == (if call.data matches JsonView::Object(
                ms,
            ) && ms.len() > 0 {
                Some(call.data)
            } else {
                None
            })
            &&& call.domain == "lock"@ || call.domain == "switch"@ ==> c.action.value is None
        },
{
    reveal_strlit("climate");
    reveal_strlit("set_temperature");
    reveal_strlit("fan");
    reveal_strlit("set_percentage");
    reveal_strlit("media_player");
    reveal_strlit("volume_set");
    reveal_strlit("alarm_control_panel");
    reveal_strlit("light");
    reveal_strlit("turn_on");
    reveal_strlit("lock");
    reveal_strlit("switch");
    assert("climate"@.len() == 7 && "fan"@.len() == 3 && "media_player"@.len() == 12);
    assert("alarm_control_panel"@.len() == 19 && "light"@.len() == 5 && "lock"@.len() == 4 && "switch"@.len() == 6);
    reveal_strlit("alarm_arm_home");
    reveal_strlit("alarm_arm_away");
    reveal_strlit("alarm_disarm");
    assert("cover"@.len() == 5) by {
        reveal_strlit("cover");
    }
    assert("scene"@.len() == 5 && "scene"@[0] == 's') by {
        reveal_strlit("scene");
    }
    assert("vacuum"@.len() == 6 && "vacuum"@[0] == 'v') by {
        reveal_strlit("vacuum");
    }
    let kind = service_action(call.domain, call.service)->Some_0;
    let cs = service_commands(g, call)->Ok_0;
    assert forall|i: int| 0 <= i < call.targets.len() implies {
        let c = #[trigger] service_commands(g, call)->Ok_0[i];
        &&& service_commands(g, call)->Ok_0.len() == call.targets.len()
        &&& c.action.entity == call.targets[i]
        &&& call.domain == "climate"@ && call.service == "set_temperature"@ ==> c.action.value == json_get(
            call.data,
            "temperature"@,
        )
        &&& call.domain == "fan"@ && call.service == "set_percentage"@ ==> c.action.value == json_get(
            call.data,
            "percentage"@,
        )
        &&& call.domain == "media_player"@ && call.service == "volume_set"@ ==> c.action.value == json_get(
            call.data,
            "volume_level"@,
        )
        &&& call.domain == "alarm_control_panel"@ ==> c.action.value == json_get(call.data, "code"@)
        &&& call.domain == "light"@ && call.service == "turn_on"@ ==> c.action.value == (if call.data matches JsonView::Object(
            ms,
        ) && ms.len() > 0 {
            Some(call.data)
        } else {
            None
        })
        &&& call.domain == "lock"@ || call.domain == "switch"@ ==> c.action.value is None
    } by {
        assert(cs[i] == service_command(call, kind, call.targets[i]));
        assert(cs[i].action.value == service_value(call.domain, call.service, call.data));
    }
}

/// Every service a call can use is advertised, with the action it stands for.
pub proof fn usable_services_are_advertised(d: Seq<char>, s: Seq<char>)
    requires
        service_action(d, s) is Some,
    ensures
        exists|i: int|
            0 <= i < service_table().len() && (#[trigger] service_table()[i]).domain == d
                && service_table()[i].service == s && service_table()[i].action_kind == service_action(d, s),
{
    reveal_strlit("alarm_arm_away");
    reveal_strlit("alarm_arm_home");
    reveal_strlit("alarm_control_panel");
    reveal_strlit("alarm_disarm");
    reveal_strlit("climate");
    reveal_strlit("close_cover");
    reveal_strlit("cover");
    reveal_strlit("fan");
    reveal_strlit("light");
    reveal_strlit("lock");
    reveal_strlit("media_pause");
    reveal_strlit("media_play");
    reveal_strlit("media_player");
    reveal_strlit("media_stop");
    reveal_strlit("open_cover");
    reveal_strlit("return_to_base");
    reveal_strlit("scene");
    reveal_strlit("set_percentage");
    reveal_strlit("set_temperature");
    reveal_strlit("start");
    reveal_strlit("stop");
    reveal_strlit("stop_cover");
    reveal_strlit("switch");
    reveal_strlit("toggle");
    reveal_strlit("turn_off");
    reveal_strlit("turn_on");
    reveal_strlit("unlock");
    reveal_strlit("vacuum");
    reveal_strlit("volume_set");
    let t = service_table();
    if exists|i: int| 0 <= i < 29 && (#[trigger] t[i]).domain == d && t[i].service == s {
        let i = choose|i: int| 0 <= i < 29 && (#[trigger] t[i]).domain == d && t[i].service == s;
        advertised_services_translate();
        assert(t[i].action_kind == service_action(d, s));
    } else {
        assert(forall|i: int| 0 <= i < 29 ==> !((#[trigger] t[i]).domain == d && t[i].service == s));
        assert(false);
    }
}


/// How far a domain is supported.
#[derive(Debug, Clone, Copy, PartialEq, Eq, Structural)]
pub enum DomainSupportLevel {
    SafetyGatedActuation,
    ReadOnlyViaEntityState,
    Planned,
}

/// One domain: its support level, its services in advertised order, and notes.
#[derive(Debug, Clone)]
pub struct DomainSupport {
    pub domain: String,
    pub support_level: DomainSupportLevel,
    pub services: Vec<String>,
    pub notes: Vec<String>,
}

pub struct DomainSupportView {
    pub domain: Seq<char>,
    pub support_level: DomainSupportLevel,
    pub services: Seq<Seq<char>>,
    pub notes: Seq<Seq<char>>,
}

impl View for DomainSupport {
    type V = DomainSupportView;

    open spec fn view(&self) -> DomainSupportView {
        DomainSupportView {
            domain: self.domain@,
            support_level: self.support_level,
            services: string_views(self.services@),
            notes: string_views(self.notes@),
        }
    }
}

impl crate::keyed::Keyed for DomainSupport {
    open spec fn key(&self) -> Seq<char> {
        self.domain@
    }

    fn key_str(&self) -> (r: &str) {
        self.domain.as_str()
    }

    fn copy_item(&self) -> (r: Self) {
        DomainSupport {
            domain: self.domain.clone(),
            support_level: self.support_level,
            services: self.services.clone(),
            notes: self.notes.clone(),
        }
    }
}

/// The note shown for an actuated domain.
pub open spec fn domain_note(d: Seq<char>) -> Seq<char> {
    if d == "lock"@ {
        "Unlock requires confirmation for unsafe origins."@
    } else if d == "cover"@ {
        "Open/close actions are treated as sensitive physical actuation."@
    } else if d == "climate"@ {
        "Temperature setpoint is supported; full HVAC mode policy is planned."@
    } else if d == "scene"@ {
        "Scene activation evaluates every nested action before any mutation."@
    } else if d == "media_player"@ {
        "Media control is supported for basic power/playback/volume only."@
    } else if d == "vacuum"@ {
        "Vacuum movement commands are sensitive and require confirmation for unsafe origins."@
    } else if d == "alarm_control_panel"@ {
        "Alarm arm/disarm commands are sensitive and require confirmation for unsafe origins."@
    } else {
        "Direct service calls are translated into Genie commands and safety-gated."@
    }
}

fn domain_notes(domain: &str) -> (r: Vec<String>)
    ensures
        string_views(r@) == seq![domain_note(domain@)],
{
    let text = if str_eq(domain, "lock") {
        "Unlock requires confirmation for unsafe origins."

    } else if str_eq(domain, "cover") {
        "Open/close actions are treated as sensitive physical actuation."

    } else if str_eq(domain, "climate") {
        "Temperature setpoint is supported; full HVAC mode policy is planned."

    } else if str_eq(domain, "scene") {
        "Scene activation evaluates every nested action before any mutation."

    } else if str_eq(domain, "media_player") {
        "Media control is supported for basic power/playback/volume only."

    } else if str_eq(domain, "vacuum") {
        "Vacuum movement commands are sensitive and require confirmation for unsafe origins."

    } else if str_eq(domain, "alarm_control_panel") {
        "Alarm arm/disarm commands are sensitive and require confirmation for unsafe origins."
    } else {
        "Direct service calls are translated into Genie commands and safety-gated."
    };
    let mut v: Vec<String> = Vec::new();
    v.push(String::from_str(text));
    assert(string_views(v@) =~= seq![domain_note(domain@)]);
    v
}

/// Some advertised service belongs to domain `d`.
pub open spec fn has_domain(t: Seq<ServiceSpecView>, d: Seq<char>) -> bool {
    exists|i: int| 0 <= i < t.len() && (#[trigger] t[i]).domain == d
}

/// The services of domain `d`, in advertised order.
pub open spec fn services_of(t: Seq<ServiceSpecView>, d: Seq<char>) -> Seq<Seq<char>>
    decreases t.len(),
{
    if t.len() == 0 {
        seq![]
    } else {
        services_of(t.drop_last(), d) + if t.last().domain == d {
            seq![t.last().service]
        } else {
            seq![]
        }
    }
}

/// The matrix row of an advertised domain.
pub open spec fn actuated_row(t: Seq<ServiceSpecView>, d: Seq<char>) -> DomainSupportView {
    DomainSupportView {
        domain: d,
        support_level: DomainSupportLevel::SafetyGatedActuation,
        services: services_of(t, d),
        notes: seq![domain_note(d)],
    }
}

/// The matrix row of a domain that is only read through entity state.
pub open spec fn read_only_row(d: Seq<char>, note: Seq<char>) -> DomainSupportView {
    DomainSupportView {
        domain: d,
        support_level: DomainSupportLevel::ReadOnlyViaEntityState,
        services: seq![],
        notes: seq![note],
    }
}

pub open spec fn sensor_note() -> Seq<char> {
    "Sensor entities are represented as state snapshots. Direct actuation is intentionally unavailable."@
}

pub open spec fn binary_sensor_note() -> Seq<char> {
    "Binary sensors are represented as state snapshots. Direct actuation is intentionally unavailable."@
}

/// The support matrix by domain: a row for each advertised domain, and the
/// read-only sensor domains.
pub open spec fn domain_matrix() -> Map<Seq<char>, DomainSupportView> {
    Map::new(|d: Seq<char>| has_domain(service_table(), d), |d: Seq<char>| actuated_row(service_table(), d)).insert(
        "sensor"@,
        read_only_row("sensor"@, sensor_note()),
    ).insert("binary_sensor"@, read_only_row("binary_sensor"@, binary_sensor_note()))
}

/// The domain matrix has twelve rows: the ten domains of the service table
/// and the two read-only sensor domains.
#[verifier::rlimit(60)]
pub proof fn domain_matrix_has_twelve_rows()
    ensures
        domain_matrix().dom() == set!["alarm_control_panel"@, "binary_sensor"@, "climate"@, "cover"@, "fan"@, "light"@, "lock"@, "media_player"@, "scene"@, "sensor"@, "switch"@, "vacuum"@],
        domain_matrix().dom().finite(),
        domain_matrix().dom().len() == 12,
{
    reveal_strlit("alarm_control_panel");
    reveal_strlit("binary_sensor");
    reveal_strlit("climate");
    reveal_strlit("cover");
    reveal_strlit("fan");
    reveal_strlit("light");
    reveal_strlit("lock");
    reveal_strlit("media_player");
    reveal_strlit("scene");
    reveal_strlit("sensor");
    reveal_strlit("switch");
    reveal_strlit("vacuum");
    assert("alarm_control_panel"@.len() == 19);
    assert("alarm_control_panel"@[0] == 'a');
    assert("binary_sensor"@.len() == 13);
    assert("binary_sensor"@[0] == 'b');
    assert("climate"@.len() == 7);
    assert("climate"@[0] == 'c');
    assert("cover"@.len() == 5);
    assert("cover"@[0] == 'c');
    assert("fan"@.len() == 3);
    assert("fan"@[0] == 'f');
    assert("light"@.len() == 5);
    assert("light"@[0] == 'l');
    assert("lock"@.len() == 4);
    assert("lock"@[0] == 'l');
    assert("media_player"@.len() == 12);
    assert("media_player"@[0] == 'm');
    assert("scene"@.len() == 5);
    assert("scene"@[0] == 's');
    assert("sensor"@.len() == 6);
    assert("sensor"@[0] == 's');
    assert("switch"@.len() == 6);
    assert("switch"@[0] == 's');
    assert("vacuum"@.len() == 6);
    assert("vacuum"@[0] == 'v');
    assert("sensor"@[1] == 'e' && "switch"@[1] == 'w');
    let t = service_table();
    let want = set!["alarm_control_panel"@, "binary_sensor"@, "climate"@, "cover"@, "fan"@, "light"@, "lock"@, "media_player"@, "scene"@, "sensor"@, "switch"@, "vacuum"@];
    assert forall|i: int| 0 <= i < t.len() implies want.contains((#[trigger] t[i]).domain) by {
            if i == 0 {
                assert(t[0].domain == "light"@);
            } else if i == 1 {
                assert(t[1].domain == "light"@);
            } else if i == 2 {
                assert(t[2].domain == "light"@);
            } else if i == 3 {
                assert(t[3].domain == "switch"@);
            } else if i == 4 {
                assert(t[4].domain == "switch"@);
            } else if i == 5 {
                assert(t[5].domain == "switch"@);
            } else if i == 6 {
                assert(t[6].domain == "fan"@);
            } else if i == 7 {
                assert(t[7].domain == "fan"@);
            } else if i == 8 {
                assert(t[8].domain == "fan"@);
            } else if i == 9 {
                assert(t[9].domain == "fan"@);
            } else if i == 10 {
                assert(t[10].domain == "lock"@);
            } else if i == 11 {
                assert(t[11].domain == "lock"@);
            } else if i == 12 {
                assert(t[12].domain == "cover"@);
            } else if i == 13 {
                assert(t[13].domain == "cover"@);
            } else if i == 14 {
                assert(t[14].domain == "cover"@);
            } else if i == 15 {
                assert(t[15].domain == "scene"@);
            } else if i == 16 {
                assert(t[16].domain == "climate"@);
            } else if i == 17 {
                assert(t[17].domain == "media_player"@);
            } else if i == 18 {
                assert(t[18].domain == "media_player"@);
            } else if i == 19 {
                assert(t[19].domain == "media_player"@);
            } else if i == 20 {
                assert(t[20].domain == "media_player"@);
            } else if i == 21 {
                assert(t[21].domain == "media_player"@);
            } else if i == 22 {
                assert(t[22].domain == "media_player"@);
            } else if i == 23 {
                assert(t[23].domain == "vacuum"@);
            } else if i == 24 {
                assert(t[24].domain == "vacuum"@);
            } else if i == 25 {
                assert(t[25].domain == "vacuum"@);
            } else if i == 26 {
                assert(t[26].domain == "alarm_control_panel"@);
            } else if i == 27 {
                assert(t[27].domain == "alarm_control_panel"@);
            } else if i == 28 {
                assert(t[28].domain == "alarm_control_panel"@);
            }
    }
    assert(t[0].domain == "light"@ && has_domain(t, "light"@));
    assert(t[3].domain == "switch"@ && has_domain(t, "switch"@));
    assert(t[6].domain == "fan"@ && has_domain(t, "fan"@));
    assert(t[10].domain == "lock"@ && has_domain(t, "lock"@));
    assert(t[12].domain == "cover"@ && has_domain(t, "cover"@));
    assert(t[15].domain == "scene"@ && has_domain(t, "scene"@));
    assert(t[16].domain == "climate"@ && has_domain(t, "climate"@));
    assert(t[17].domain == "media_player"@ && has_domain(t, "media_player"@));
    assert(t[23].domain == "vacuum"@ && has_domain(t, "vacuum"@));
    assert(t[26].domain == "alarm_control_panel"@ && has_domain(t, "alarm_control_panel"@));
    assert(domain_matrix().dom() =~= want);
}

proof fn lemma_services_of_present(t: Seq<ServiceSpecView>, d: Seq<char>)
    requires
        has_domain(t, d),
    ensures
        services_of(t, d).len() > 0,
    decreases t.len(),
{
    if t.last().domain != d {
        let i = choose|i: int| 0 <= i < t.len() && (#[trigger] t[i]).domain == d;
        assert(t.drop_last()[i] == t[i]);
        lemma_services_of_present(t.drop_last(), d);
    }
}

/// Each row of the domain matrix: it is filed under its own domain and has one
/// note; `sensor` and `binary_sensor` are read through entity state and offer no
/// service; every other domain is safety-gated and offers exactly the services
/// the service table lists for it, in table order, at least one.
pub proof fn domain_matrix_rows()
    ensures
        forall|d: Seq<char>| #[trigger] domain_matrix().contains_key(d) ==> {
            let row = domain_matrix()[d];
            &&& row.domain == d
            &&& row.notes.len() == 1
            &&& (d == "sensor"@ || d == "binary_sensor"@) ==> row.support_level
                == DomainSupportLevel::ReadOnlyViaEntityState && row.services.len() == 0
            &&& !(d == "sensor"@ || d == "binary_sensor"@) ==> row.support_level
                == DomainSupportLevel::SafetyGatedActuation && row.services == services_of(service_table(), d)
                && row.services.len() > 0
        },
{
    assert forall|d: Seq<char>| #[trigger] domain_matrix().contains_key(d) && !(d == "sensor"@ || d
        == "binary_sensor"@) implies domain_matrix()[d].services.len() > 0 by {
        lemma_services_of_present(service_table(), d);
    }
}

/// The rows after grouping the first services of the table, as the loop builds them.
spec fn grouped(t: Seq<ServiceSpecView>) -> Map<Seq<char>, DomainSupportView> {
    Map::new(|d: Seq<char>| has_domain(t, d), |d: Seq<char>| actuated_row(t, d))
}

proof fn lemma_services_of_absent(t: Seq<ServiceSpecView>, d: Seq<char>)
    requires
        !has_domain(t, d),
    ensures
        services_of(t, d) == Seq::<Seq<char>>::empty(),
    decreases t.len(),
{
    if t.len() > 0 {
        assert(!has_domain(t.drop_last(), d)) by {
            if has_domain(t.drop_last(), d) {
                let i = choose|i: int| 0 <= i < t.drop_last().len() && (#[trigger] t.drop_last()[i]).domain == d;
                assert(t[i].domain == d);
            }
        }
        assert(t[t.len() - 1].domain != d);
        lemma_services_of_absent(t.drop_last(), d);
    }
}

fn planned_domain(domain: &str, support_level: DomainSupportLevel, note: &str) -> (r: DomainSupport)
    ensures
        r@ == (DomainSupportView { domain: domain@, support_level, services: seq![], notes: seq![note@] }),
{
    let mut notes: Vec<String> = Vec::new();
    notes.push(String::from_str(note));
    let r = DomainSupport { domain: String::from_str(domain), support_level, services: Vec::new(), notes };
    assert(r@.services =~= Seq::<Seq<char>>::empty());
    assert(r@.notes =~= seq![note@]);
    r
}

/// The support matrix: every advertised domain with its services in advertised
/// order, safety-gated, and the read-only sensor domains; sorted by domain.
pub fn domain_support_matrix() -> (r: Vec<DomainSupport>)
    ensures
        crate::keyed::keys_sorted(r@),
        crate::keyed::seq_to_map(r@).map_values(|x: DomainSupport| x@) == domain_matrix(),
        r@.len() == 12,
        forall|i: int| 0 <= i < r@.len() ==> domain_matrix().contains_key((#[trigger] r@[i]).domain@) && r@[i]@
            == domain_matrix()[r@[i].domain@],
{
    let specs = service_specs();
    let ghost t = service_table();
    let mut domains: crate::keyed::KeyedList<DomainSupport> = crate::keyed::KeyedList::new();
    let mut i: usize = 0;
    proof {
        assert(domains@.map_values(|x: DomainSupport| x@) =~= grouped(t.take(0)));
    }
    while i < specs.len()
        invariant
            i <= specs@.len(),
            specs@.map_values(|s: ServiceSpec| s@) == t,
            t == service_table(),
            domains@.map_values(|x: DomainSupport| x@) == grouped(t.take(i as int)),
        decreases specs@.len() - i,
    {
        let sp = &specs[i];
        let ghost t0 = t.take(i as int);
        let ghost t1 = t.take(i + 1);
        let ghost d = sp.domain@;
        proof {
            assert(t1.drop_last() =~= t0);
            assert(t1.last() == sp@);
        }
        let ghost m0 = domains@;
        match domains.take(sp.domain.as_str()) {
            Some(entry) => {
                proof {
                    assert(m0.contains_key(d));
                    assert(m0.map_values(|x: DomainSupport| x@).contains_key(d));
                    assert(has_domain(t0, d));
                    assert(entry == m0[d]);
                    assert(m0.map_values(|x: DomainSupport| x@)[d] == m0[d]@);
                    assert(grouped(t0)[d] == actuated_row(t0, d));
                    assert(entry@ == actuated_row(t0, d));
                }
                let mut entry = entry;
                let ghost before = entry@.services;
                entry.services.push(sp.service.clone());
                let ghost ev = entry@;
                proof {
                    assert(ev.services =~= before.push(sp.service@));
                    assert(services_of(t1, d) =~= services_of(t0, d) + seq![sp.service@]);
                    assert(ev.services =~= services_of(t1, d));
                    assert(ev == actuated_row(t1, d));
                }
                domains.upsert(entry);
                proof {
                    assert(domains@.map_values(|x: DomainSupport| x@) =~= grouped(t0).insert(
                        d,
                        actuated_row(t1, d),
                    ));
                }
            },
            None => {
                let mut services: Vec<String> = Vec::new();
                services.push(sp.service.clone());
                let entry = DomainSupport {
                    notes: domain_notes(sp.domain.as_str()),
                    domain: sp.domain.clone(),
                    support_level: DomainSupportLevel::SafetyGatedActuation,
                    services,
                };
                proof {
                    assert(!m0.contains_key(d));
                    assert(!m0.map_values(|x: DomainSupport| x@).contains_key(d));
                    assert(!grouped(t0).contains_key(d));
                    assert(!has_domain(t0, d));
                    lemma_services_of_absent(t0, d);
                    assert(entry@.services =~= services_of(t1, d));
                    assert(entry@ == actuated_row(t1, d));
                }
                domains.upsert(entry);
                proof {
                    assert(domains@.map_values(|x: DomainSupport| x@) =~= grouped(t0).insert(
                        d,
                        actuated_row(t1, d),
                    ));
                }
            },
        }
        proof {
            let g1 = grouped(t1);
            let mv = domains@.map_values(|x: DomainSupport| x@);
            assert(t1[i as int].domain == d);
            assert forall|k: Seq<char>| k != d implies (has_domain(t1, k) <==> has_domain(t0, k)) && services_of(
                t1,
                k,
            ) == services_of(t0, k) by {
                assert(services_of(t1, k) =~= services_of(t0, k));
                if has_domain(t1, k) {
                    let j = choose|j: int| 0 <= j < t1.len() && (#[trigger] t1[j]).domain == k;
                    assert(t0[j].domain == k);
                }
                if has_domain(t0, k) {
                    let j = choose|j: int| 0 <= j < t0.len() && (#[trigger] t0[j]).domain == k;
                    assert(t1[j].domain == k);
                }
            }
            assert(has_domain(t1, d));
            assert(g1 =~= mv);
        }
        i = i + 1;
    }
    proof {
        assert(t.take(specs@.len() as int) =~= t);
    }
    domains.upsert(planned_domain(
        "sensor",
        DomainSupportLevel::ReadOnlyViaEntityState,
        "Sensor entities are represented as state snapshots. Direct actuation is intentionally unavailable.",
    ));
    domains.upsert(planned_domain(
        "binary_sensor",
        DomainSupportLevel::ReadOnlyViaEntityState,
        "Binary sensors are represented as state snapshots. Direct actuation is intentionally unavailable.",
    ));
    proof {
        assert(domains@.map_values(|x: DomainSupport| x@) =~= domain_matrix());
    }
    let r = domains.into_vec();
    proof {
        crate::keyed::lemma_sorted_len(r@);
        domain_matrix_has_twelve_rows();
        assert(crate::keyed::seq_to_map(r@).dom() =~= domain_matrix().dom());
        assert forall|i: int| 0 <= i < r@.len() implies domain_matrix().contains_key((#[trigger] r@[i]).domain@)
            && r@[i]@ == domain_matrix()[r@[i].domain@] by {
            crate::keyed::lemma_key_index_unique(r@, i);
        }
    }
    r
}

} // verus!
