//! The deterministic safety policy that every physical action passes through.

use vstd::prelude::*;
use crate::command::{
    CommandOrigin, CommandView, HomeActionKind, HomeCommand, approval_valid_for, f32_bits_lt,
    f32_lt, kind_is_sensitive,
};
use crate::entity::{Capability, Entity, EntityGraph, SafetyClass, state_available};

verus! {

/// The knobs of the safety policy. `min_target_confidence` is a single-precision
/// number held as its IEEE-754 bit pattern, like `TargetSelector::confidence`.
#[derive(Debug, Clone, Copy, PartialEq, Eq)]
pub struct SafetyPolicy {
    pub min_target_confidence: u32,
    pub require_available_state: bool,
    pub require_confirmation_for_sensitive_indirect: bool,
    pub require_structured_approval_for_indirect: bool,
    pub allow_critical_without_confirmation: bool,
}

/// The bit pattern of the single-precision number `0.78`.
pub const DEFAULT_MIN_TARGET_CONFIDENCE: u32 = 0x3f47_ae14u32;

/// The default policy: confidence at least 0.78, available targets only,
/// confirmation for sensitive indirect requests, structured approval for
/// indirect critical requests, and no critical action without confirmation.
pub open spec fn default_policy() -> SafetyPolicy {
    SafetyPolicy {
        min_target_confidence: DEFAULT_MIN_TARGET_CONFIDENCE,
        require_available_state: true,
        require_confirmation_for_sensitive_indirect: true,
        require_structured_approval_for_indirect: true,
        allow_critical_without_confirmation: false,
    }
}

impl Default for SafetyPolicy {
    fn default() -> (r: SafetyPolicy)
        ensures
            r == default_policy(),
            r.min_target_confidence == DEFAULT_MIN_TARGET_CONFIDENCE,
            r.require_available_state,
            r.require_confirmation_for_sensitive_indirect,
            r.require_structured_approval_for_indirect,
            !r.allow_critical_without_confirmation,
    {
        SafetyPolicy {
            min_target_confidence: DEFAULT_MIN_TARGET_CONFIDENCE,
            require_available_state: true,
            require_confirmation_for_sensitive_indirect: true,
            require_structured_approval_for_indirect: true,
            allow_critical_without_confirmation: false,
        }
    }
}

/// Why a command was allowed or refused.
#[derive(Debug, Clone, Copy, PartialEq, Eq, Structural)]
pub enum SafetyReason {
    Allowed,
    UnknownTarget,
    LowTargetConfidence,
    TargetUnavailable,
    UnsupportedCapability,
    ConfirmationRequired,
    ApprovalRequired,
    CriticalActionBlocked,
    SceneDefinitionMissing,
    SceneActionBlocked,
}

/// The outcome of a safety evaluation.
#[derive(Debug, Clone)]
pub struct SafetyDecision {
    pub allowed: bool,
    pub requires_confirmation: bool,
    pub reason: SafetyReason,
    pub message: String,
}

pub struct DecisionView {
    pub allowed: bool,
    pub requires_confirmation: bool,
    pub reason: SafetyReason,
    pub message: Seq<char>,
}

impl View for SafetyDecision {
    type V = DecisionView;

    open spec fn view(&self) -> DecisionView {
        DecisionView {
            allowed: self.allowed,
            requires_confirmation: self.requires_confirmation,
            reason: self.reason,
            message: self.message@,
        }
    }
}

/// An allowing decision.
pub open spec fn allow_view() -> DecisionView {
    DecisionView {
        allowed: true,
        requires_confirmation: false,
        reason: SafetyReason::Allowed,
        message: "allowed"@,
    }
}

/// A refusal that asks for confirmation.
pub open spec fn confirm_view(message: Seq<char>) -> DecisionView {
    DecisionView {
        allowed: false,
        requires_confirmation: true,
        reason: SafetyReason::ConfirmationRequired,
        message,
    }
}

/// A refusal for `reason`.
pub open spec fn block_view(reason: SafetyReason, message: Seq<char>) -> DecisionView {
    DecisionView { allowed: false, requires_confirmation: false, reason, message }
}

impl SafetyDecision {
    pub fn allow() -> (r: SafetyDecision)
        ensures
            r@ == allow_view(),
    {
        SafetyDecision {
            allowed: true,
            requires_confirmation: false,
            reason: SafetyReason::Allowed,
            message: String::from_str("allowed"),
        }
    }

    pub fn require_confirmation(message: &str) -> (r: SafetyDecision)
        ensures
            r@ == confirm_view(message@),
    {
        SafetyDecision {
            allowed: false,
            requires_confirmation: true,
            reason: SafetyReason::ConfirmationRequired,
            message: String::from_str(message),
        }
    }

    pub fn block(reason: SafetyReason, message: &str) -> (r: SafetyDecision)
        ensures
            r@ == block_view(reason, message@),
    {
        SafetyDecision {
            allowed: false,
            requires_confirmation: false,
            reason,
            message: String::from_str(message),
        }
    }

    pub fn duplicate(&self) -> (r: SafetyDecision)
        ensures
            r@ == self@,
    {
        SafetyDecision {
            allowed: self.allowed,
            requires_confirmation: self.requires_confirmation,
            reason: self.reason,
            message: self.message.clone(),
        }
    }
}

/// Origins that act on someone's behalf rather than a person at the device.
pub open spec fn is_indirect(o: CommandOrigin) -> bool {
    o is Agent || o is Automation || o is Schedule || o is Bridge || o is LocalApi
}

/// Whether an entity with capabilities `caps` can carry out `kind`.
pub open spec fn supports_action(caps: Set<Capability>, kind: HomeActionKind) -> bool {
    match kind {
        HomeActionKind::TurnOn | HomeActionKind::TurnOff | HomeActionKind::Toggle => caps.contains(
            Capability::Power,
        ),
        HomeActionKind::SetValue => caps.contains(Capability::Brightness) || caps.contains(
            Capability::Temperature,
        ),
        HomeActionKind::Lock | HomeActionKind::Unlock => caps.contains(Capability::Lock),
        HomeActionKind::Open | HomeActionKind::Close => caps.contains(Capability::OpenClose),
        HomeActionKind::Start | HomeActionKind::Stop | HomeActionKind::Pause => caps.contains(
            Capability::MediaPlayback,
        ) || caps.contains(Capability::VacuumControl) || caps.contains(Capability::OpenClose),
        HomeActionKind::ReturnToBase => caps.contains(Capability::VacuumControl),
        HomeActionKind::Arm | HomeActionKind::Disarm => caps.contains(Capability::AlarmControl),
        HomeActionKind::ActivateScene => caps.contains(Capability::SceneActivation),
    }
}

/// An action needs confirmation on a sensitive entity, or when it is itself
/// sensitive and comes by voice or indirectly (when the policy asks for that).
pub open spec fn needs_confirmation(e: Entity, c: CommandView, p: SafetyPolicy) -> bool {
    e.safety_class == SafetyClass::Sensitive || (p.require_confirmation_for_sensitive_indirect
        && kind_is_sensitive(c.action.kind) && (c.origin is Voice || is_indirect(c.origin)))
}

/// The command carries an approval scoped to its own action.
pub open spec fn has_scoped_approval(c: CommandView) -> bool {
    c.approval matches Some(a) && approval_valid_for(a, c.action)
}

/// The decision the policy takes on `c` against the entities in `graph`.
pub open spec fn evaluation(graph: Map<Seq<char>, Entity>, c: CommandView, p: SafetyPolicy) -> DecisionView {
    if f32_lt(c.action.confidence, p.min_target_confidence) {
        block_view(SafetyReason::LowTargetConfidence, "target confidence is below runtime threshold"@)
    } else if !graph.contains_key(c.action.entity) {
        block_view(SafetyReason::UnknownTarget, "target entity is unknown"@)
    } else {
        let e = graph[c.action.entity];
        if p.require_available_state && !state_available(e.state@) {
            block_view(SafetyReason::TargetUnavailable, "target state is unavailable or unknown"@)
        } else if !supports_action(e.capabilities@, c.action.kind) {
            block_view(
                SafetyReason::UnsupportedCapability,
                "target does not expose the required capability"@,
            )
        } else if e.safety_class == SafetyClass::Critical && !p.allow_critical_without_confirmation
            && !c.confirmed {
            block_view(
                SafetyReason::CriticalActionBlocked,
                "critical target requires a stronger runtime approval path"@,
            )
        } else if e.safety_class == SafetyClass::Critical && !p.allow_critical_without_confirmation
            && !has_scoped_approval(c) {
            block_view(SafetyReason::ApprovalRequired, "critical target requires a scoped approval token"@)
        } else if !c.confirmed && needs_confirmation(e, c, p) {
            confirm_view("sensitive physical action requires confirmation"@)
        } else if c.confirmed && p.require_structured_approval_for_indirect && is_indirect(c.origin)
            && needs_confirmation(e, c, p) && !has_scoped_approval(c) {
            block_view(
                SafetyReason::ApprovalRequired,
                "indirect sensitive action requires a scoped approval token"@,
            )
        } else {
            allow_view()
        }
    }
}

fn is_indirect_origin(origin: CommandOrigin) -> (r: bool)
    ensures
        r == is_indirect(origin),
{
    match origin {
        CommandOrigin::Agent | CommandOrigin::Automation | CommandOrigin::Schedule
        | CommandOrigin::Bridge | CommandOrigin::LocalApi => true,
        _ => false,
    }
}

fn entity_supports_action(entity: &Entity, action: &HomeActionKind) -> (r: bool)
    ensures
        r == supports_action(entity.capabilities@, *action),
{
    let caps = &entity.capabilities;
    match action {
        HomeActionKind::TurnOn | HomeActionKind::TurnOff | HomeActionKind::Toggle => caps.contains(
            &Capability::Power,
        ),
        HomeActionKind::SetValue => caps.contains(&Capability::Brightness) || caps.contains(
            &Capability::Temperature,
        ),
        HomeActionKind::Lock | HomeActionKind::Unlock => caps.contains(&Capability::Lock),
        HomeActionKind::Open | HomeActionKind::Close => caps.contains(&Capability::OpenClose),
        HomeActionKind::Start | HomeActionKind::Stop | HomeActionKind::Pause => caps.contains(
            &Capability::MediaPlayback,
        ) || caps.contains(&Capability::VacuumControl) || caps.contains(&Capability::OpenClose),
        HomeActionKind::ReturnToBase => caps.contains(&Capability::VacuumControl),
        HomeActionKind::Arm | HomeActionKind::Disarm => caps.contains(&Capability::AlarmControl),
        HomeActionKind::ActivateScene => caps.contains(&Capability::SceneActivation),
    }
}

fn action_needs_confirmation(entity: &Entity, command: &HomeCommand, policy: &SafetyPolicy) -> (r:
    bool)
    ensures
        r == needs_confirmation(*entity, command@, *policy),
{
    if entity.safety_class == SafetyClass::Sensitive {
        return true;
    }
    policy.require_confirmation_for_sensitive_indirect && command.action.kind.is_sensitive() && (
    matches!(command.origin, CommandOrigin::Voice) || is_indirect_origin(command.origin))
}

fn should_require_confirmation(entity: &Entity, command: &HomeCommand, policy: &SafetyPolicy) -> (r:
    bool)
    ensures
        r == (!command.confirmed && needs_confirmation(*entity, command@, *policy)),
{
    if command.confirmed {
        return false;
    }
    action_needs_confirmation(entity, command, policy)
}

fn has_structured_approval(command: &HomeCommand) -> (r: bool)
    ensures
        r == has_scoped_approval(command@),
{
    match &command.approval {
        Some(approval) => approval.is_valid_for(&command.action),
        None => false,
    }
}

/// Evaluates `command` against the entities in `graph` under `policy`.
pub fn evaluate_command(graph: &EntityGraph, command: &HomeCommand, policy: &SafetyPolicy) -> (r:
    SafetyDecision)
    ensures
        r@ == evaluation(graph@, command@, *policy),
{
    if f32_bits_lt(command.action.target.confidence, policy.min_target_confidence) {
        return SafetyDecision::block(
            SafetyReason::LowTargetConfidence,
            "target confidence is below runtime threshold",
        );
    }
    let entity = match graph.get(&command.action.target.entity_id) {
        Some(e) => e,
        None => {
            return SafetyDecision::block(SafetyReason::UnknownTarget, "target entity is unknown");
        },
    };
    if policy.require_available_state && !entity.state.is_available() {
        return SafetyDecision::block(
            SafetyReason::TargetUnavailable,
            "target state is unavailable or unknown",
        );
    }
    if !entity_supports_action(entity, &command.action.kind) {
        return SafetyDecision::block(
            SafetyReason::UnsupportedCapability,
            "target does not expose the required capability",
        );
    }
    if entity.safety_class == SafetyClass::Critical && !policy.allow_critical_without_confirmation {
        if !command.confirmed {
            return SafetyDecision::block(
                SafetyReason::CriticalActionBlocked,
                "critical target requires a stronger runtime approval path",
            );
        }
        if !has_structured_approval(command) {
            return SafetyDecision::block(
                SafetyReason::ApprovalRequired,
                "critical target requires a scoped approval token",
            );
        }
    }
    if should_require_confirmation(entity, command, policy) {
        return SafetyDecision::require_confirmation(
            "sensitive physical action requires confirmation",
        );
    }
    if command.confirmed && policy.require_structured_approval_for_indirect && is_indirect_origin(
        command.origin,
    ) && action_needs_confirmation(entity, command, policy) && !has_structured_approval(command) {
        return SafetyDecision::block(
            SafetyReason::ApprovalRequired,
            "indirect sensitive action requires a scoped approval token",
        );
    }
    SafetyDecision::allow()
}

/// A decision of the policy is allowed exactly when its reason is `Allowed`,
/// and it asks for confirmation exactly when its reason is `ConfirmationRequired`.
pub proof fn evaluation_flags_follow_reason(graph: Map<Seq<char>, Entity>, c: CommandView, p: SafetyPolicy)
    ensures
        evaluation(graph, c, p).allowed == (evaluation(graph, c, p).reason == SafetyReason::Allowed),
        evaluation(graph, c, p).requires_confirmation == (evaluation(graph, c, p).reason
            == SafetyReason::ConfirmationRequired),
{
}

/// A target below the confidence threshold is always refused for low confidence.
pub proof fn low_confidence_is_refused(graph: Map<Seq<char>, Entity>, c: CommandView, p: SafetyPolicy)
    requires
        f32_lt(c.action.confidence, p.min_target_confidence),
    ensures
        evaluation(graph, c, p).reason == SafetyReason::LowTargetConfidence,
        !evaluation(graph, c, p).allowed,
{
}

/// Only a known entity that is available (when the policy asks for it) and that
/// supports the action can be acted on.
pub proof fn allowed_needs_known_capable_target(graph: Map<Seq<char>, Entity>, c: CommandView, p: SafetyPolicy)
    requires
        evaluation(graph, c, p).allowed,
    ensures
        graph.contains_key(c.action.entity),
        !f32_lt(c.action.confidence, p.min_target_confidence),
        p.require_available_state ==> state_available(graph[c.action.entity].state@),
        supports_action(graph[c.action.entity].capabilities@, c.action.kind),
{
}

/// A critical entity is acted on only through a confirmed command with a scoped
/// approval, unless the policy allows critical actions outright.
pub proof fn critical_needs_scoped_approval(graph: Map<Seq<char>, Entity>, c: CommandView, p: SafetyPolicy)
    requires
        graph.contains_key(c.action.entity),
        graph[c.action.entity].safety_class == SafetyClass::Critical,
        !p.allow_critical_without_confirmation,
        evaluation(graph, c, p).allowed,
    ensures
        c.confirmed,
        has_scoped_approval(c),
{
}

/// An action that needs confirmation is never allowed unconfirmed; when it comes
/// indirectly and the policy asks for structured approval, it needs a scoped approval too.
pub proof fn sensitive_needs_confirmation(graph: Map<Seq<char>, Entity>, c: CommandView, p: SafetyPolicy)
    requires
        graph.contains_key(c.action.entity),
        needs_confirmation(graph[c.action.entity], c, p),
        evaluation(graph, c, p).allowed,
    ensures
        c.confirmed,
        p.require_structured_approval_for_indirect && is_indirect(c.origin) ==> has_scoped_approval(c),
{
}

/// Under the default policy, an unconfirmed request by voice or on someone's
/// behalf to unlock, open, start, send back to base, arm or disarm a known,
/// available, capable entity that is not critical is held back for confirmation;
/// any other kind of action on such an entity of normal safety class goes through.
pub proof fn voice_and_indirect_sensitive_kinds_need_confirmation(graph: Map<Seq<char>, Entity>, c: CommandView)
    requires
        c.origin is Voice || is_indirect(c.origin),
        !c.confirmed,
        !f32_lt(c.action.confidence, DEFAULT_MIN_TARGET_CONFIDENCE),
        graph.contains_key(c.action.entity),
        state_available(graph[c.action.entity].state@),
        supports_action(graph[c.action.entity].capabilities@, c.action.kind),
        graph[c.action.entity].safety_class != SafetyClass::Critical,
    ensures
        (c.action.kind is Unlock || c.action.kind is Open || c.action.kind is Start || c.action.kind is ReturnToBase
            || c.action.kind is Arm || c.action.kind is Disarm) ==> {
            let d = evaluation(graph, c, default_policy());
            &&& !d.allowed
            &&& d.requires_confirmation
            &&& d.reason == SafetyReason::ConfirmationRequired
            &&& d.message == "sensitive physical action requires confirmation"@
        },
        !(c.action.kind is Unlock || c.action.kind is Open || c.action.kind is Start || c.action.kind
            is ReturnToBase || c.action.kind is Arm || c.action.kind is Disarm) && graph[c.action.entity].safety_class
            == SafetyClass::Normal ==> evaluation(graph, c, default_policy()).allowed,
{
}

} // verus!
