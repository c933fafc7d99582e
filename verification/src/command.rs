//! Commands: who asks, what action, on which entity, with what approval.

use vstd::prelude::*;
use crate::entity::EntityId;
use crate::json::{JsonValue, JsonView};
use crate::text::{trim_to_string, trimmed};

verus! {

/// Where a command comes from.
#[derive(Debug, Clone, Copy, PartialEq, Eq, Structural, Hash)]
pub enum CommandOrigin {
    Agent,
    Voice,
    Dashboard,
    Automation,
    Schedule,
    Bridge,
    LocalApi,
}

/// The physical action a command asks for.
#[derive(Debug, Clone, Copy, PartialEq, Eq, Structural)]
pub enum HomeActionKind {
    TurnOn,
    TurnOff,
    Toggle,
    SetValue,
    Lock,
    Unlock,
    Open,
    Close,
    Start,
    Stop,
    Pause,
    ReturnToBase,
    Arm,
    Disarm,
    ActivateScene,
}

/// Actions that open, start, move or disarm something.
pub open spec fn kind_is_sensitive(k: HomeActionKind) -> bool {
    k is Unlock || k is Open || k is Start || k is ReturnToBase || k is Arm || k is Disarm
}

impl HomeActionKind {
    pub fn is_sensitive(&self) -> (r: bool)
        ensures
            r == kind_is_sensitive(*self),
    {
        match self {
            HomeActionKind::Unlock | HomeActionKind::Open | HomeActionKind::Start
            | HomeActionKind::ReturnToBase | HomeActionKind::Arm | HomeActionKind::Disarm => true,
            _ => false,
        }
    }

    /// Every action kind changes something physical.
    pub fn is_physical_mutation(&self) -> (r: bool)
        ensures
            r,
    {
        true
    }
}

/// The bit pattern of the single-precision number `1.0`.
pub const CONFIDENCE_ONE: u32 = 0x3f80_0000u32;

/// Whether the single-precision number with bit pattern `b` is NaN.
pub open spec fn f32_is_nan(b: u32) -> bool {
    ((b >> 23u32) & 0xffu32) == 0xffu32 && (b & 0x7f_ffffu32) != 0
}

/// The position of a non-NaN single-precision number on the number line, by its bit pattern.
pub open spec fn f32_key(b: u32) -> int {
    if b & 0x8000_0000u32 != 0 {
        -((b & 0x7fff_ffffu32) as int)
    } else {
        (b & 0x7fff_ffffu32) as int
    }
}

/// IEEE-754 `a < b` on single-precision numbers given by their bit patterns:
/// false when either is NaN, and `-0 < +0` is false.
pub open spec fn f32_lt(a: u32, b: u32) -> bool {
    !f32_is_nan(a) && !f32_is_nan(b) && f32_key(a) < f32_key(b)
}

/// `a < b` on single-precision numbers given by their bit patterns.
pub fn f32_bits_lt(a: u32, b: u32) -> (r: bool)
    ensures
        r == f32_lt(a, b),
{
    let a_nan = ((a >> 23u32) & 0xffu32) == 0xffu32 && (a & 0x7f_ffffu32) != 0;
    let b_nan = ((b >> 23u32) & 0xffu32) == 0xffu32 && (b & 0x7f_ffffu32) != 0;
    if a_nan || b_nan {
        return false;
    }
    let am = (a & 0x7fff_ffffu32) as i64;
    let bm = (b & 0x7fff_ffffu32) as i64;
    let ak: i64 = if a & 0x8000_0000u32 != 0 { -am } else { am };
    let bk: i64 = if b & 0x8000_0000u32 != 0 { -bm } else { bm };
    ak < bk
}

/// The entity a command targets, with how sure the caller is of that target.
/// `confidence` is a single-precision number in `[0, 1]`, held as its IEEE-754 bit pattern.
#[derive(Debug, PartialEq)]
pub struct TargetSelector {
    pub entity_id: EntityId,
    pub confidence: u32,
}

impl Clone for TargetSelector {
    fn clone(&self) -> (r: Self)
        ensures
            r == *self,
    {
        TargetSelector { entity_id: self.entity_id.clone(), confidence: self.confidence }
    }
}

impl TargetSelector {
    /// A selector with full confidence.
    pub fn exact(entity_id: EntityId) -> (r: TargetSelector)
        ensures
            r.entity_id == entity_id,
            r.confidence == CONFIDENCE_ONE,
    {
        TargetSelector { entity_id, confidence: CONFIDENCE_ONE }
    }
}

/// One action on one target, with an optional value.
#[derive(Debug, Clone)]
pub struct HomeAction {
    pub target: TargetSelector,
    pub kind: HomeActionKind,
    pub value: Option<JsonValue>,
}

pub struct ActionView {
    pub entity: Seq<char>,
    pub confidence: u32,
    pub kind: HomeActionKind,
    pub value: Option<JsonView>,
}

pub open spec fn opt_json_view(v: Option<JsonValue>) -> Option<JsonView> {
    match v {
        Some(j) => Some(j@),
        None => None,
    }
}

impl View for HomeAction {
    type V = ActionView;

    open spec fn view(&self) -> ActionView {
        ActionView {
            entity: self.target.entity_id@,
            confidence: self.target.confidence,
            kind: self.kind,
            value: opt_json_view(self.value),
        }
    }
}

impl HomeAction {
    pub fn duplicate(&self) -> (r: HomeAction)
        ensures
            r@ == self@,
            r.target == self.target,
            r.kind == self.kind,
    {
        let value = match &self.value {
            Some(v) => Some(v.duplicate()),
            None => None,
        };
        HomeAction { target: self.target.clone(), kind: self.kind, value }
    }
}

/// A scoped approval: a token, who approved, and the one entity and action it covers.
#[derive(Debug, Clone)]
pub struct ActionApproval {
    pub token_id: String,
    pub approved_by: String,
    pub entity_id: EntityId,
    pub action_kind: HomeActionKind,
}

pub struct ApprovalView {
    pub token_id: Seq<char>,
    pub approved_by: Seq<char>,
    pub entity: Seq<char>,
    pub kind: HomeActionKind,
}

impl View for ActionApproval {
    type V = ApprovalView;

    open spec fn view(&self) -> ApprovalView {
        ApprovalView {
            token_id: self.token_id@,
            approved_by: self.approved_by@,
            entity: self.entity_id@,
            kind: self.action_kind,
        }
    }
}

/// An approval covers an action when its token and approver are not blank and
/// it names the action's entity and kind.
pub open spec fn approval_valid_for(a: ApprovalView, action: ActionView) -> bool {
    trimmed(a.token_id).len() > 0 && trimmed(a.approved_by).len() > 0 && a.entity == action.entity
        && a.kind == action.kind
}

impl ActionApproval {
    pub fn for_action(token_id: &str, approved_by: &str, action: &HomeAction) -> (r: ActionApproval)
        ensures
            r.token_id@ == token_id@,
            r.approved_by@ == approved_by@,
            r.entity_id == action.target.entity_id,
            r.action_kind == action.kind,
    {
        ActionApproval {
            token_id: String::from_str(token_id),
            approved_by: String::from_str(approved_by),
            entity_id: action.target.entity_id.clone(),
            action_kind: action.kind,
        }
    }

    pub fn is_valid_for(&self, action: &HomeAction) -> (r: bool)
        ensures
            r == approval_valid_for(self@, action@),
    {
        let t = trim_to_string(self.token_id.as_str());
        let b = trim_to_string(self.approved_by.as_str());
        t.unicode_len() > 0 && b.unicode_len() > 0 && crate::text::str_eq(
            self.entity_id.as_str(),
            action.target.entity_id.as_str(),
        ) && self.action_kind == action.kind
    }

    pub fn duplicate(&self) -> (r: ActionApproval)
        ensures
            r@ == self@,
    {
        ActionApproval {
            token_id: self.token_id.clone(),
            approved_by: self.approved_by.clone(),
            entity_id: self.entity_id.clone(),
            action_kind: self.action_kind,
        }
    }
}

/// A request to perform one action.
#[derive(Debug, Clone)]
pub struct HomeCommand {
    pub origin: CommandOrigin,
    pub action: HomeAction,
    pub confirmed: bool,
    pub approval: Option<ActionApproval>,
    pub reason: Option<String>,
}

pub struct CommandView {
    pub origin: CommandOrigin,
    pub action: ActionView,
    pub confirmed: bool,
    pub approval: Option<ApprovalView>,
    pub reason: Option<Seq<char>>,
}

pub open spec fn opt_approval_view(a: Option<ActionApproval>) -> Option<ApprovalView> {
    match a {
        Some(x) => Some(x@),
        None => None,
    }
}

pub open spec fn opt_string_view(s: Option<String>) -> Option<Seq<char>> {
    match s {
        Some(x) => Some(x@),
        None => None,
    }
}

impl View for HomeCommand {
    type V = CommandView;

    open spec fn view(&self) -> CommandView {
        CommandView {
            origin: self.origin,
            action: self.action@,
            confirmed: self.confirmed,
            approval: opt_approval_view(self.approval),
            reason: opt_string_view(self.reason),
        }
    }
}

impl HomeCommand {
    /// An unconfirmed command without approval or reason.
    pub fn new(origin: CommandOrigin, action: HomeAction) -> (r: HomeCommand)
        ensures
            r.origin == origin,
            r.action == action,
            !r.confirmed,
            r.approval is None,
            r.reason is None,
    {
        HomeCommand { origin, action, confirmed: false, approval: None, reason: None }
    }

    pub fn confirmed(self) -> (r: HomeCommand)
        ensures
            r == (HomeCommand { confirmed: true, ..self }),
    {
        HomeCommand { confirmed: true, ..self }
    }

    /// Confirms the command and attaches an approval scoped to its own action.
    pub fn approved(self, token_id: &str, approved_by: &str) -> (r: HomeCommand)
        ensures
            r.confirmed,
            r.origin == self.origin,
            r.action == self.action,
            r.reason == self.reason,
            r.approval matches Some(a) && a.token_id@ == token_id@ && a.approved_by@ == approved_by@
                && a.entity_id == self.action.target.entity_id && a.action_kind == self.action.kind,
    {
        let approval = ActionApproval::for_action(token_id, approved_by, &self.action);
        HomeCommand { confirmed: true, approval: Some(approval), ..self }
    }

    pub fn duplicate(&self) -> (r: HomeCommand)
        ensures
            r@ == self@,
            r.action.target == self.action.target,
    {
        let approval = match &self.approval {
            Some(a) => Some(a.duplicate()),
            None => None,
        };
        let reason = match &self.reason {
            Some(s) => Some(s.clone()),
            None => None,
        };
        HomeCommand {
            origin: self.origin,
            action: self.action.duplicate(),
            confirmed: self.confirmed,
            approval,
            reason,
        }
    }
}

} // verus!
