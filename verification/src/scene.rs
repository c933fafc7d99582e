//! Scenes: named groups of actions activated together.

use vstd::prelude::*;
use crate::command::{ActionView, HomeAction};
use crate::entity::EntityId;
use crate::keyed::Keyed;

verus! {

/// A registered action group, backed by a scene entity with the same id.
#[derive(Debug, Clone)]
pub struct Scene {
    pub id: EntityId,
    pub display_name: String,
    pub actions: Vec<HomeAction>,
}

/// The views of a list of actions.
pub open spec fn action_views(actions: Seq<HomeAction>) -> Seq<ActionView> {
    actions.map_values(|a: HomeAction| a@)
}

impl Keyed for Scene {
    open spec fn key(&self) -> Seq<char> {
        self.id@
    }

    fn key_str(&self) -> (r: &str) {
        self.id.as_str()
    }

    fn copy_item(&self) -> (r: Self) {
        self.duplicate()
    }
}

impl Scene {
    pub fn new(id: EntityId, display_name: &str) -> (r: Scene)
        ensures
            r.id == id,
            r.display_name@ == display_name@,
            r.actions@.len() == 0,
    {
        Scene { id, display_name: String::from_str(display_name), actions: Vec::new() }
    }

    /// Appends `action` to the scene's actions.
    pub fn with_action(self, action: HomeAction) -> (r: Scene)
        ensures
            r.id == self.id,
            r.display_name == self.display_name,
            r.actions@ == self.actions@.push(action),
    {
        let mut actions = self.actions;
        actions.push(action);
        Scene { actions, ..self }
    }
}

/// A copy of each action, in order.
pub fn duplicate_actions(actions: &Vec<HomeAction>) -> (r: Vec<HomeAction>)
    ensures
        action_views(r@) == action_views(actions@),
{
    let mut r: Vec<HomeAction> = Vec::new();
    let mut i: usize = 0;
    while i < actions.len()
        invariant
            i <= actions@.len(),
            action_views(r@) == action_views(actions@).take(i as int),
        decreases actions@.len() - i,
    {
        let a = actions[i].duplicate();
        let ghost before = r@;
        r.push(a);
        assert(action_views(r@) =~= action_views(before).push(a@));
        assert(action_views(actions@).take(i + 1) =~= action_views(actions@).take(i as int).push(actions@[i as int]@));
        assert(action_views(r@) =~= action_views(actions@).take(i + 1));
        i = i + 1;
    }
    assert(action_views(actions@).take(i as int) =~= action_views(actions@));
    r
}

/// `a` and `b` are the same scene: id, name and actions.
pub open spec fn same_scene(a: Scene, b: Scene) -> bool {
    &&& a.id == b.id
    &&& a.display_name@ == b.display_name@
    &&& action_views(a.actions@) == action_views(b.actions@)
}

impl Scene {
    /// A copy of this scene.
    pub fn duplicate(&self) -> (r: Scene)
        ensures
            same_scene(r, *self),
    {
        Scene { id: self.id.clone(), display_name: self.display_name.clone(), actions: duplicate_actions(&self.actions) }
    }
}

} // verus!
