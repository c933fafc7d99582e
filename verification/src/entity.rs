//! Entities, their states and capabilities, and the entity graph.

use vstd::prelude::*;
use crate::device::DeviceId;
use crate::command::opt_string_view;
use crate::json::{AttributeMap, JsonMember, JsonView};
use crate::keyed::{Keyed, KeyedList, keys_sorted};
use crate::text::{contains_char, find_char, index_of_char, lemma_index_of_char, trim_to_string, trimmed};

verus! {

/// A character an entity id may hold: lowercase ASCII letters, digits, `_` and `.`.
pub open spec fn is_entity_id_char(c: char) -> bool {
    ('a' <= c <= 'z') || ('0' <= c <= '9') || c == '_' || c == '.'
}

pub open spec fn all_entity_id_chars(s: Seq<char>) -> bool {
    forall|i: int| 0 <= i < s.len() ==> is_entity_id_char(#[trigger] s[i])
}

/// Whether `s` is a valid entity id: non-empty, entity-id characters only, with a domain dot.
pub open spec fn valid_entity_id(s: Seq<char>) -> bool {
    s.len() > 0 && all_entity_id_chars(s) && s.contains('.')
}

/// The domain of an entity id: the text before its first `.`, or empty when it has none.
pub open spec fn domain_of(s: Seq<char>) -> Seq<char> {
    if s.contains('.') {
        s.subrange(0, index_of_char(s, '.'))
    } else {
        Seq::empty()
    }
}

fn entity_id_chars_ok(s: &str) -> (r: bool)
    ensures
        r == all_entity_id_chars(s@),
{
    let n = s.unicode_len();
    let mut i: usize = 0;
    while i < n
        invariant
            n == s@.len(),
            i <= n,
            forall|j: int| 0 <= j < i ==> is_entity_id_char(#[trigger] s@[j]),
        decreases n - i,
    {
        let c = s.get_char(i);
        if !(('a' <= c && c <= 'z') || ('0' <= c && c <= '9') || c == '_' || c == '.') {
            return false;
        }
        i = i + 1;
    }
    true
}

/// The id of an entity, such as `light.kitchen`: a domain, a dot, an object name.
#[derive(Debug, PartialEq, Eq, PartialOrd, Ord, Hash)]
pub struct EntityId(String);

impl View for EntityId {
    type V = Seq<char>;

    closed spec fn view(&self) -> Seq<char> {
        self.0@
    }
}

impl Clone for EntityId {
    fn clone(&self) -> (r: Self)
        ensures
            r == *self,
    {
        EntityId(self.0.clone())
    }
}

/// Why an entity id was refused.
#[derive(Debug, Clone, PartialEq, Eq)]
pub enum EntityIdError {
    Empty,
    MissingDomain(String),
    Invalid(String),
}

impl EntityId {
    /// Trims `value`; accepts it when it is non-empty, holds only entity-id
    /// characters, and has a `.` between domain and name.
    pub fn new(value: &str) -> (r: Result<EntityId, EntityIdError>)
        ensures
            match r {
                Ok(id) => id@ == trimmed(value@) && valid_entity_id(trimmed(value@)),
                Err(EntityIdError::Empty) => trimmed(value@).len() == 0,
                Err(EntityIdError::Invalid(s)) => s@ == trimmed(value@) && trimmed(value@).len()
                    > 0 && !all_entity_id_chars(trimmed(value@)),
                Err(EntityIdError::MissingDomain(s)) => s@ == trimmed(value@) && trimmed(
                    value@,
                ).len() > 0 && all_entity_id_chars(trimmed(value@)) && !trimmed(value@).contains(
                    '.',
                ),
            },
    {
        let t = trim_to_string(value);
        if t.unicode_len() == 0 {
            return Err(EntityIdError::Empty);
        }
        if !entity_id_chars_ok(t.as_str()) {
            return Err(EntityIdError::Invalid(t));
        }
        if !contains_char(t.as_str(), '.') {
            return Err(EntityIdError::MissingDomain(t));
        }
        Ok(EntityId(t))
    }

    pub fn as_str(&self) -> (r: &str)
        ensures
            r@ == self@,
    {
        self.0.as_str()
    }

    /// The id spelled by `s`, which is already a valid entity id.
    pub(crate) fn from_valid(s: &str) -> (r: EntityId)
        requires
            valid_entity_id(s@),
        ensures
            r@ == s@,
    {
        proof {
            crate::text::lemma_trim_plain(s@);
        }
        match EntityId::new(s) {
            Ok(id) => id,
            Err(_) => {
                proof {
                    assert(false);
                }
                EntityId(String::new())
            },
        }
    }

    /// The text before the first `.`, or the empty string when there is none.
    pub fn domain(&self) -> (r: &str)
        ensures
            r@ == domain_of(self@),
    {
        proof {
            lemma_index_of_char(self@, '.');
        }
        let s = self.0.as_str();
        let i = find_char(s, '.');
        if i < s.unicode_len() {
            s.substring_char(0, i)
        } else {
            s.substring_char(0, 0)
        }
    }
}

/// What an entity can do.
#[derive(Debug, Clone, Copy, PartialEq, Eq, Structural, PartialOrd, Ord, Hash)]
pub enum Capability {
    Power,
    Brightness,
    Color,
    Temperature,
    Lock,
    OpenClose,
    SceneActivation,
    SensorRead,
    MediaPlayback,
    VacuumControl,
    AlarmControl,
}

/// The place of a capability in the listing order (the order the variants are declared in).
pub open spec fn capability_rank(c: Capability) -> int {
    match c {
        Capability::Power => 0,
        Capability::Brightness => 1,
        Capability::Color => 2,
        Capability::Temperature => 3,
        Capability::Lock => 4,
        Capability::OpenClose => 5,
        Capability::SceneActivation => 6,
        Capability::SensorRead => 7,
        Capability::MediaPlayback => 8,
        Capability::VacuumControl => 9,
        Capability::AlarmControl => 10,
    }
}

/// The capabilities strictly increase in listing order, so none is there twice.
pub open spec fn capabilities_sorted(s: Seq<Capability>) -> bool {
    forall|i: int, j: int| 0 <= i < j < s.len() ==> capability_rank(#[trigger] s[i]) < capability_rank(#[trigger] s[j])
}

fn rank_of(c: Capability) -> (r: u8)
    ensures
        r == capability_rank(c),
{
    match c {
        Capability::Power => 0,
        Capability::Brightness => 1,
        Capability::Color => 2,
        Capability::Temperature => 3,
        Capability::Lock => 4,
        Capability::OpenClose => 5,
        Capability::SceneActivation => 6,
        Capability::SensorRead => 7,
        Capability::MediaPlayback => 8,
        Capability::VacuumControl => 9,
        Capability::AlarmControl => 10,
    }
}

/// A set of capabilities, listed in capability order; no capability is held twice.
#[derive(Debug)]
pub struct CapabilitySet {
    items: Vec<Capability>,
}

impl View for CapabilitySet {
    type V = Set<Capability>;

    closed spec fn view(&self) -> Set<Capability> {
        self.items@.to_set()
    }
}

impl CapabilitySet {
    #[verifier::type_invariant]
    spec fn listed_in_order(self) -> bool {
        capabilities_sorted(self.items@)
    }

    /// The capabilities in listing order.
    pub closed spec fn listed(&self) -> Seq<Capability> {
        self.items@
    }

    pub fn new() -> (r: CapabilitySet)
        ensures
            r@ == Set::<Capability>::empty(),
            r.listed() == Seq::<Capability>::empty(),
    {
        let r = CapabilitySet { items: Vec::new() };
        assert(r@ =~= Set::<Capability>::empty());
        r
    }

    pub fn contains(&self, c: &Capability) -> (r: bool)
        ensures
            r == self@.contains(*c),
    {
        let mut i: usize = 0;
        while i < self.items.len()
            invariant
                i <= self.items@.len(),
                forall|j: int| 0 <= j < i ==> self.items@[j] != *c,
            decreases self.items@.len() - i,
        {
            if self.items[i] == *c {
                assert(self.items@.contains(*c));
                return true;
            }
            i = i + 1;
        }
        false
    }

    /// Adds `c` at its place in the listing order, unless it is there already.
    pub fn insert(&mut self, c: Capability)
        ensures
            final(self)@ == old(self)@.insert(c),
            capabilities_sorted(final(self).listed()),
            final(self).listed().len() == old(self).listed().len() + if old(self)@.contains(c) {
                0int
            } else {
                1int
            },
    {
        proof {
            use_type_invariant(&*self);
        }
        if self.contains(&c) {
            assert(self@ =~= old(self)@.insert(c));
            return;
        }
        let mut items: Vec<Capability> = Vec::new();
        std::mem::swap(&mut items, &mut self.items);
        let ghost before = items@;
        let rc = rank_of(c);
        let mut p: usize = 0;
        while p < items.len() && rank_of(items[p]) < rc
            invariant
                items@ == before,
                capabilities_sorted(before),
                p <= before.len(),
                rc == capability_rank(c),
                forall|j: int| 0 <= j < p ==> capability_rank(#[trigger] before[j]) < capability_rank(c),
            decreases before.len() - p,
        {
            p = p + 1;
        }
        items.insert(p, c);
        proof {
            let after = items@;
            assert(after == before.insert(p as int, c));
            assert(!before.contains(c));
            assert(p < before.len() ==> capability_rank(c) < capability_rank(before[p as int])) by {
                if p < before.len() {
                    assert(before[p as int] != c);
                    assert(capability_rank(before[p as int]) >= capability_rank(c));
                    if capability_rank(before[p as int]) == capability_rank(c) {
                        assert(before[p as int] == c);
                    }
                }
            }
            assert forall|i: int, j: int| 0 <= i < j < after.len() implies capability_rank(#[trigger] after[i])
                < capability_rank(#[trigger] after[j]) by {
                if j < p {
                    assert(capability_rank(before[i]) < capability_rank(before[j]));
                } else if j == p {
                } else if i < p {
                    assert(capability_rank(before[i]) < capability_rank(before[j - 1]));
                } else if i == p {
                    if j - 1 > p {
                        assert(capability_rank(before[p as int]) < capability_rank(before[j - 1]));
                    }
                } else {
                    assert(capability_rank(before[i - 1]) < capability_rank(before[j - 1]));
                }
            }
            assert forall|x: Capability| after.contains(x) <==> before.contains(x) || x == c by {
                if x == c {
                    assert(after[p as int] == c);
                }
                if before.contains(x) {
                    let k = choose|k: int| 0 <= k < before.len() && before[k] == x;
                    if k < p {
                        assert(after[k] == x);
                    } else {
                        assert(after[k + 1] == x);
                    }
                }
                if after.contains(x) && x != c {
                    let k = choose|k: int| 0 <= k < after.len() && after[k] == x;
                    if k < p {
                        assert(before[k] == x);
                    } else if k > p {
                        assert(before[k - 1] == x);
                    }
                }
            }
            assert(after.to_set() =~= before.to_set().insert(c));
        }
        self.items = items;
    }

    /// The capabilities, each once, in listing order.
    pub fn as_slice(&self) -> (r: &[Capability])
        ensures
            r@.to_set() == self@,
            r@ == self.listed(),
            capabilities_sorted(self.listed()),
    {
        proof {
            use_type_invariant(self);
        }
        self.items.as_slice()
    }

    pub fn duplicate(&self) -> (r: CapabilitySet)
        ensures
            r@ == self@,
            r.listed() == self.listed(),
    {
        proof {
            use_type_invariant(self);
        }
        let mut items: Vec<Capability> = Vec::new();
        let mut i: usize = 0;
        while i < self.items.len()
            invariant
                i <= self.items@.len(),
                items@ == self.items@.subrange(0, i as int),
            decreases self.items@.len() - i,
        {
            items.push(self.items[i]);
            i = i + 1;
            assert(items@ =~= self.items@.subrange(0, i as int));
        }
        assert(items@ =~= self.items@);
        CapabilitySet { items }
    }
}

impl Clone for CapabilitySet {
    /// A copy listing the same capabilities.
    fn clone(&self) -> (r: CapabilitySet)
        ensures
            r@ == self@,
            r.listed() == self.listed(),
    {
        self.duplicate()
    }
}

/// The state an entity reports. Numbers keep their decimal text.
#[derive(Debug, PartialEq)]
pub enum EntityState {
    Unknown,
    Unavailable,
    Off,
    On,
    Locked,
    Unlocked,
    Open,
    Closed,
    Numeric(String),
    Text(String),
}

/// The mathematical value of an entity state.
pub enum StateView {
    Unknown,
    Unavailable,
    Off,
    On,
    Locked,
    Unlocked,
    Open,
    Closed,
    Numeric(Seq<char>),
    Text(Seq<char>),
}

impl View for EntityState {
    type V = StateView;

    open spec fn view(&self) -> StateView {
        match self {
            EntityState::Unknown => StateView::Unknown,
            EntityState::Unavailable => StateView::Unavailable,
            EntityState::Off => StateView::Off,
            EntityState::On => StateView::On,
            EntityState::Locked => StateView::Locked,
            EntityState::Unlocked => StateView::Unlocked,
            EntityState::Open => StateView::Open,
            EntityState::Closed => StateView::Closed,
            EntityState::Numeric(n) => StateView::Numeric(n@),
            EntityState::Text(t) => StateView::Text(t@),
        }
    }
}

impl Clone for EntityState {
    fn clone(&self) -> (r: Self)
        ensures
            r == *self,
    {
        match self {
            EntityState::Unknown => EntityState::Unknown,
            EntityState::Unavailable => EntityState::Unavailable,
            EntityState::Off => EntityState::Off,
            EntityState::On => EntityState::On,
            EntityState::Locked => EntityState::Locked,
            EntityState::Unlocked => EntityState::Unlocked,
            EntityState::Open => EntityState::Open,
            EntityState::Closed => EntityState::Closed,
            EntityState::Numeric(n) => EntityState::Numeric(n.clone()),
            EntityState::Text(t) => EntityState::Text(t.clone()),
        }
    }
}

/// A state counts as available unless it is `Unknown` or `Unavailable`.
/// Whether two states are the same: readings by the number they stand for,
/// any other state by its value.
pub open spec fn same_state(a: StateView, b: StateView) -> bool {
    match (a, b) {
        (StateView::Numeric(x), StateView::Numeric(y)) => crate::number::same_number(x, y),
        _ => a == b,
    }
}

pub open spec fn state_available(s: StateView) -> bool {
    !(s is Unknown || s is Unavailable)
}

impl EntityState {
    pub fn is_available(&self) -> (r: bool)
        ensures
            r == state_available(self@),
    {
        match self {
            EntityState::Unknown | EntityState::Unavailable => false,
            _ => true,
        }
    }

    /// Whether two states are the same value; readings compare as numbers.
    pub fn same_as(&self, other: &EntityState) -> (r: bool)
        ensures
            r == same_state(self@, other@),
    {
        match (self, other) {
            (EntityState::Unknown, EntityState::Unknown) => true,
            (EntityState::Unavailable, EntityState::Unavailable) => true,
            (EntityState::Off, EntityState::Off) => true,
            (EntityState::On, EntityState::On) => true,
            (EntityState::Locked, EntityState::Locked) => true,
            (EntityState::Unlocked, EntityState::Unlocked) => true,
            (EntityState::Open, EntityState::Open) => true,
            (EntityState::Closed, EntityState::Closed) => true,
            (EntityState::Numeric(a), EntityState::Numeric(b)) => crate::number::same_number_text(a.as_str(), b.as_str()),
            (EntityState::Text(a), EntityState::Text(b)) => crate::text::str_eq(a.as_str(), b.as_str()),
            _ => false,
        }
    }
}

/// How much care an action on the entity calls for.
#[derive(Debug, Clone, Copy, PartialEq, Eq, Structural)]
pub enum SafetyClass {
    Normal,
    Sensitive,
    Critical,
}

/// A controllable or observable thing in the home.
#[derive(Debug, Clone)]
pub struct Entity {
    pub id: EntityId,
    pub display_name: String,
    pub area: Option<String>,
    pub device_id: Option<DeviceId>,
    pub state: EntityState,
    pub capabilities: CapabilitySet,
    pub safety_class: SafetyClass,
    pub attributes: AttributeMap,
}

/// The mathematical value of an entity.
pub struct EntityView {
    pub id: Seq<char>,
    pub display_name: Seq<char>,
    pub area: Option<Seq<char>>,
    pub device_id: Option<Seq<char>>,
    pub state: StateView,
    pub capabilities: Set<Capability>,
    pub safety_class: SafetyClass,
    pub attributes: Map<Seq<char>, JsonView>,
}

/// Attribute values by name.
pub open spec fn attribute_views(m: Map<Seq<char>, JsonMember>) -> Map<Seq<char>, JsonView> {
    m.map_values(|a: JsonMember| a.value@)
}

impl View for Entity {
    type V = EntityView;

    open spec fn view(&self) -> EntityView {
        EntityView {
            id: self.id@,
            display_name: self.display_name@,
            area: opt_string_view(self.area),
            device_id: match self.device_id {
                Some(d) => Some(d@),
                None => None,
            },
            state: self.state@,
            capabilities: self.capabilities@,
            safety_class: self.safety_class,
            attributes: attribute_views(self.attributes@),
        }
    }
}

/// The entities of a map, each by its value.
pub open spec fn entity_views(m: Map<Seq<char>, Entity>) -> Map<Seq<char>, EntityView> {
    m.map_values(|e: Entity| e@)
}

impl Keyed for Entity {
    open spec fn key(&self) -> Seq<char> {
        self.id@
    }

    fn key_str(&self) -> (r: &str) {
        self.id.as_str()
    }

    fn copy_item(&self) -> (r: Self) {
        self.duplicate()
    }
}

impl Entity {
    /// A normal entity in the `Unknown` state, with no area, device, capability or attribute.
    pub fn new(id: EntityId, display_name: &str) -> (r: Entity)
        ensures
            r.id == id,
            r.display_name@ == display_name@,
            r.area is None,
            r.device_id is None,
            r.state == EntityState::Unknown,
            r.capabilities@ == Set::<Capability>::empty(),
            r.safety_class == SafetyClass::Normal,
            r.attributes@ == Map::<Seq<char>, crate::json::JsonMember>::empty(),
    {
        Entity {
            id,
            display_name: String::from_str(display_name),
            area: None,
            device_id: None,
            state: EntityState::Unknown,
            capabilities: CapabilitySet::new(),
            safety_class: SafetyClass::Normal,
            attributes: KeyedList::new(),
        }
    }

    pub fn with_area(self, area: &str) -> (r: Entity)
        ensures
            r.area matches Some(a) && a@ == area@,
            r == (Entity { area: r.area, ..self }),
    {
        Entity { area: Some(String::from_str(area)), ..self }
    }

    pub fn with_device_id(self, device_id: DeviceId) -> (r: Entity)
        ensures
            r == (Entity { device_id: Some(device_id), ..self }),
    {
        Entity { device_id: Some(device_id), ..self }
    }

    pub fn with_state(self, state: EntityState) -> (r: Entity)
        ensures
            r == (Entity { state: state, ..self }),
    {
        Entity { state, ..self }
    }

    pub fn with_capability(self, capability: Capability) -> (r: Entity)
        ensures
            r.capabilities@ == self.capabilities@.insert(capability),
            r == (Entity { capabilities: r.capabilities, ..self }),
    {
        let mut e = self;
        e.capabilities.insert(capability);
        e
    }

    pub fn with_safety_class(self, safety_class: SafetyClass) -> (r: Entity)
        ensures
            r == (Entity { safety_class: safety_class, ..self }),
    {
        Entity { safety_class, ..self }
    }
}

/// The entities known to the runtime, filed by id.
#[derive(Debug, Clone)]
pub struct EntityGraph {
    entities: KeyedList<Entity>,
}

impl View for EntityGraph {
    type V = Map<Seq<char>, Entity>;

    closed spec fn view(&self) -> Map<Seq<char>, Entity> {
        self.entities@
    }
}

impl Default for EntityGraph {
    /// An empty registry.
    fn default() -> (r: EntityGraph)
        ensures
            r@ == Map::<Seq<char>, Entity>::empty(),
            r.seq().len() == 0,
    {
        EntityGraph::new()
    }
}

impl EntityGraph {
    /// The entities in id order.
    pub closed spec fn seq(&self) -> Seq<Entity> {
        self.entities.seq()
    }

    /// The entities in id order make up the map: each id once, in increasing order.
    pub closed spec fn seq_map_agree(&self) -> bool {
        &&& self@ == crate::keyed::seq_to_map(self.seq())
        &&& keys_sorted(self.seq())
    }

    /// Two graphs with the same entities list them in the same order.
    pub proof fn lemma_same_entities_same_order(a: &EntityGraph, b: &EntityGraph)
        requires
            a.seq_map_agree(),
            b.seq_map_agree(),
            a@ == b@,
        ensures
            a.seq() == b.seq(),
    {
        crate::keyed::lemma_same_map_same_seq(a.seq(), b.seq());
    }

    pub fn new() -> (r: EntityGraph)
        ensures
            r@ == Map::<Seq<char>, Entity>::empty(),
            r.seq().len() == 0,
    {
        EntityGraph { entities: KeyedList::new() }
    }

    /// Files `entity` under its id, replacing any entity with that id.
    pub fn upsert(&mut self, entity: Entity)
        ensures
            final(self)@ == old(self)@.insert(entity.id@, entity),
            final(self).seq().len() == old(self).seq().len() + if old(self)@.contains_key(entity.id@) {
                0int
            } else {
                1int
            },
            old(self).seq_map_agree(),
            final(self).seq_map_agree(),
    {
        self.entities.upsert(entity);
    }

    pub fn get(&self, id: &EntityId) -> (r: Option<&Entity>)
        ensures
            self@.contains_key(id@) ==> r == Some(&self@[id@]),
            !self@.contains_key(id@) ==> r is None,
            r matches Some(e) ==> e.id@ == id@,
    {
        self.entities.get(id.as_str())
    }

    pub fn contains(&self, id: &EntityId) -> (r: bool)
        ensures
            r == self@.contains_key(id@),
    {
        self.entities.contains(id.as_str())
    }

    /// Removes and returns the entity with this id.
    pub fn take(&mut self, id: &EntityId) -> (r: Option<Entity>)
        ensures
            old(self)@.contains_key(id@) ==> r == Some(old(self)@[id@]),
            !old(self)@.contains_key(id@) ==> r is None,
            r matches Some(e) ==> e.id@ == id@,
            final(self)@ == old(self)@.remove(id@),
            old(self).seq_map_agree(),
            final(self).seq_map_agree(),
    {
        self.entities.take(id.as_str())
    }

    pub fn len(&self) -> (r: usize)
        ensures
            r == self.seq().len(),
    {
        self.entities.len()
    }

    pub fn is_empty(&self) -> (r: bool)
        ensures
            r == (self.seq().len() == 0),
    {
        self.entities.len() == 0
    }

    /// The entities in id order.
    pub fn entities(&self) -> (r: &[Entity])
        ensures
            r@ == self.seq(),
            keys_sorted(self.seq()),
            self@ == crate::keyed::seq_to_map(self.seq()),
    {
        self.entities.as_slice()
    }
}

/// A copy of an attribute map: the same names with the same values.
pub fn duplicate_attributes(a: &AttributeMap) -> (r: AttributeMap)
    ensures
        attribute_views(r@) == attribute_views(a@),
{
    let items = a.as_slice();
    let ghost s = items@;
    let mut r: AttributeMap = KeyedList::new();
    let mut i: usize = 0;
    proof {
        assert(attribute_views(r@) =~= attribute_views(crate::keyed::seq_to_map(s.take(0))));
    }
    while i < items.len()
        invariant
            i <= s.len(),
            s == items@,
            keys_sorted(s),
            a@ == crate::keyed::seq_to_map(s),
            attribute_views(r@) == attribute_views(crate::keyed::seq_to_map(s.take(i as int))),
        decreases s.len() - i,
    {
        let m = items[i].duplicate();
        let ghost r0 = r@;
        r.upsert(m);
        proof {
            crate::keyed::lemma_take_insert(s, i as int);
            let k = s[i as int].key@;
            let before = crate::keyed::seq_to_map(s.take(i as int));
            assert(r@ == r0.insert(k, m));
            assert(attribute_views(r@) =~= attribute_views(r0).insert(k, m.value@));
            assert(attribute_views(before.insert(k, s[i as int])) =~= attribute_views(before).insert(
                k,
                s[i as int].value@,
            ));
            assert(attribute_views(r@) =~= attribute_views(crate::keyed::seq_to_map(s.take(i + 1))));
        }
        i = i + 1;
    }
    proof {
        assert(s.take(i as int) =~= s);
    }
    r
}

impl Entity {
    /// A copy of this entity.
    pub fn duplicate(&self) -> (r: Entity)
        ensures
            r@ == self@,
            r.id == self.id,
            r.state == self.state,
            r.device_id == self.device_id,
            r.safety_class == self.safety_class,
    {
        Entity {
            id: self.id.clone(),
            display_name: self.display_name.clone(),
            area: crate::text::copy_opt_string(&self.area),
            device_id: match &self.device_id {
                Some(d) => Some(d.clone()),
                None => None,
            },
            state: self.state.clone(),
            capabilities: self.capabilities.duplicate(),
            safety_class: self.safety_class,
            attributes: duplicate_attributes(&self.attributes),
        }
    }
}

} // verus!
