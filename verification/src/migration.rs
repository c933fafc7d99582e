//! Planning a move from Home Assistant: classifying its entities and turning
//! the mappable ones into a connectivity report.

use vstd::prelude::*;
use crate::command::opt_string_view;
use crate::connectivity::{
    ConnectivityDevice, ConnectivityEntity, ConnectivityProtocol, ConnectivityReport, ReportedDeviceView,
    ReportedEntityView,
};
use crate::entity::{
    Capability, CapabilitySet, EntityId, EntityState, SafetyClass, StateView, attribute_views, domain_of,
    valid_entity_id,
};
use crate::json::{AttributeMap, JsonValue, JsonView};
use crate::scheduler::{all_digits, is_digit};
use crate::text::{chars_of, index_of_char, lemma_index_of_char, str_eq, string_from_chars};

verus! {

// ---------------------------------------------------------------------------
// Reading numbers the way a floating-point parse does.
// ---------------------------------------------------------------------------

pub open spec fn ascii_lower(c: char) -> char {
    if 'A' <= c && c <= 'Z' {
        ((c as u32) + 32) as char
    } else {
        c
    }
}

/// `s` with ASCII capitals made small.
pub open spec fn lower_text(s: Seq<char>) -> Seq<char> {
    s.map_values(|c: char| ascii_lower(c))
}

/// `s` without one leading sign.
pub open spec fn without_sign(s: Seq<char>) -> Seq<char> {
    if s.len() > 0 && (s[0] == '+' || s[0] == '-') {
        s.drop_first()
    } else {
        s
    }
}

/// Digits with at most one `.` among them, and at least one digit.
pub open spec fn mantissa_ok(m: Seq<char>) -> bool {
    &&& m.len() > 0
    &&& forall|i: int| 0 <= i < m.len() && i != index_of_char(m, '.') ==> is_digit(#[trigger] m[i])
    &&& exists|i: int| 0 <= i < m.len() && is_digit(#[trigger] m[i])
}

/// One or more digits, after an optional sign.
pub open spec fn exponent_ok(e: Seq<char>) -> bool {
    without_sign(e).len() > 0 && all_digits(without_sign(e))
}

/// A mantissa, then optionally `e` and an exponent (`l` is already in small letters).
pub open spec fn decimal_float(l: Seq<char>) -> bool {
    let p = index_of_char(l, 'e');
    mantissa_ok(l.subrange(0, p)) && (p == l.len() || exponent_ok(l.subrange(p + 1, l.len() as int)))
}

/// Whether a floating-point parse accepts `s`: an optional sign, then `inf`,
/// `infinity`, `nan` or a decimal number with an optional exponent, letters
/// in either case.
pub open spec fn is_float_text(s: Seq<char>) -> bool {
    let l = lower_text(without_sign(s));
    l == "inf"@ || l == "infinity"@ || l == "nan"@ || decimal_float(l)
}

fn lower_char(c: char) -> (r: char)
    ensures
        r == ascii_lower(c),
{
    if 'A' <= c && c <= 'Z' {
        let code: u8 = (c as u8) + 32;
        code as char
    } else {
        c
    }
}

/// Position of the first `c` in `cs[from..to]`, counted from `from`; `to` when there is none.
pub(crate) fn first_in(cs: &Vec<char>, from: usize, to: usize, c: char) -> (r: usize)
    requires
        from <= to <= cs@.len(),
    ensures
        r == from + index_of_char(cs@.subrange(from as int, to as int), c),
{
    let ghost s = cs@.subrange(from as int, to as int);
    proof {
        lemma_index_of_char(s, c);
    }
    let mut i: usize = from;
    while i < to
        invariant
            from <= i <= to <= cs@.len(),
            s == cs@.subrange(from as int, to as int),
            forall|j: int| from <= j < i ==> cs@[j] != c,
            0 <= index_of_char(s, c) <= s.len(),
            index_of_char(s, c) < s.len() ==> s[index_of_char(s, c)] == c,
            forall|j: int| 0 <= j < index_of_char(s, c) ==> s[j] != c,
        decreases to - i,
    {
        if cs[i] == c {
            proof {
                assert(s[i - from] == c);
                if index_of_char(s, c) < i - from {
                    assert(cs@[from + index_of_char(s, c)] == c);
                }
            }
            return i;
        }
        i = i + 1;
    }
    proof {
        if index_of_char(s, c) < s.len() {
            assert(cs@[from + index_of_char(s, c)] == c);
        }
    }
    to
}

fn digits_except(cs: &Vec<char>, from: usize, to: usize, skip: usize) -> (r: bool)
    requires
        from <= to <= cs@.len(),
    ensures
        r == forall|i: int| from <= i < to && i != skip ==> is_digit(#[trigger] cs@[i]),
{
    let mut i: usize = from;
    while i < to
        invariant
            from <= i <= to <= cs@.len(),
            forall|j: int| from <= j < i && j != skip ==> is_digit(#[trigger] cs@[j]),
        decreases to - i,
    {
        if i != skip && !('0' <= cs[i] && cs[i] <= '9') {
            return false;
        }
        i = i + 1;
    }
    true
}

fn any_digit(cs: &Vec<char>, from: usize, to: usize) -> (r: bool)
    requires
        from <= to <= cs@.len(),
    ensures
        r == exists|i: int| from <= i < to && is_digit(#[trigger] cs@[i]),
{
    let mut i: usize = from;
    while i < to
        invariant
            from <= i <= to <= cs@.len(),
            forall|j: int| from <= j < i ==> !is_digit(#[trigger] cs@[j]),
        decreases to - i,
    {
        if '0' <= cs[i] && cs[i] <= '9' {
            return true;
        }
        i = i + 1;
    }
    false
}

pub(crate) fn mantissa_check(l: &Vec<char>, p: usize) -> (r: bool)
    requires
        p <= l@.len(),
    ensures
        r == mantissa_ok(l@.subrange(0, p as int)),
{
    let ghost m = l@.subrange(0, p as int);
    if p == 0 {
        return false;
    }
    let q = first_in(l, 0, p, '.');
    let digits = digits_except(l, 0, p, q);
    let some = any_digit(l, 0, p);
    proof {
        assert(q == index_of_char(m, '.'));
        if digits {
            assert forall|i: int| 0 <= i < m.len() && i != index_of_char(m, '.') implies is_digit(
                #[trigger] m[i],
            ) by {
                assert(m[i] == l@[i]);
            }
        } else {
            let i = choose|i: int| 0 <= i < p && i != q && !is_digit(#[trigger] l@[i]);
            assert(m[i] == l@[i]);
        }
        if some {
            let i = choose|i: int| 0 <= i < p && is_digit(#[trigger] l@[i]);
            assert(m[i] == l@[i]);
        } else {
            assert forall|i: int| 0 <= i < m.len() implies !is_digit(#[trigger] m[i]) by {
                assert(m[i] == l@[i]);
            }
        }
    }
    digits && some
}

fn exponent_check(l: &Vec<char>, from: usize) -> (r: bool)
    requires
        from <= l@.len(),
    ensures
        r == exponent_ok(l@.subrange(from as int, l@.len() as int)),
{
    let ghost e = l@.subrange(from as int, l@.len() as int);
    let mut start = from;
    if from < l.len() && (l[from] == '+' || l[from] == '-') {
        start = from + 1;
    }
    proof {
        if e.len() > 0 && (e[0] == '+' || e[0] == '-') {
            assert(without_sign(e) =~= l@.subrange(start as int, l@.len() as int));
        } else {
            assert(without_sign(e) =~= l@.subrange(start as int, l@.len() as int));
        }
    }
    if start == l.len() {
        return false;
    }
    let ok = digits_except(l, start, l.len(), l.len());
    proof {
        let d = without_sign(e);
        if ok {
            assert forall|i: int| 0 <= i < d.len() implies is_digit(#[trigger] d[i]) by {
                assert(d[i] == l@[start + i]);
            }
        } else {
            let i = choose|i: int| start <= i < l@.len() && i != l@.len() && !is_digit(#[trigger] l@[i]);
            assert(d[i - start] == l@[i]);
        }
    }
    ok
}

/// Whether a floating-point parse accepts `s`.
fn float_text(s: &str) -> (r: bool)
    ensures
        r == is_float_text(s@),
{
    let cs = chars_of(s);
    let mut start: usize = 0;
    if cs.len() > 0 && (cs[0] == '+' || cs[0] == '-') {
        start = 1;
    }
    let ghost b = without_sign(s@);
    proof {
        assert(b =~= cs@.subrange(start as int, cs@.len() as int));
    }
    let mut l: Vec<char> = Vec::new();
    let mut i: usize = start;
    while i < cs.len()
        invariant
            start <= i <= cs@.len(),
            b == cs@.subrange(start as int, cs@.len() as int),
            l@ == lower_text(b).take(i - start),
        decreases cs@.len() - i,
    {
        let c = lower_char(cs[i]);
        l.push(c);
        i = i + 1;
        proof {
            assert(l@ =~= lower_text(b).take(i - start));
        }
    }
    proof {
        assert(l@ =~= lower_text(b));
    }
    let text = string_from_chars(&l);
    if str_eq(text.as_str(), "inf") || str_eq(text.as_str(), "infinity") || str_eq(text.as_str(), "nan") {
        return true;
    }
    let p = first_in(&l, 0, l.len(), 'e');
    proof {
        assert(l@.subrange(0, l@.len() as int) =~= l@);
        lemma_index_of_char(l@, 'e');
    }
    if !mantissa_check(&l, p) {
        return false;
    }
    if p == l.len() {
        return true;
    }
    exponent_check(&l, p + 1)
}

/// The state a Home Assistant state text stands for: the named states, any
/// number as a reading, and any other text as it is.
pub open spec fn state_from_text(t: Seq<char>) -> StateView {
    if t == "on"@ {
        StateView::On
    } else if t == "off"@ {
        StateView::Off
    } else if t == "locked"@ {
        StateView::Locked
    } else if t == "unlocked"@ {
        StateView::Unlocked
    } else if t == "open"@ || t == "opening"@ {
        StateView::Open
    } else if t == "closed"@ || t == "closing"@ {
        StateView::Closed
    } else if t == "unavailable"@ {
        StateView::Unavailable
    } else if t == "unknown"@ || t == ""@ {
        StateView::Unknown
    } else if is_float_text(t) {
        StateView::Numeric(t)
    } else {
        StateView::Text(t)
    }
}

/// The state text of a record, empty when it has none.
pub open spec fn state_text(state: Option<String>) -> Seq<char> {
    match state {
        Some(s) => s@,
        None => ""@,
    }
}

fn map_state(state: &Option<String>) -> (r: EntityState)
    ensures
        r@ == state_from_text(state_text(*state)),
{
    let t: &str = match state {
        Some(s) => s.as_str(),
        None => "",
    };
    if str_eq(t, "on") {
        EntityState::On
    } else if str_eq(t, "off") {
        EntityState::Off
    } else if str_eq(t, "locked") {
        EntityState::Locked
    } else if str_eq(t, "unlocked") {
        EntityState::Unlocked
    } else if str_eq(t, "open") || str_eq(t, "opening") {
        EntityState::Open
    } else if str_eq(t, "closed") || str_eq(t, "closing") {
        EntityState::Closed
    } else if str_eq(t, "unavailable") {
        EntityState::Unavailable
    } else if str_eq(t, "unknown") || str_eq(t, "") {
        EntityState::Unknown
    } else if float_text(t) {
        EntityState::Numeric(String::from_str(t))
    } else {
        EntityState::Text(String::from_str(t))
    }
}

// ---------------------------------------------------------------------------
// Records and candidates.
// ---------------------------------------------------------------------------

/// One entity as Home Assistant lists it.
#[derive(Debug, Clone)]
pub struct HomeAssistantEntityRecord {
    pub entity_id: String,
    pub state: Option<String>,
    pub name: Option<String>,
    pub attributes: AttributeMap,
}

/// The mathematical value of a Home Assistant record.
pub struct RecordView {
    pub entity_id: Seq<char>,
    pub state: Option<Seq<char>>,
    pub name: Option<Seq<char>>,
    pub attributes: Map<Seq<char>, JsonView>,
}

impl View for HomeAssistantEntityRecord {
    type V = RecordView;

    open spec fn view(&self) -> RecordView {
        RecordView {
            entity_id: self.entity_id@,
            state: opt_string_view(self.state),
            name: opt_string_view(self.name),
            attributes: attribute_views(self.attributes@),
        }
    }
}

impl HomeAssistantEntityRecord {
    /// A copy of this record.
    pub fn duplicate(&self) -> (r: HomeAssistantEntityRecord)
        ensures
            r@ == self@,
    {
        HomeAssistantEntityRecord {
            entity_id: self.entity_id.clone(),
            state: crate::text::copy_opt_string(&self.state),
            name: crate::text::copy_opt_string(&self.name),
            attributes: crate::entity::duplicate_attributes(&self.attributes),
        }
    }
}

/// Records with the same value become the same candidate and the same plan entry.
pub proof fn lemma_record_view_determines(a: HomeAssistantEntityRecord, b: HomeAssistantEntityRecord)
    requires
        a@ == b@,
    ensures
        candidate_view(a) == candidate_view(b),
        planned_device(a, candidate_view(a)) == planned_device(b, candidate_view(b)),
{
    assert(state_text(a.state) == state_text(b.state));
    assert(a.name is Some <==> b.name is Some);
}

/// How an entity carries over.
#[derive(Debug, Clone, Copy, PartialEq, Eq, Structural)]
pub enum MigrationCompatibility {
    Mappable,
    ManualReview,
    Unsupported,
}

/// What an entity would become, and how well it carries over.
#[derive(Debug, Clone)]
pub struct MigrationCandidate {
    pub entity_id: String,
    pub domain: String,
    pub display_name: String,
    pub compatibility: MigrationCompatibility,
    pub capabilities: CapabilitySet,
    pub safety_class: SafetyClass,
    pub initial_state: EntityState,
    pub notes: Vec<String>,
}

pub struct CandidateView {
    pub entity_id: Seq<char>,
    pub domain: Seq<char>,
    pub display_name: Seq<char>,
    pub compatibility: MigrationCompatibility,
    pub capabilities: Set<Capability>,
    pub safety_class: SafetyClass,
    pub initial_state: StateView,
    pub notes: Seq<Seq<char>>,
}

impl View for MigrationCandidate {
    type V = CandidateView;

    open spec fn view(&self) -> CandidateView {
        CandidateView {
            entity_id: self.entity_id@,
            domain: self.domain@,
            display_name: self.display_name@,
            compatibility: self.compatibility,
            capabilities: self.capabilities@,
            safety_class: self.safety_class,
            initial_state: self.initial_state@,
            notes: crate::text::string_views(self.notes@),
        }
    }
}

/// How many candidates carry over in each way.
#[derive(Debug, Clone, PartialEq, Eq, Structural)]
pub struct MigrationCounts {
    pub total: usize,
    pub mappable: usize,
    pub manual_review: usize,
    pub unsupported: usize,
}

/// A candidate for every record, with the counts.
#[derive(Debug, Clone)]
pub struct MigrationReport {
    pub source: String,
    pub counts: MigrationCounts,
    pub candidates: Vec<MigrationCandidate>,
}

/// The connectivity report that imports the mappable entities, and the candidates left out.
#[derive(Debug, Clone)]
pub struct MigrationImportPlan {
    pub source: String,
    pub report: ConnectivityReport,
    pub skipped: Vec<MigrationCandidate>,
}

/// The text attribute `key`, if there is one and it is text.
pub open spec fn attr_text(attrs: Map<Seq<char>, JsonView>, key: Seq<char>) -> Option<Seq<char>> {
    if attrs.contains_key(key) {
        match attrs[key] {
            JsonView::Text(t) => Some(t),
            _ => None,
        }
    } else {
        None
    }
}

pub open spec fn record_attr(r: HomeAssistantEntityRecord, key: Seq<char>) -> Option<Seq<char>> {
    attr_text(attribute_views(r.attributes@), key)
}

fn attribute_text(attrs: &AttributeMap, key: &str) -> (r: Option<String>)
    ensures
        opt_string_view(r) == attr_text(attribute_views(attrs@), key@),
{
    match attrs.get(key) {
        Some(m) => match &m.value {
            JsonValue::Text(t) => Some(t.clone()),
            _ => None,
        },
        None => None,
    }
}

/// Media players, vacuums and alarm panels: carried over only when a Genie
/// adapter reported them.
pub open spec fn planned_domain(d: Seq<char>) -> bool {
    d == "media_player"@ || d == "vacuum"@ || d == "alarm_control_panel"@
}

/// How an entity of domain `d` carries over; `native` says whether a Genie
/// adapter reported it (it names a `genie_protocol`).
pub open spec fn compatibility_of(d: Seq<char>, native: bool) -> MigrationCompatibility {
    if d == "light"@ || d == "switch"@ || d == "fan"@ || d == "lock"@ || d == "cover"@ || d == "garage_door"@
        || d == "sensor"@ || d == "binary_sensor"@ || (native && planned_domain(d)) {
        MigrationCompatibility::Mappable
    } else if d == "scene"@ || d == "climate"@ {
        MigrationCompatibility::ManualReview
    } else {
        MigrationCompatibility::Unsupported
    }
}

/// The capabilities an entity of domain `d` gets.
pub open spec fn capabilities_of(d: Seq<char>, native: bool) -> Set<Capability> {
    if planned_domain(d) && !native {
        Set::empty()
    } else if d == "light"@ {
        set![Capability::Power, Capability::Brightness, Capability::Color]
    } else if d == "switch"@ || d == "fan"@ {
        set![Capability::Power]
    } else if d == "lock"@ {
        set![Capability::Lock]
    } else if d == "cover"@ || d == "garage_door"@ {
        set![Capability::OpenClose]
    } else if d == "scene"@ {
        set![Capability::SceneActivation]
    } else if d == "sensor"@ || d == "binary_sensor"@ {
        set![Capability::SensorRead]
    } else if d == "climate"@ {
        set![Capability::Temperature]
    } else if d == "media_player"@ {
        set![Capability::Power, Capability::MediaPlayback]
    } else if d == "vacuum"@ {
        set![Capability::VacuumControl]
    } else if d == "alarm_control_panel"@ {
        set![Capability::AlarmControl]
    } else {
        Set::empty()
    }
}

/// Locks, covers, garage doors and climate are sensitive, and so are vacuums
/// and alarm panels that a Genie adapter reported.
pub open spec fn safety_class_of(d: Seq<char>, native: bool) -> SafetyClass {
    if d == "lock"@ || d == "cover"@ || d == "garage_door"@ || d == "climate"@ || (native && (d == "vacuum"@
        || d == "alarm_control_panel"@)) {
        SafetyClass::Sensitive
    } else {
        SafetyClass::Normal
    }
}

/// The notes on an entity of domain `d`.
pub open spec fn migration_notes(d: Seq<char>, native: bool) -> Seq<Seq<char>> {
    if planned_domain(d) && !native {
        seq!["domain is not mapped by the initial Genie compatibility table"@]
    } else if d == "light"@ || d == "switch"@ || d == "fan"@ {
        seq![]
    } else if d == "lock"@ {
        seq!["lock actions require confirmation under Genie safety policy"@]
    } else if d == "cover"@ || d == "garage_door"@ {
        seq!["open/close actions require confirmation when safety-sensitive"@]
    } else if d == "scene"@ {
        seq!["scene actions should be reviewed before import"@]
    } else if d == "sensor"@ || d == "binary_sensor"@ {
        seq!["sensor entities are read-only in the initial Genie model"@]
    } else if d == "climate"@ {
        seq!["HVAC control requires policy review before actuation"@]
    } else if d == "media_player"@ {
        seq![]
    } else if d == "vacuum"@ {
        seq!["vacuum actions require confirmation under Genie safety policy"@]
    } else if d == "alarm_control_panel"@ {
        seq!["alarm actions require confirmation under Genie safety policy"@]
    } else {
        seq!["domain is not mapped by the initial Genie compatibility table"@]
    }
}

fn one_string(s: &str) -> (r: Vec<String>)
    ensures
        crate::text::string_views(r@) == seq![s@],
{
    let mut v: Vec<String> = Vec::new();
    v.push(String::from_str(s));
    assert(crate::text::string_views(v@) =~= seq![s@]);
    v
}

fn capability_set_of(items: &[Capability]) -> (r: CapabilitySet)
    ensures
        r@ == items@.to_set(),
{
    let mut set = CapabilitySet::new();
    let mut i: usize = 0;
    while i < items.len()
        invariant
            i <= items@.len(),
            set@ == items@.take(i as int).to_set(),
        decreases items@.len() - i,
    {
        let ghost before = set@;
        set.insert(items[i]);
        proof {
            let pre = items@.take(i as int);
            let post = items@.take(i + 1);
            assert(post =~= pre.push(items@[i as int]));
            assert forall|x: Capability| post.contains(x) <==> pre.contains(x) || x == items@[i as int] by {
                if post.contains(x) {
                    let k = choose|k: int| 0 <= k < post.len() && post[k] == x;
                    if k < i {
                        assert(pre[k] == x);
                    }
                }
                if pre.contains(x) {
                    let k = choose|k: int| 0 <= k < pre.len() && pre[k] == x;
                    assert(post[k] == x);
                }
                if x == items@[i as int] {
                    assert(post[i as int] == x);
                }
            }
            assert(set@ =~= post.to_set());
        }
        i = i + 1;
    }
    assert(items@.take(i as int) =~= items@);
    set
}

/// How an entity of this domain carries over: compatibility, capabilities, safety and notes.
fn classify_domain(domain: &str, native: bool) -> (r: (MigrationCompatibility, CapabilitySet, SafetyClass, Vec<String>))
    ensures
        r.0 == compatibility_of(domain@, native),
        r.1@ == capabilities_of(domain@, native),
        r.2 == safety_class_of(domain@, native),
        crate::text::string_views(r.3@) == migration_notes(domain@, native),
{
    proof {
        reveal_strlit("light");
        reveal_strlit("switch");
        reveal_strlit("fan");
        reveal_strlit("lock");
        reveal_strlit("cover");
        reveal_strlit("garage_door");
        reveal_strlit("sensor");
        reveal_strlit("binary_sensor");
        reveal_strlit("scene");
        reveal_strlit("climate");
        reveal_strlit("media_player");
        reveal_strlit("vacuum");
        reveal_strlit("alarm_control_panel");
        assert("vacuum"@[0] == 'v' && "media_player"@.len() == 12 && "alarm_control_panel"@.len() == 19);
        assert("light"@[0] == 'l' && "cover"@[0] == 'c' && "scene"@[0] == 's');
        assert("switch"@[1] == 'w' && "sensor"@[1] == 'e');
        assert("lock"@.len() == 4 && "fan"@.len() == 3 && "garage_door"@.len() == 11);
        assert("binary_sensor"@.len() == 13 && "climate"@.len() == 7 && "light"@.len() == 5);
        assert("switch"@.len() == 6 && "sensor"@.len() == 6 && "scene"@.len() == 5 && "cover"@.len() == 5);
    }
    let (compatibility, caps, notes) = if str_eq(domain, "light") {
        let caps = [Capability::Power, Capability::Brightness, Capability::Color];
        proof {
            assert(caps@.to_set() =~= set![Capability::Power, Capability::Brightness, Capability::Color]);
        }
        let v: Vec<String> = Vec::new();
        assert(crate::text::string_views(v@) =~= seq![]);
        (MigrationCompatibility::Mappable, capability_set_of(&caps), v)
    } else if str_eq(domain, "switch") || str_eq(domain, "fan") {
        let caps = [Capability::Power];
        proof {
            assert(caps@.to_set() =~= set![Capability::Power]);
        }
        let v: Vec<String> = Vec::new();
        assert(crate::text::string_views(v@) =~= seq![]);
        (MigrationCompatibility::Mappable, capability_set_of(&caps), v)
    } else if str_eq(domain, "lock") {
        let caps = [Capability::Lock];
        proof {
            assert(caps@.to_set() =~= set![Capability::Lock]);
        }
        (MigrationCompatibility::Mappable, capability_set_of(&caps), one_string("lock actions require confirmation under Genie safety policy"))
    } else if str_eq(domain, "cover") || str_eq(domain, "garage_door") {
        let caps = [Capability::OpenClose];
        proof {
            assert(caps@.to_set() =~= set![Capability::OpenClose]);
        }
        (MigrationCompatibility::Mappable, capability_set_of(&caps), one_string("open/close actions require confirmation when safety-sensitive"))
    } else if str_eq(domain, "scene") {
        let caps = [Capability::SceneActivation];
        proof {
            assert(caps@.to_set() =~= set![Capability::SceneActivation]);
        }
        (MigrationCompatibility::ManualReview, capability_set_of(&caps), one_string("scene actions should be reviewed before import"))
    } else if str_eq(domain, "sensor") || str_eq(domain, "binary_sensor") {
        let caps = [Capability::SensorRead];
        proof {
            assert(caps@.to_set() =~= set![Capability::SensorRead]);
        }
        (MigrationCompatibility::Mappable, capability_set_of(&caps), one_string("sensor entities are read-only in the initial Genie model"))
    } else if str_eq(domain, "climate") {
        let caps = [Capability::Temperature];
        proof {
            assert(caps@.to_set() =~= set![Capability::Temperature]);
        }
        (MigrationCompatibility::ManualReview, capability_set_of(&caps), one_string("HVAC control requires policy review before actuation"))
    } else if native && str_eq(domain, "media_player") {
        let caps = [Capability::Power, Capability::MediaPlayback];
        proof {
            assert(caps@.to_set() =~= set![Capability::Power, Capability::MediaPlayback]);
        }
        let v: Vec<String> = Vec::new();
        assert(crate::text::string_views(v@) =~= seq![]);
        (MigrationCompatibility::Mappable, capability_set_of(&caps), v)
    } else if native && str_eq(domain, "vacuum") {
        let caps = [Capability::VacuumControl];
        proof {
            assert(caps@.to_set() =~= set![Capability::VacuumControl]);
        }
        (MigrationCompatibility::Mappable, capability_set_of(&caps), one_string("vacuum actions require confirmation under Genie safety policy"))
    } else if native && str_eq(domain, "alarm_control_panel") {
        let caps = [Capability::AlarmControl];
        proof {
            assert(caps@.to_set() =~= set![Capability::AlarmControl]);
        }
        (MigrationCompatibility::Mappable, capability_set_of(&caps), one_string("alarm actions require confirmation under Genie safety policy"))
    } else {
        (MigrationCompatibility::Unsupported, CapabilitySet::new(), one_string("domain is not mapped by the initial Genie compatibility table"))
    };
    let safety_class = if str_eq(domain, "lock") || str_eq(domain, "cover") || str_eq(domain, "garage_door")
        || str_eq(domain, "climate") || (native && (str_eq(domain, "vacuum") || str_eq(domain, "alarm_control_panel"))) {
        SafetyClass::Sensitive
    } else {
        SafetyClass::Normal
    };
    (compatibility, caps, safety_class, notes)
}

/// The display name of a record: its name, else its `friendly_name` text attribute, else its id.
pub open spec fn candidate_name(r: HomeAssistantEntityRecord) -> Seq<char> {
    match r.name {
        Some(n) => n@,
        None => match record_attr(r, "friendly_name"@) {
            Some(f) => f,
            None => r.entity_id@,
        },
    }
}

/// The candidate a record becomes.
pub open spec fn candidate_view(r: HomeAssistantEntityRecord) -> CandidateView {
    let d = domain_of(r.entity_id@);
    let native = record_attr(r, "genie_protocol"@) is Some;
    CandidateView {
        entity_id: r.entity_id@,
        domain: d,
        display_name: candidate_name(r),
        compatibility: compatibility_of(d, native),
        capabilities: capabilities_of(d, native),
        safety_class: safety_class_of(d, native),
        initial_state: state_from_text(state_text(r.state)),
        notes: migration_notes(d, native),
    }
}

/// The text before the first `.`, or nothing when there is none.
fn domain_text(id: &str) -> (r: String)
    ensures
        r@ == domain_of(id@),
{
    let cs = chars_of(id);
    let p = first_in(&cs, 0, cs.len(), '.');
    proof {
        assert(cs@.subrange(0, cs@.len() as int) =~= id@);
        lemma_index_of_char(id@, '.');
    }
    if p == cs.len() {
        return String::new();
    }
    let mut head: Vec<char> = Vec::new();
    let mut i: usize = 0;
    while i < p
        invariant
            p < cs@.len(),
            i <= p,
            head@ == cs@.subrange(0, i as int),
        decreases p - i,
    {
        head.push(cs[i]);
        i = i + 1;
        assert(head@ =~= cs@.subrange(0, i as int));
    }
    string_from_chars(&head)
}

fn build_candidate(record: &HomeAssistantEntityRecord) -> (r: MigrationCandidate)
    ensures
        r@ == candidate_view(*record),
{
    let domain = domain_text(record.entity_id.as_str());
    let display_name = match &record.name {
        Some(n) => n.clone(),
        None => match attribute_text(&record.attributes, "friendly_name") {
            Some(f) => f,
            None => record.entity_id.clone(),
        },
    };
    let native = attribute_text(&record.attributes, "genie_protocol").is_some();
    let (compatibility, capabilities, safety_class, notes) = classify_domain(domain.as_str(), native);
    let initial_state = map_state(&record.state);
    MigrationCandidate {
        entity_id: record.entity_id.clone(),
        domain,
        display_name,
        compatibility,
        capabilities,
        safety_class,
        initial_state,
        notes,
    }
}

/// How many of `cs` carry over in the way `c` says.
pub open spec fn count_compat(cs: Seq<CandidateView>, c: MigrationCompatibility) -> nat
    decreases cs.len(),
{
    if cs.len() == 0 {
        0
    } else {
        count_compat(cs.drop_last(), c) + if cs.last().compatibility == c {
            1nat
        } else {
            0nat
        }
    }
}

proof fn lemma_count_bound(cs: Seq<CandidateView>, c: MigrationCompatibility)
    ensures
        count_compat(cs, c) <= cs.len(),
    decreases cs.len(),
{
    if cs.len() > 0 {
        lemma_count_bound(cs.drop_last(), c);
    }
}

fn count_candidates(candidates: &Vec<MigrationCandidate>) -> (r: MigrationCounts)
    ensures
        ({
            let cs = candidates@.map_values(|c: MigrationCandidate| c@);
            &&& r.total == cs.len()
            &&& r.mappable == count_compat(cs, MigrationCompatibility::Mappable)
            &&& r.manual_review == count_compat(cs, MigrationCompatibility::ManualReview)
            &&& r.unsupported == count_compat(cs, MigrationCompatibility::Unsupported)
        }),
{
    let ghost cs = candidates@.map_values(|c: MigrationCandidate| c@);
    let mut counts = MigrationCounts { total: candidates.len(), mappable: 0, manual_review: 0, unsupported: 0 };
    let mut i: usize = 0;
    while i < candidates.len()
        invariant
            i <= candidates@.len(),
            cs == candidates@.map_values(|c: MigrationCandidate| c@),
            counts.total == cs.len(),
            counts.mappable == count_compat(cs.take(i as int), MigrationCompatibility::Mappable),
            counts.manual_review == count_compat(cs.take(i as int), MigrationCompatibility::ManualReview),
            counts.unsupported == count_compat(cs.take(i as int), MigrationCompatibility::Unsupported),
        decreases candidates@.len() - i,
    {
        proof {
            assert(cs.take(i + 1).drop_last() =~= cs.take(i as int));
            lemma_count_bound(cs.take(i as int), MigrationCompatibility::Mappable);
            lemma_count_bound(cs.take(i as int), MigrationCompatibility::ManualReview);
            lemma_count_bound(cs.take(i as int), MigrationCompatibility::Unsupported);
        }
        match candidates[i].compatibility {
            MigrationCompatibility::Mappable => counts.mappable = counts.mappable + 1,
            MigrationCompatibility::ManualReview => counts.manual_review = counts.manual_review + 1,
            MigrationCompatibility::Unsupported => counts.unsupported = counts.unsupported + 1,
        }
        i = i + 1;
    }
    proof {
        assert(cs.take(i as int) =~= cs);
    }
    counts
}

/// A candidate for every record, in order, with the counts of each compatibility.
pub fn build_home_assistant_migration_report(records: Vec<HomeAssistantEntityRecord>) -> (r: MigrationReport)
    ensures
        r.source@ == "home_assistant"@,
        r.candidates@.map_values(|c: MigrationCandidate| c@) == records@.map_values(
            |x: HomeAssistantEntityRecord| candidate_view(x),
        ),
        r.counts.total == records@.len(),
        r.counts.mappable == count_compat(r.candidates@.map_values(|c: MigrationCandidate| c@), MigrationCompatibility::Mappable),
        r.counts.manual_review == count_compat(
            r.candidates@.map_values(|c: MigrationCandidate| c@),
            MigrationCompatibility::ManualReview,
        ),
        r.counts.unsupported == count_compat(
            r.candidates@.map_values(|c: MigrationCandidate| c@),
            MigrationCompatibility::Unsupported,
        ),
{
    let mut candidates: Vec<MigrationCandidate> = Vec::new();
    let mut i: usize = 0;
    while i < records.len()
        invariant
            i <= records@.len(),
            candidates@.map_values(|c: MigrationCandidate| c@) == records@.map_values(
                |x: HomeAssistantEntityRecord| candidate_view(x),
            ).take(i as int),
        decreases records@.len() - i,
    {
        let c = build_candidate(&records[i]);
        let ghost before = candidates@;
        candidates.push(c);
        proof {
            assert(candidates@.map_values(|c: MigrationCandidate| c@) =~= before.map_values(
                |c: MigrationCandidate| c@,
            ).push(c@));
            assert(candidates@.map_values(|c: MigrationCandidate| c@) =~= records@.map_values(
                |x: HomeAssistantEntityRecord| candidate_view(x),
            ).take(i + 1));
        }
        i = i + 1;
    }
    proof {
        assert(records@.map_values(|x: HomeAssistantEntityRecord| candidate_view(x)).take(i as int) =~= records@.map_values(
            |x: HomeAssistantEntityRecord| candidate_view(x),
        ));
    }
    let counts = count_candidates(&candidates);
    MigrationReport { source: String::from_str("home_assistant"), counts, candidates }
}

// ---------------------------------------------------------------------------
// The import plan.
// ---------------------------------------------------------------------------

pub open spec fn is_ascii_alnum(c: char) -> bool {
    ('a' <= c && c <= 'z') || ('A' <= c && c <= 'Z') || ('0' <= c && c <= '9')
}

/// ASCII letters and digits, `_`, `-` and `.` are kept, in small letters; anything else becomes `-`.
pub open spec fn stable_id_char(c: char) -> char {
    if is_ascii_alnum(c) || c == '_' || c == '-' || c == '.' {
        ascii_lower(c)
    } else {
        '-'
    }
}

pub open spec fn sanitized(s: Seq<char>) -> Seq<char> {
    s.map_values(|c: char| stable_id_char(c))
}

fn sanitize_stable_id(value: &str) -> (r: String)
    ensures
        r@ == sanitized(value@),
{
    let cs = chars_of(value);
    let mut out: Vec<char> = Vec::new();
    let mut i: usize = 0;
    while i < cs.len()
        invariant
            i <= cs@.len(),
            cs@ == value@,
            out@ == sanitized(value@).take(i as int),
        decreases cs@.len() - i,
    {
        let c = cs[i];
        let keep = ('a' <= c && c <= 'z') || ('A' <= c && c <= 'Z') || ('0' <= c && c <= '9') || c == '_' || c
            == '-' || c == '.';
        if keep {
            out.push(lower_char(c));
        } else {
            out.push('-');
        }
        i = i + 1;
        proof {
            assert(out@ =~= sanitized(value@).take(i as int));
        }
    }
    proof {
        assert(out@ =~= sanitized(value@));
    }
    string_from_chars(&out)
}

/// The protocol a protocol name stands for, ignoring surrounding whitespace and letter case.
pub open spec fn protocol_from_text(t: Seq<char>) -> Option<ConnectivityProtocol> {
    let l = lower_text(crate::text::trimmed(t));
    if l == "matter"@ {
        Some(ConnectivityProtocol::Matter)
    } else if l == "thread"@ {
        Some(ConnectivityProtocol::Thread)
    } else if l == "zigbee"@ {
        Some(ConnectivityProtocol::Zigbee)
    } else if l == "zwave"@ || l == "z_wave"@ || l == "z-wave"@ {
        Some(ConnectivityProtocol::ZWave)
    } else if l == "ble"@ || l == "bluetooth"@ {
        Some(ConnectivityProtocol::Ble)
    } else if l == "wifi"@ || l == "wi-fi"@ {
        Some(ConnectivityProtocol::Wifi)
    } else if l == "uart"@ {
        Some(ConnectivityProtocol::Uart)
    } else if l == "esp32_c6"@ || l == "esp32-c6"@ || l == "esp32c6"@ {
        Some(ConnectivityProtocol::Esp32C6)
    } else {
        None
    }
}

pub(crate) fn lower_string(s: &str) -> (r: String)
    ensures
        r@ == lower_text(s@),
{
    let cs = chars_of(s);
    let mut out: Vec<char> = Vec::new();
    let mut i: usize = 0;
    while i < cs.len()
        invariant
            i <= cs@.len(),
            cs@ == s@,
            out@ == lower_text(s@).take(i as int),
        decreases cs@.len() - i,
    {
        out.push(lower_char(cs[i]));
        i = i + 1;
        proof {
            assert(out@ =~= lower_text(s@).take(i as int));
        }
    }
    proof {
        assert(out@ =~= lower_text(s@));
    }
    string_from_chars(&out)
}

fn parse_connectivity_protocol(value: &str) -> (r: Option<ConnectivityProtocol>)
    ensures
        r == protocol_from_text(value@),
{
    let t = crate::text::trim_to_string(value);
    let l = lower_string(t.as_str());
    let v = l.as_str();
    if str_eq(v, "matter") {
        Some(ConnectivityProtocol::Matter)
    } else if str_eq(v, "thread") {
        Some(ConnectivityProtocol::Thread)
    } else if str_eq(v, "zigbee") {
        Some(ConnectivityProtocol::Zigbee)
    } else if str_eq(v, "zwave") || str_eq(v, "z_wave") || str_eq(v, "z-wave") {
        Some(ConnectivityProtocol::ZWave)
    } else if str_eq(v, "ble") || str_eq(v, "bluetooth") {
        Some(ConnectivityProtocol::Ble)
    } else if str_eq(v, "wifi") || str_eq(v, "wi-fi") {
        Some(ConnectivityProtocol::Wifi)
    } else if str_eq(v, "uart") {
        Some(ConnectivityProtocol::Uart)
    } else if str_eq(v, "esp32_c6") || str_eq(v, "esp32-c6") || str_eq(v, "esp32c6") {
        Some(ConnectivityProtocol::Esp32C6)
    } else {
        None
    }
}

/// The stable id of the device a record is imported under: its `device_id`
/// text attribute, else `ha-` and its entity id, made safe either way.
pub open spec fn planned_stable_id(r: HomeAssistantEntityRecord) -> Seq<char> {
    match record_attr(r, "device_id"@) {
        Some(id) => sanitized(id),
        None => "ha-"@ + sanitized(r.entity_id@),
    }
}

/// The protocol name of a record: its `genie_protocol` attribute when it has
/// one, else its `protocol` attribute, when that is text.
pub open spec fn protocol_text(r: HomeAssistantEntityRecord) -> Option<Seq<char>> {
    if attribute_views(r.attributes@).contains_key("genie_protocol"@) {
        record_attr(r, "genie_protocol"@)
    } else {
        record_attr(r, "protocol"@)
    }
}

/// The protocol a record is imported under; Matter when it names none that is known.
pub open spec fn planned_protocol(r: HomeAssistantEntityRecord) -> ConnectivityProtocol {
    match protocol_text(r) {
        Some(t) => match protocol_from_text(t) {
            Some(p) => p,
            None => ConnectivityProtocol::Matter,
        },
        None => ConnectivityProtocol::Matter,
    }
}

/// The reported device a mappable record becomes, holding its one entity.
pub open spec fn planned_device(r: HomeAssistantEntityRecord, c: CandidateView) -> ReportedDeviceView {
    ReportedDeviceView {
        stable_id: planned_stable_id(r),
        protocol: planned_protocol(r),
        manufacturer: Some(
            match record_attr(r, "manufacturer"@) {
                Some(m) => m,
                None => "Home Assistant Migration"@,
            },
        ),
        model: Some(
            match record_attr(r, "model"@) {
                Some(m) => m,
                None => c.domain,
            },
        ),
        entities: seq![
            ReportedEntityView {
                entity_id: crate::text::trimmed(c.entity_id),
                display_name: c.display_name,
                area: record_attr(r, "area_id"@),
                state: c.initial_state,
                capabilities: c.capabilities,
                safety_class: c.safety_class,
            },
        ],
    }
}

/// The devices imported and the candidates skipped, for the records in order:
/// a record that is not mappable is skipped as it is; one whose id is not a
/// valid entity id is skipped as unsupported, with a note saying so.
pub open spec fn plan_of(records: Seq<HomeAssistantEntityRecord>) -> (Seq<ReportedDeviceView>, Seq<CandidateView>)
    decreases records.len(),
{
    if records.len() == 0 {
        (seq![], seq![])
    } else {
        let (ds, sk) = plan_of(records.drop_last());
        let r = records.last();
        let c = candidate_view(r);
        if c.compatibility != MigrationCompatibility::Mappable {
            (ds, sk.push(c))
        } else if !valid_entity_id(crate::text::trimmed(c.entity_id)) {
            (
                ds,
                sk.push(
                    CandidateView {
                        compatibility: MigrationCompatibility::Unsupported,
                        notes: c.notes.push("entity id is not valid for Genie"@),
                        ..c
                    },
                ),
            )
        } else {
            (ds.push(planned_device(r, c)), sk)
        }
    }
}

fn planned_stable_id_of(record: &HomeAssistantEntityRecord, entity_id: &str) -> (r: String)
    requires
        entity_id@ == record.entity_id@,
    ensures
        r@ == planned_stable_id(*record),
{
    match attribute_text(&record.attributes, "device_id") {
        Some(id) => sanitize_stable_id(id.as_str()),
        None => {
            let mut out = String::from_str("ha-");
            let tail = sanitize_stable_id(entity_id);
            crate::text::append_str(&mut out, tail.as_str());
            out
        },
    }
}

fn planned_protocol_of(record: &HomeAssistantEntityRecord) -> (r: ConnectivityProtocol)
    ensures
        r == planned_protocol(*record),
{
    let raw = if record.attributes.contains("genie_protocol") {
        attribute_text(&record.attributes, "genie_protocol")
    } else {
        attribute_text(&record.attributes, "protocol")
    };
    match raw {
        Some(t) => match parse_connectivity_protocol(t.as_str()) {
            Some(p) => p,
            None => ConnectivityProtocol::Matter,
        },
        None => ConnectivityProtocol::Matter,
    }
}

/// The import plan: one reported device per mappable record with a valid
/// entity id, and every other record's candidate as skipped.
pub fn build_home_assistant_import_plan(records: Vec<HomeAssistantEntityRecord>) -> (r: MigrationImportPlan)
    ensures
        r.source@ == "home_assistant"@,
        r.report.source@ == "home_assistant_migration"@,
        r.report.devices@.map_values(|d: ConnectivityDevice| d@) == plan_of(records@).0,
        r.skipped@.map_values(|c: MigrationCandidate| c@) == plan_of(records@).1,
{
    let mut devices: Vec<ConnectivityDevice> = Vec::new();
    let mut skipped: Vec<MigrationCandidate> = Vec::new();
    let mut i: usize = 0;
    while i < records.len()
        invariant
            i <= records@.len(),
            devices@.map_values(|d: ConnectivityDevice| d@) == plan_of(records@.take(i as int)).0,
            skipped@.map_values(|c: MigrationCandidate| c@) == plan_of(records@.take(i as int)).1,
        decreases records@.len() - i,
    {
        let record = &records[i];
        let ghost prev = records@.take(i as int);
        proof {
            assert(records@.take(i + 1).drop_last() =~= prev);
            assert(records@.take(i + 1).last() == *record);
        }
        let ghost dv = devices@;
        let ghost sv = skipped@;
        let candidate = build_candidate(record);
        if candidate.compatibility != MigrationCompatibility::Mappable {
            skipped.push(candidate);
            proof {
                assert(skipped@.map_values(|c: MigrationCandidate| c@) =~= sv.map_values(
                    |c: MigrationCandidate| c@,
                ).push(candidate_view(*record)));
            }
        } else {
            match EntityId::new(candidate.entity_id.as_str()) {
                Err(_) => {
                    let mut invalid = candidate;
                    invalid.compatibility = MigrationCompatibility::Unsupported;
                    let ghost notes0 = invalid.notes@;
                    invalid.notes.push(String::from_str("entity id is not valid for Genie"));
                    proof {
                        assert(crate::text::string_views(invalid.notes@) =~= crate::text::string_views(notes0).push(
                            "entity id is not valid for Genie"@,
                        ));
                    }
                    let ghost iv = invalid@;
                    skipped.push(invalid);
                    proof {
                        assert(skipped@.map_values(|c: MigrationCandidate| c@) =~= sv.map_values(
                            |c: MigrationCandidate| c@,
                        ).push(iv));
                    }
                },
                Ok(entity_id) => {
                    let stable_id = planned_stable_id_of(record, candidate.entity_id.as_str());
                    let protocol = planned_protocol_of(record);
                    let manufacturer = match attribute_text(&record.attributes, "manufacturer") {
                        Some(m) => m,
                        None => String::from_str("Home Assistant Migration"),
                    };
                    let model = match attribute_text(&record.attributes, "model") {
                        Some(m) => m,
                        None => candidate.domain.clone(),
                    };
                    let area = attribute_text(&record.attributes, "area_id");
                    let ghost cv = candidate@;
                    let MigrationCandidate {
                        entity_id: _,
                        domain: _,
                        display_name,
                        compatibility: _,
                        capabilities,
                        safety_class,
                        initial_state,
                        notes: _,
                    } = candidate;
                    let entity = ConnectivityEntity {
                        entity_id,
                        display_name,
                        area,
                        state: initial_state,
                        capabilities,
                        safety_class,
                    };
                    let mut entities: Vec<ConnectivityEntity> = Vec::new();
                    entities.push(entity);
                    let device = ConnectivityDevice {
                        stable_id,
                        protocol,
                        manufacturer: Some(manufacturer),
                        model: Some(model),
                        entities,
                    };
                    proof {
                        assert(device@.entities =~= planned_device(*record, cv).entities);
                        assert(device@ == planned_device(*record, cv));
                    }
                    let ghost devv = device@;
                    devices.push(device);
                    proof {
                        assert(devices@.map_values(|d: ConnectivityDevice| d@) =~= dv.map_values(
                            |d: ConnectivityDevice| d@,
                        ).push(devv));
                    }
                },
            }
        }
        i = i + 1;
    }
    proof {
        assert(records@.take(i as int) =~= records@);
    }
    MigrationImportPlan {
        source: String::from_str("home_assistant"),
        report: ConnectivityReport { source: String::from_str("home_assistant_migration"), devices },
        skipped,
    }
}

/// The entity list of a Home Assistant export: the document itself when it is
/// an array, or its `entities` member when it is an object that has one.
pub fn entities_payload(document: JsonValue) -> (r: Result<JsonValue, String>)
    ensures
        match document@ {
            JsonView::Array(_) => r matches Ok(v) && v@ == document@,
            JsonView::Object(ms) => match crate::json::json_get(document@, "entities"@) {
                Some(v) => r matches Ok(x) && x@ == v,
                None => r matches Err(e) && e@ == "expected an array or an object with an entities array"@,
            },
            _ => r matches Err(e) && e@ == "expected an array or an object with an entities array"@,
        },
{
    match &document {
        JsonValue::Array(_) => {
            return Ok(document);
        },
        JsonValue::Object(_) => {
            match document.get_cloned("entities") {
                Some(v) => {
                    return Ok(v);
                },
                None => {},
            }
        },
        _ => {},
    }
    Err(String::from_str("expected an array or an object with an entities array"))
}

/// Every device of an import plan holds one entity.
pub proof fn lemma_plan_one_entity_each(records: Seq<HomeAssistantEntityRecord>)
    ensures
        forall|i: int| 0 <= i < plan_of(records).0.len() ==> (#[trigger] plan_of(records).0[i]).entities.len() == 1,
    decreases records.len(),
{
    if records.len() > 0 {
        lemma_plan_one_entity_each(records.drop_last());
    }
}

/// Record lists with the same values, one by one, plan the same import.
pub proof fn lemma_plan_views(a: Seq<HomeAssistantEntityRecord>, b: Seq<HomeAssistantEntityRecord>)
    requires
        a.len() == b.len(),
        forall|i: int| 0 <= i < a.len() ==> (#[trigger] a[i])@ == b[i]@,
    ensures
        plan_of(a) == plan_of(b),
    decreases a.len(),
{
    if a.len() > 0 {
        assert forall|i: int| 0 <= i < a.drop_last().len() implies (#[trigger] a.drop_last()[i])@ == b.drop_last()[i]@ by {
            assert(a.drop_last()[i] == a[i]);
            assert(b.drop_last()[i] == b[i]);
        }
        lemma_plan_views(a.drop_last(), b.drop_last());
        lemma_record_view_determines(a.last(), b.last());
    }
}

/// Copies of the records, in order.
pub fn copy_records(records: &Vec<HomeAssistantEntityRecord>) -> (r: Vec<HomeAssistantEntityRecord>)
    ensures
        r@.len() == records@.len(),
        forall|i: int| 0 <= i < r@.len() ==> (#[trigger] r@[i])@ == records@[i]@,
{
    let mut out: Vec<HomeAssistantEntityRecord> = Vec::new();
    let mut i: usize = 0;
    while i < records.len()
        invariant
            i <= records@.len(),
            out@.len() == i,
            forall|k: int| 0 <= k < i ==> (#[trigger] out@[k])@ == records@[k]@,
        decreases records@.len() - i,
    {
        out.push(records[i].duplicate());
        i = i + 1;
    }
    out
}

/// A Home Assistant lock, cover, garage door or climate entity is imported as a
/// sensitive candidate with the capability its domain stands for; a light,
/// switch, fan, sensor or binary sensor is imported as a normal, mappable one.
pub proof fn guarded_domains_import_sensitive(r: HomeAssistantEntityRecord)
    ensures
        domain_of(r.entity_id@) == "lock"@ ==> candidate_view(r).safety_class == SafetyClass::Sensitive
            && candidate_view(r).capabilities == set![Capability::Lock],
        domain_of(r.entity_id@) == "cover"@ || domain_of(r.entity_id@) == "garage_door"@ ==> candidate_view(
            r,
        ).safety_class == SafetyClass::Sensitive && candidate_view(r).capabilities == set![Capability::OpenClose]
            && candidate_view(r).compatibility == MigrationCompatibility::Mappable,
        domain_of(r.entity_id@) == "climate"@ ==> candidate_view(r).safety_class == SafetyClass::Sensitive
            && candidate_view(r).capabilities == set![Capability::Temperature],
        domain_of(r.entity_id@) == "light"@ || domain_of(r.entity_id@) == "switch"@ || domain_of(r.entity_id@)
            == "fan"@ || domain_of(r.entity_id@) == "sensor"@ || domain_of(r.entity_id@) == "binary_sensor"@
            ==> candidate_view(r).safety_class == SafetyClass::Normal && candidate_view(r).compatibility
            == MigrationCompatibility::Mappable,
{
    reveal_strlit("light");
    reveal_strlit("switch");
    reveal_strlit("fan");
    reveal_strlit("lock");
    reveal_strlit("cover");
    reveal_strlit("garage_door");
    reveal_strlit("sensor");
    reveal_strlit("binary_sensor");
    reveal_strlit("scene");
    reveal_strlit("climate");
    reveal_strlit("media_player");
    reveal_strlit("vacuum");
    reveal_strlit("alarm_control_panel");
    assert("vacuum"@[0] == 'v' && "media_player"@.len() == 12 && "alarm_control_panel"@.len() == 19);
    assert("light"@[0] == 'l' && "cover"@[0] == 'c' && "scene"@[0] == 's');
    assert("switch"@[1] == 'w' && "sensor"@[1] == 'e');
    assert("lock"@.len() == 4 && "fan"@.len() == 3 && "garage_door"@.len() == 11);
    assert("binary_sensor"@.len() == 13 && "climate"@.len() == 7 && "light"@.len() == 5);
    assert("switch"@.len() == 6 && "sensor"@.len() == 6 && "scene"@.len() == 5 && "cover"@.len() == 5);
}

} // verus!
