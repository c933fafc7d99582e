//! Physical devices and the registry that files them by id.

use vstd::prelude::*;
use crate::keyed::{Keyed, KeyedList};
use crate::text::{trim_to_string, trimmed, seq_lt, lemma_seq_lt_trichotomy, lemma_seq_lt_transitive};

verus! {

/// A character a device id may hold: lowercase ASCII letters, digits, `_`, `-` and `.`.
pub open spec fn is_device_id_char(c: char) -> bool {
    ('a' <= c <= 'z') || ('0' <= c <= '9') || c == '_' || c == '-' || c == '.'
}

pub open spec fn all_device_id_chars(s: Seq<char>) -> bool {
    forall|i: int| 0 <= i < s.len() ==> is_device_id_char(#[trigger] s[i])
}

fn device_id_chars_ok(s: &str) -> (r: bool)
    ensures
        r == all_device_id_chars(s@),
{
    let n = s.unicode_len();
    let mut i: usize = 0;
    while i < n
        invariant
            n == s@.len(),
            i <= n,
            forall|j: int| 0 <= j < i ==> is_device_id_char(#[trigger] s@[j]),
        decreases n - i,
    {
        let c = s.get_char(i);
        if !(('a' <= c && c <= 'z') || ('0' <= c && c <= '9') || c == '_' || c == '-' || c == '.') {
            return false;
        }
        i = i + 1;
    }
    true
}

/// The stable id of a device: trimmed, non-empty, and made of device-id characters.
#[derive(Debug, PartialEq, Eq, PartialOrd, Ord, Hash)]
pub struct DeviceId(String);

impl View for DeviceId {
    type V = Seq<char>;

    closed spec fn view(&self) -> Seq<char> {
        self.0@
    }
}

impl Clone for DeviceId {
    fn clone(&self) -> (r: Self)
        ensures
            r == *self,
    {
        DeviceId(self.0.clone())
    }
}

/// Why a device id was refused.
#[derive(Debug, Clone, PartialEq, Eq)]
pub enum DeviceIdError {
    Empty,
    Invalid(String),
}

impl DeviceId {
    /// Trims `value`, then accepts it when it is non-empty and every character
    /// is a device-id character.
    pub fn new(value: &str) -> (r: Result<DeviceId, DeviceIdError>)
        ensures
            match r {
                Ok(id) => id@ == trimmed(value@) && trimmed(value@).len() > 0
                    && all_device_id_chars(trimmed(value@)),
                Err(DeviceIdError::Empty) => trimmed(value@).len() == 0,
                Err(DeviceIdError::Invalid(s)) => s@ == trimmed(value@) && trimmed(value@).len()
                    > 0 && !all_device_id_chars(trimmed(value@)),
            },
    {
        let t = trim_to_string(value);
        if t.unicode_len() == 0 {
            return Err(DeviceIdError::Empty);
        }
        if !device_id_chars_ok(t.as_str()) {
            return Err(DeviceIdError::Invalid(t));
        }
        Ok(DeviceId(t))
    }

    pub fn as_str(&self) -> (r: &str)
        ensures
            r@ == self@,
    {
        self.0.as_str()
    }

    /// The id spelled by `s`, which is already a valid device id.
    pub(crate) fn from_valid(s: &str) -> (r: DeviceId)
        requires
            s@.len() > 0,
            all_device_id_chars(s@),
        ensures
            r@ == s@,
    {
        proof {
            assert forall|i: int| 0 <= i < s@.len() implies !crate::text::is_ws(s@[i]) by {
                assert(is_device_id_char(s@[i]));
            }
            crate::text::lemma_trim_plain(s@);
        }
        match DeviceId::new(s) {
            Ok(id) => id,
            Err(_) => {
                proof {
                    assert(false);
                }
                DeviceId(String::new())
            },
        }
    }
}

/// A physical device; it may expose several entities.
#[derive(Debug, Clone)]
pub struct Device {
    pub id: DeviceId,
    pub display_name: String,
    pub manufacturer: Option<String>,
    pub model: Option<String>,
    pub area: Option<String>,
    pub identifiers: Vec<String>,
    pub connections: Vec<String>,
}

/// `s` as a set of character sequences.
pub open spec fn string_set(s: Seq<String>) -> Set<Seq<char>> {
    Set::new(|x: Seq<char>| exists|i: int| 0 <= i < s.len() && #[trigger] s[i]@ == x)
}

/// The mathematical value of a device.
pub struct DeviceView {
    pub id: Seq<char>,
    pub display_name: Seq<char>,
    pub manufacturer: Option<Seq<char>>,
    pub model: Option<Seq<char>>,
    pub area: Option<Seq<char>>,
    pub identifiers: Set<Seq<char>>,
    pub connections: Set<Seq<char>>,
}

impl View for Device {
    type V = DeviceView;

    open spec fn view(&self) -> DeviceView {
        DeviceView {
            id: self.id@,
            display_name: self.display_name@,
            manufacturer: crate::command::opt_string_view(self.manufacturer),
            model: crate::command::opt_string_view(self.model),
            area: crate::command::opt_string_view(self.area),
            identifiers: string_set(self.identifiers@),
            connections: string_set(self.connections@),
        }
    }
}

/// The texts strictly increase in text order, so none is there twice.
pub open spec fn strings_sorted(s: Seq<String>) -> bool {
    forall|i: int, j: int| 0 <= i < j < s.len() ==> seq_lt(#[trigger] s[i]@, #[trigger] s[j]@)
}

/// The devices of a map, each by its value.
pub open spec fn device_views(m: Map<Seq<char>, Device>) -> Map<Seq<char>, DeviceView> {
    m.map_values(|d: Device| d@)
}

impl Keyed for Device {
    open spec fn key(&self) -> Seq<char> {
        self.id@
    }

    fn key_str(&self) -> (r: &str) {
        self.id.as_str()
    }

    fn copy_item(&self) -> (r: Self) {
        self.duplicate()
    }
}

impl Device {
    pub fn new(id: DeviceId, display_name: &str) -> (r: Device)
        ensures
            r.id == id,
            r.display_name@ == display_name@,
            r.manufacturer is None,
            r.model is None,
            r.area is None,
            r.identifiers@.len() == 0,
            r.connections@.len() == 0,
            strings_sorted(r.identifiers@),
            strings_sorted(r.connections@),
    {
        Device {
            id,
            display_name: String::from_str(display_name),
            manufacturer: None,
            model: None,
            area: None,
            identifiers: Vec::new(),
            connections: Vec::new(),
        }
    }

    pub fn with_manufacturer(self, manufacturer: &str) -> (r: Device)
        ensures
            r.manufacturer matches Some(m) && m@ == manufacturer@,
            r.id == self.id,
            r.display_name == self.display_name,
            r.model == self.model,
            r.area == self.area,
            r.identifiers == self.identifiers,
            r.connections == self.connections,
    {
        Device { manufacturer: Some(String::from_str(manufacturer)), ..self }
    }

    pub fn with_model(self, model: &str) -> (r: Device)
        ensures
            r.model matches Some(m) && m@ == model@,
            r.id == self.id,
            r.display_name == self.display_name,
            r.manufacturer == self.manufacturer,
            r.area == self.area,
            r.identifiers == self.identifiers,
            r.connections == self.connections,
    {
        Device { model: Some(String::from_str(model)), ..self }
    }

    pub fn with_area(self, area: &str) -> (r: Device)
        ensures
            r.area matches Some(a) && a@ == area@,
            r.id == self.id,
            r.display_name == self.display_name,
            r.manufacturer == self.manufacturer,
            r.model == self.model,
            r.identifiers == self.identifiers,
            r.connections == self.connections,
    {
        Device { area: Some(String::from_str(area)), ..self }
    }

    /// Adds `identifier` to the identifier set; a second copy is not added.
    /// The same device with `identifier` added at its place in text order,
    /// unless it is there already.
    pub fn with_identifier(self, identifier: &str) -> (r: Device)
        ensures
            string_set(r.identifiers@) == string_set(self.identifiers@).insert(identifier@),
            r.identifiers@.len() <= self.identifiers@.len() + 1,
            strings_sorted(self.identifiers@) ==> strings_sorted(r.identifiers@),
            r.id == self.id,
            r.display_name == self.display_name,
            r.manufacturer == self.manufacturer,
            r.model == self.model,
            r.area == self.area,
            r.connections == self.connections,
    {
        let mut ids = self.identifiers;
        let ghost before = ids@;
        let mut p: usize = 0;
        while p < ids.len() && crate::text::compare_str(ids[p].as_str(), identifier) < 0
            invariant
                ids@ == before,
                p <= before.len(),
                forall|j: int| 0 <= j < p ==> seq_lt(#[trigger] before[j]@, identifier@),
            decreases before.len() - p,
        {
            p = p + 1;
        }
        if p < ids.len() && crate::text::str_eq(ids[p].as_str(), identifier) {
            assert(string_set(ids@) =~= string_set(before).insert(identifier@)) by {
                assert(before[p as int]@ == identifier@);
            }
        } else {
            proof {
                if p < before.len() {
                    lemma_seq_lt_trichotomy(before[p as int]@, identifier@);
                }
            }
            ids.insert(p, String::from_str(identifier));
            proof {
                let after = ids@;
                assert(after == before.insert(p as int, after[p as int]));
                assert(after[p as int]@ == identifier@);
                assert(string_set(after) =~= string_set(before).insert(identifier@)) by {
                    assert forall|x: Seq<char>| string_set(after).contains(x) implies string_set(
                        before,
                    ).insert(identifier@).contains(x) by {
                        let k = choose|k: int| 0 <= k < after.len() && #[trigger] after[k]@ == x;
                        if k < p {
                            assert(before[k]@ == x);
                        } else if k > p {
                            assert(before[k - 1]@ == x);
                        }
                    }
                    assert forall|x: Seq<char>| string_set(before).insert(identifier@).contains(
                        x,
                    ) implies string_set(after).contains(x) by {
                        if x == identifier@ {
                            assert(after[p as int]@ == x);
                        } else {
                            let k = choose|k: int| 0 <= k < before.len() && #[trigger] before[k]@ == x;
                            if k < p {
                                assert(after[k]@ == x);
                            } else {
                                assert(after[k + 1]@ == x);
                            }
                        }
                    }
                }
                if strings_sorted(before) {
                    assert forall|i: int, j: int| 0 <= i < j < after.len() implies seq_lt(
                        #[trigger] after[i]@,
                        #[trigger] after[j]@,
                    ) by {
                        if j < p {
                            assert(seq_lt(before[i]@, before[j]@));
                        } else if j == p {
                            assert(seq_lt(before[i]@, identifier@));
                        } else if i < p {
                            assert(seq_lt(before[i]@, before[j - 1]@));
                        } else if i == p {
                            assert(seq_lt(identifier@, before[p as int]@));
                            if j - 1 > p {
                                assert(seq_lt(before[p as int]@, before[j - 1]@));
                                lemma_seq_lt_transitive(identifier@, before[p as int]@, before[j - 1]@);
                            }
                        } else {
                            assert(seq_lt(before[i - 1]@, before[j - 1]@));
                        }
                    }
                }
            }
        }
        Device { identifiers: ids, ..self }
    }
}

/// The devices known to the runtime, filed by id.
#[derive(Debug, Clone)]
pub struct DeviceRegistry {
    devices: KeyedList<Device>,
}

impl View for DeviceRegistry {
    type V = Map<Seq<char>, Device>;

    closed spec fn view(&self) -> Map<Seq<char>, Device> {
        self.devices@
    }
}

impl Default for DeviceRegistry {
    /// An empty registry.
    fn default() -> (r: DeviceRegistry)
        ensures
            r@ == Map::<Seq<char>, Device>::empty(),
            r.seq().len() == 0,
    {
        DeviceRegistry::new()
    }
}

impl DeviceRegistry {
    /// The devices in id order.
    pub closed spec fn seq(&self) -> Seq<Device> {
        self.devices.seq()
    }

    pub fn new() -> (r: DeviceRegistry)
        ensures
            r@ == Map::<Seq<char>, Device>::empty(),
            r.seq().len() == 0,
    {
        DeviceRegistry { devices: KeyedList::new() }
    }

    /// Files `device` under its id, replacing any device with that id.
    pub fn upsert(&mut self, device: Device)
        ensures
            final(self)@ == old(self)@.insert(device.id@, device),
            final(self).seq().len() == old(self).seq().len() + if old(self)@.contains_key(device.id@) {
                0int
            } else {
                1int
            },
    {
        self.devices.upsert(device);
    }

    pub fn get(&self, id: &DeviceId) -> (r: Option<&Device>)
        ensures
            self@.contains_key(id@) ==> r == Some(&self@[id@]),
            !self@.contains_key(id@) ==> r is None,
    {
        self.devices.get(id.as_str())
    }

    pub fn len(&self) -> (r: usize)
        ensures
            r == self.seq().len(),
    {
        self.devices.len()
    }

    pub fn is_empty(&self) -> (r: bool)
        ensures
            r == (self.seq().len() == 0),
    {
        self.devices.len() == 0
    }

    /// The devices in id order.
    pub fn devices(&self) -> (r: &[Device])
        ensures
            r@ == self.seq(),
            crate::keyed::keys_sorted(self.seq()),
            self@ == crate::keyed::seq_to_map(self.seq()),
    {
        self.devices.as_slice()
    }
}

impl Device {
    /// A copy of this device.
    pub fn duplicate(&self) -> (r: Device)
        ensures
            r@ == self@,
    {
        let identifiers = crate::text::copy_strings(&self.identifiers);
        let connections = crate::text::copy_strings(&self.connections);
        let r = Device {
            id: self.id.clone(),
            display_name: self.display_name.clone(),
            manufacturer: crate::text::copy_opt_string(&self.manufacturer),
            model: crate::text::copy_opt_string(&self.model),
            area: crate::text::copy_opt_string(&self.area),
            identifiers,
            connections,
        };
        proof {
            lemma_string_set_views(r.identifiers@, self.identifiers@);
            lemma_string_set_views(r.connections@, self.connections@);
        }
        r
    }
}

proof fn lemma_string_set_views(a: Seq<String>, b: Seq<String>)
    requires
        crate::text::string_views(a) == crate::text::string_views(b),
    ensures
        string_set(a) == string_set(b),
{
    assert forall|x: Seq<char>| string_set(a).contains(x) <==> string_set(b).contains(x) by {
        assert(a.len() == crate::text::string_views(a).len());
        if string_set(a).contains(x) {
            let i = choose|i: int| 0 <= i < a.len() && #[trigger] a[i]@ == x;
            assert(crate::text::string_views(a)[i] == a[i]@);
            assert(b[i]@ == x);
        }
        if string_set(b).contains(x) {
            let i = choose|i: int| 0 <= i < b.len() && #[trigger] b[i]@ == x;
            assert(crate::text::string_views(b)[i] == b[i]@);
            assert(a[i]@ == x);
        }
    }
    assert(string_set(a) =~= string_set(b));
}

} // verus!
