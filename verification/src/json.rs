//! A JSON value held as plain data, with its mathematical view.

use vstd::prelude::*;
use crate::keyed::{Keyed, KeyedList};

verus! {

/// A JSON value. Numbers keep their decimal text.
#[derive(Debug)]
pub enum JsonValue {
    Null,
    Bool(bool),
    Number(String),
    Text(String),
    Array(Vec<JsonValue>),
    Object(Vec<JsonMember>),
}

/// One `"key": value` member of a JSON object.
#[derive(Debug)]
pub struct JsonMember {
    pub key: String,
    pub value: JsonValue,
}

/// The mathematical value of a JSON document.
pub enum JsonView {
    Null,
    Bool(bool),
    Number(Seq<char>),
    Text(Seq<char>),
    Array(Seq<JsonView>),
    Object(Seq<(Seq<char>, JsonView)>),
}

pub open spec fn json_view(v: JsonValue) -> JsonView
    decreases v,
{
    match v {
        JsonValue::Null => JsonView::Null,
        JsonValue::Bool(b) => JsonView::Bool(b),
        JsonValue::Number(n) => JsonView::Number(n@),
        JsonValue::Text(t) => JsonView::Text(t@),
        JsonValue::Array(items) => JsonView::Array(
            Seq::new(
                items.len() as nat,
                |i: int|
                    if 0 <= i < items.len() {
                        json_view(items[i])
                    } else {
                        JsonView::Null
                    },
            ),
        ),
        JsonValue::Object(members) => JsonView::Object(
            Seq::new(
                members.len() as nat,
                |i: int|
                    if 0 <= i < members.len() {
                        (members[i].key@, json_view(members[i].value))
                    } else {
                        (Seq::empty(), JsonView::Null)
                    },
            ),
        ),
    }
}

impl View for JsonValue {
    type V = JsonView;

    open spec fn view(&self) -> JsonView {
        json_view(*self)
    }
}

impl JsonValue {
    #[verifier::loop_isolation(false)]
    pub fn duplicate(&self) -> (r: JsonValue)
        ensures
            r@ == self@,
        decreases self,
    {
        match self {
            JsonValue::Null => JsonValue::Null,
            JsonValue::Bool(b) => JsonValue::Bool(*b),
            JsonValue::Number(n) => JsonValue::Number(n.clone()),
            JsonValue::Text(t) => JsonValue::Text(t.clone()),
            JsonValue::Array(items) => {
                let mut out: Vec<JsonValue> = Vec::new();
                let mut i: usize = 0;
                while i < items.len()
                    invariant
                        i <= items.len(),
                        out@.len() == i,
                        forall|j: int| 0 <= j < i ==> json_view(#[trigger] out@[j]) == json_view(items@[j]),
                    decreases items.len() - i,
                {
                    proof {
                        assert(decreases_to!(items@ => items@[i as int]));
                    }
                    let c = items[i].duplicate();
                    out.push(c);
                    i = i + 1;
                }
                let r = JsonValue::Array(out);
                assert(r@ =~= self@) by {
                    if let JsonView::Array(a) = r@ {
                        if let JsonView::Array(b) = self@ {
                            assert(a =~= b);
                        }
                    }
                }
                r
            },
            JsonValue::Object(members) => {
                let mut out: Vec<JsonMember> = Vec::new();
                let mut i: usize = 0;
                while i < members.len()
                    invariant
                        i <= members.len(),
                        out@.len() == i,
                        forall|j: int| 0 <= j < i ==> (#[trigger] out@[j]).key@ == members@[j].key@
                            && json_view(out@[j].value) == json_view(members@[j].value),
                    decreases members.len() - i,
                {
                    proof {
                        assert(decreases_to!(members@ => members@[i as int]));
                    }
                    let c = JsonMember { key: members[i].key.clone(), value: members[i].value.duplicate() };
                    out.push(c);
                    i = i + 1;
                }
                let r = JsonValue::Object(out);
                assert(r@ =~= self@) by {
                    if let JsonView::Object(a) = r@ {
                        if let JsonView::Object(b) = self@ {
                            assert(a =~= b);
                        }
                    }
                }
                r
            },
        }
    }
}


/// Index of the first member named `key`, or the length when there is none.
pub open spec fn member_index(ms: Seq<(Seq<char>, JsonView)>, key: Seq<char>) -> int
    decreases ms.len(),
{
    if ms.len() == 0 {
        0
    } else if ms[0].0 == key {
        0
    } else {
        1 + member_index(ms.drop_first(), key)
    }
}

/// The value of member `key` of an object; nothing for other values or a missing key.
pub open spec fn json_get(v: JsonView, key: Seq<char>) -> Option<JsonView> {
    match v {
        JsonView::Object(ms) => {
            let i = member_index(ms, key);
            if i < ms.len() {
                Some(ms[i].1)
            } else {
                None
            }
        },
        _ => None,
    }
}

proof fn lemma_member_index(ms: Seq<(Seq<char>, JsonView)>, key: Seq<char>)
    ensures
        0 <= member_index(ms, key) <= ms.len(),
        member_index(ms, key) < ms.len() ==> ms[member_index(ms, key)].0 == key,
        forall|j: int| 0 <= j < member_index(ms, key) ==> ms[j].0 != key,
    decreases ms.len(),
{
    if ms.len() > 0 && ms[0].0 != key {
        lemma_member_index(ms.drop_first(), key);
        assert forall|j: int| 0 <= j < member_index(ms, key) implies ms[j].0 != key by {
            if j > 0 {
                assert(ms[j] == ms.drop_first()[j - 1]);
            }
        }
    }
}

impl JsonValue {
    /// A copy of the value of member `key`, when this is an object that has one.
    pub fn get_cloned(&self, key: &str) -> (r: Option<JsonValue>)
        ensures
            opt_json(r) == json_get(self@, key@),
    {
        match self {
            JsonValue::Object(members) => {
                let ghost ms = match self@ {
                    JsonView::Object(x) => x,
                    _ => Seq::empty(),
                };
                proof {
                    lemma_member_index(ms, key@);
                }
                let mut i: usize = 0;
                while i < members.len()
                    invariant
                        i <= members@.len(),
                        self@ == JsonView::Object(ms),
                        ms.len() == members@.len(),
                        forall|j: int| 0 <= j < members@.len() ==> (#[trigger] ms[j]) == (members@[j].key@, json_view(members@[j].value)),
                        forall|j: int| 0 <= j < i ==> ms[j].0 != key@,
                        0 <= member_index(ms, key@) <= ms.len(),
                        member_index(ms, key@) < ms.len() ==> ms[member_index(ms, key@)].0 == key@,
                        forall|j: int| 0 <= j < member_index(ms, key@) ==> ms[j].0 != key@,
                    decreases members@.len() - i,
                {
                    if crate::text::str_eq(members[i].key.as_str(), key) {
                        assert(ms[i as int].0 == key@);
                        assert(member_index(ms, key@) == i);
                        return Some(members[i].value.duplicate());
                    }
                    i = i + 1;
                }
                None
            },
            _ => None,
        }
    }

    /// Whether this is an object with at least one member.
    pub fn is_nonempty_object(&self) -> (r: bool)
        ensures
            r == (self@ matches JsonView::Object(ms) && ms.len() > 0),
    {
        match self {
            JsonValue::Object(members) => members.len() > 0,
            _ => false,
        }
    }
}

pub open spec fn opt_json(v: Option<JsonValue>) -> Option<JsonView> {
    match v {
        Some(j) => Some(j@),
        None => None,
    }
}

impl Keyed for JsonMember {
    open spec fn key(&self) -> Seq<char> {
        self.key@
    }

    fn key_str(&self) -> (r: &str) {
        self.key.as_str()
    }

    fn copy_item(&self) -> (r: Self) {
        self.duplicate()
    }
}

/// Named attribute values, sorted by name with each name once.
pub type AttributeMap = KeyedList<JsonMember>;

impl JsonMember {
    /// A copy of this member.
    pub fn duplicate(&self) -> (r: JsonMember)
        ensures
            r.key@ == self.key@,
            r.value@ == self.value@,
    {
        JsonMember { key: self.key.clone(), value: self.value.duplicate() }
    }
}

impl Clone for JsonValue {
    /// A copy holding the same document.
    fn clone(&self) -> (r: JsonValue)
        ensures
            r@ == self@,
    {
        self.duplicate()
    }
}

impl Clone for JsonMember {
    /// A copy with the same key and value.
    fn clone(&self) -> (r: JsonMember)
        ensures
            r.key@ == self.key@,
            r.value@ == self.value@,
    {
        self.duplicate()
    }
}

} // verus!
