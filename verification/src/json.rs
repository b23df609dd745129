//! JSON values as the request and response logic reads them.
//!
//! `JsonValue` holds a parsed JSON document; `JsonModel` is its
//! mathematical counterpart, in which strings are character sequences.

use vstd::prelude::*;

use crate::text::same_text;

verus! {

/// A JSON number, kept in the three forms a JSON parser distinguishes.
#[derive(Debug, PartialEq)]
pub enum JsonNumber {
    /// A non-negative integer that fits in 64 bits.
    PosInt(u64),
    /// A negative integer that fits in 64 bits.
    NegInt(i64),
    /// Any other number, kept as its decimal text.
    Float(String),
}

/// A parsed JSON document.
#[derive(Debug, PartialEq)]
pub enum JsonValue {
    Null,
    Bool(bool),
    Number(JsonNumber),
    Str(String),
    Array(Vec<JsonValue>),
    /// Members in document order.
    Object(Vec<(String, JsonValue)>),
}

/// The model of a `JsonNumber`.
pub enum NumberModel {
    PosInt(u64),
    NegInt(i64),
    Float(Seq<char>),
}

/// The model of a `JsonValue`.
pub enum JsonModel {
    Null,
    Bool(bool),
    Number(NumberModel),
    Str(Seq<char>),
    Array(Seq<JsonModel>),
    Object(Seq<(Seq<char>, JsonModel)>),
}

impl JsonNumber {
    pub open spec fn model(&self) -> NumberModel {
        match self {
            JsonNumber::PosInt(u) => NumberModel::PosInt(*u),
            JsonNumber::NegInt(i) => NumberModel::NegInt(*i),
            JsonNumber::Float(s) => NumberModel::Float(s@),
        }
    }
}

pub open spec fn json_model(v: JsonValue) -> JsonModel
    decreases v, 1nat,
{
    match v {
        JsonValue::Null => JsonModel::Null,
        JsonValue::Bool(b) => JsonModel::Bool(b),
        JsonValue::Number(n) => JsonModel::Number(n.model()),
        JsonValue::Str(s) => JsonModel::Str(s@),
        JsonValue::Array(items) => JsonModel::Array(items_model(items@)),
        JsonValue::Object(members) => JsonModel::Object(members_model(members@)),
    }
}

pub open spec fn items_model(s: Seq<JsonValue>) -> Seq<JsonModel>
    decreases s, 0nat,
{
    if s.len() == 0 {
        Seq::empty()
    } else {
        items_model(s.subrange(0, s.len() - 1)).push(json_model(s[s.len() - 1]))
    }
}

pub open spec fn members_model(s: Seq<(String, JsonValue)>) -> Seq<(Seq<char>, JsonModel)>
    decreases s, 0nat,
{
    if s.len() == 0 {
        Seq::empty()
    } else {
        members_model(s.subrange(0, s.len() - 1)).push(
            (s[s.len() - 1].0@, json_model(s[s.len() - 1].1)),
        )
    }
}

impl View for JsonValue {
    type V = JsonModel;

    open spec fn view(&self) -> JsonModel {
        json_model(*self)
    }
}

/// The members of an object model: the value of the first member named
/// `key`, if any.
pub open spec fn member_lookup(ms: Seq<(Seq<char>, JsonModel)>, key: Seq<char>) -> Option<JsonModel>
    decreases ms.len(),
{
    if ms.len() == 0 {
        None
    } else {
        match member_lookup(ms.drop_last(), key) {
            Some(v) => Some(v),
            None => if ms.last().0 == key {
                Some(ms.last().1)
            } else {
                None
            },
        }
    }
}

impl JsonModel {
    /// The number as a signed 64-bit integer, where it is one.
    pub open spec fn as_i64(self) -> Option<i64> {
        match self {
            JsonModel::Number(NumberModel::PosInt(u)) => if u <= i64::MAX {
                Some(u as i64)
            } else {
                None
            },
            JsonModel::Number(NumberModel::NegInt(i)) => Some(i),
            _ => None,
        }
    }

    /// The number as an unsigned 64-bit integer, where it is one.
    pub open spec fn as_u64(self) -> Option<u64> {
        match self {
            JsonModel::Number(NumberModel::PosInt(u)) => Some(u),
            _ => None,
        }
    }

    pub open spec fn as_str(self) -> Option<Seq<char>> {
        match self {
            JsonModel::Str(s) => Some(s),
            _ => None,
        }
    }

    pub open spec fn is_object(self) -> bool {
        self is Object
    }

    pub open spec fn is_array(self) -> bool {
        self is Array
    }

    pub open spec fn is_null(self) -> bool {
        self is Null
    }

    /// The member named `key` of an object; `None` for anything else.
    pub open spec fn get(self, key: Seq<char>) -> Option<JsonModel> {
        match self {
            JsonModel::Object(ms) => member_lookup(ms, key),
            _ => None,
        }
    }

    /// `self[key]`: the member named `key`, or null where there is none.
    pub open spec fn index(self, key: Seq<char>) -> JsonModel {
        match self.get(key) {
            Some(v) => v,
            None => JsonModel::Null,
        }
    }

    /// An empty array.
    pub open spec fn is_empty_array(self) -> bool {
        self is Array && self->Array_0.len() == 0
    }
}

pub proof fn lemma_items_model(s: Seq<JsonValue>)
    ensures
        items_model(s).len() == s.len(),
        forall|i: int| 0 <= i < s.len() ==> #[trigger] items_model(s)[i] == json_model(s[i]),
    decreases s.len(),
{
    if s.len() > 0 {
        lemma_items_model(s.subrange(0, s.len() - 1));
    }
}

pub proof fn lemma_members_model(s: Seq<(String, JsonValue)>)
    ensures
        members_model(s).len() == s.len(),
        forall|i: int|
            0 <= i < s.len() ==> #[trigger] members_model(s)[i] == (s[i].0@, json_model(s[i].1)),
    decreases s.len(),
{
    if s.len() > 0 {
        lemma_members_model(s.subrange(0, s.len() - 1));
    }
}

/// A lookup that finds a member in a prefix of the members finds the same
/// member in all of them.
pub proof fn lemma_member_lookup_prefix(ms: Seq<(Seq<char>, JsonModel)>, k: int, key: Seq<char>)
    requires
        0 <= k <= ms.len(),
        member_lookup(ms.take(k), key) is Some,
    ensures
        member_lookup(ms, key) == member_lookup(ms.take(k), key),
    decreases ms.len() - k,
{
    if k < ms.len() {
        assert(ms.take(k + 1).drop_last() =~= ms.take(k));
        lemma_member_lookup_prefix(ms, k + 1, key);
    } else {
        assert(ms.take(k) =~= ms);
    }
}

impl JsonNumber {
    /// A copy of the number.
    pub fn copy_number(&self) -> (r: JsonNumber)
        ensures
            r.model() == self.model(),
    {
        match self {
            JsonNumber::PosInt(u) => JsonNumber::PosInt(*u),
            JsonNumber::NegInt(i) => JsonNumber::NegInt(*i),
            JsonNumber::Float(t) => JsonNumber::Float(t.clone()),
        }
    }
}

impl JsonValue {
    /// `Value::as_i64`.
    pub fn as_i64(&self) -> (r: Option<i64>)
        ensures
            r == self@.as_i64(),
    {
        match self {
            JsonValue::Number(JsonNumber::PosInt(u)) => {
                if *u <= 0x7fff_ffff_ffff_ffffu64 {
                    Some(*u as i64)
                } else {
                    None
                }
            },
            JsonValue::Number(JsonNumber::NegInt(i)) => Some(*i),
            _ => None,
        }
    }

    /// `Value::as_u64`.
    pub fn as_u64(&self) -> (r: Option<u64>)
        ensures
            r == self@.as_u64(),
    {
        match self {
            JsonValue::Number(JsonNumber::PosInt(u)) => Some(*u),
            _ => None,
        }
    }

    /// `Value::as_str`.
    pub fn as_str(&self) -> (r: Option<&str>)
        ensures
            r is Some <==> self@.as_str() is Some,
            r matches Some(t) ==> self@.as_str() == Some(t@),
    {
        match self {
            JsonValue::Str(t) => Some(t.as_str()),
            _ => None,
        }
    }

    /// `Value::is_object`.
    pub fn is_object(&self) -> (r: bool)
        ensures
            r == self@.is_object(),
    {
        match self {
            JsonValue::Object(_) => true,
            _ => false,
        }
    }

    /// `Value::is_array`.
    pub fn is_array(&self) -> (r: bool)
        ensures
            r == self@.is_array(),
    {
        match self {
            JsonValue::Array(_) => true,
            _ => false,
        }
    }

    /// `Value::is_null`.
    pub fn is_null(&self) -> (r: bool)
        ensures
            r == self@.is_null(),
    {
        match self {
            JsonValue::Null => true,
            _ => false,
        }
    }

    /// Whether the value is an array without elements.
    pub fn is_empty_array(&self) -> (r: bool)
        ensures
            r == self@.is_empty_array(),
    {
        match self {
            JsonValue::Array(items) => {
                proof {
                    lemma_items_model(items@);
                }
                items.len() == 0
            },
            _ => false,
        }
    }

    /// `Value::as_array`.
    pub fn as_array(&self) -> (r: Option<&Vec<JsonValue>>)
        ensures
            r is Some <==> self@.is_array(),
            r matches Some(items) ==> self@ == JsonModel::Array(items_model(items@)),
    {
        match self {
            JsonValue::Array(items) => Some(items),
            _ => None,
        }
    }

    /// The member named `key` of an object (`Value::get` with a string key).
    pub fn get(&self, key: &str) -> (r: Option<&JsonValue>)
        ensures
            r is Some <==> self@.get(key@) is Some,
            r matches Some(v) ==> self@.get(key@) == Some(v@),
    {
        match self {
            JsonValue::Object(members) => {
                let ghost ms = members_model(members@);
                proof {
                    lemma_members_model(members@);
                    assert(ms.take(0) =~= Seq::<(Seq<char>, JsonModel)>::empty());
                }
                let n = members.len();
                let mut i: usize = 0;
                while i < n
                    invariant
                        n == members.len(),
                        ms == members_model(members@),
                        self@.get(key@) == member_lookup(ms, key@),
                        ms.len() == n,
                        forall|j: int|
                            0 <= j < n ==> #[trigger] ms[j] == (members@[j].0@, json_model(
                                members@[j].1,
                            )),
                        i <= n,
                        member_lookup(ms.take(i as int), key@) is None,
                    decreases n - i,
                {
                    assert(ms.take(i + 1).drop_last() =~= ms.take(i as int));
                    if same_text(members[i].0.as_str(), key) {
                        proof {
                            assert(ms.take(i + 1).last() == ms[i as int]);
                            assert(member_lookup(ms.take(i + 1), key@) == Some(ms[i as int].1));
                            lemma_member_lookup_prefix(ms, i + 1, key@);
                        }
                        return Some(&members[i].1);
                    }
                    i = i + 1;
                }
                assert(ms.take(n as int) =~= ms);
                None
            },
            _ => None,
        }
    }

    /// A copy of the value, member for member.
    pub fn copy_value(&self) -> (r: JsonValue)
        ensures
            r@ == self@,
        decreases self,
    {
        match self {
            JsonValue::Null => JsonValue::Null,
            JsonValue::Bool(b) => JsonValue::Bool(*b),
            JsonValue::Number(n) => JsonValue::Number(n.copy_number()),
            JsonValue::Str(t) => JsonValue::Str(t.clone()),
            JsonValue::Array(items) => {
                let n = items.len();
                let mut out: Vec<JsonValue> = Vec::new();
                let mut i: usize = 0;
                while i < n
                    invariant
                        *self == JsonValue::Array(*items),
                        n == items.len(),
                        i <= n,
                        out.len() == i,
                        forall|j: int| 0 <= j < i ==> #[trigger] out@[j]@ == items@[j]@,
                    decreases n - i,
                {
                    proof {
                        assert(decreases_to!(*items => items[i as int]));
                        assert(decreases_to!(*self => (*self)->Array_0));
                    }
                    let c = items[i].copy_value();
                    out.push(c);
                    i = i + 1;
                }
                proof {
                    lemma_items_model(out@);
                    lemma_items_model(items@);
                    assert forall|j: int| 0 <= j < n implies #[trigger] items_model(out@)[j]
                        == items_model(items@)[j] by {
                        assert(out@[j]@ == items@[j]@);
                    }
                    assert(items_model(out@) =~= items_model(items@));
                }
                JsonValue::Array(out)
            },
            JsonValue::Object(members) => {
                let n = members.len();
                let mut out: Vec<(String, JsonValue)> = Vec::new();
                let mut i: usize = 0;
                while i < n
                    invariant
                        *self == JsonValue::Object(*members),
                        n == members.len(),
                        i <= n,
                        out.len() == i,
                        forall|j: int|
                            0 <= j < i ==> #[trigger] out@[j].0@ == members@[j].0@ && out@[j].1@
                                == members@[j].1@,
                    decreases n - i,
                {
                    proof {
                        assert(decreases_to!(*members => members[i as int]));
                        assert(decreases_to!(*self => (*self)->Object_0));
                        assert(decreases_to!(members[i as int] => members[i as int].1));
                    }
                    let c = members[i].1.copy_value();
                    let k = members[i].0.clone();
                    out.push((k, c));
                    i = i + 1;
                }
                proof {
                    lemma_members_model(out@);
                    lemma_members_model(members@);
                    assert(members_model(out@) =~= members_model(members@));
                }
                JsonValue::Object(out)
            },
        }
    }
}


/// `serde_json::Value`, carried through without being looked into.
#[verifier::external_type_specification]
#[verifier::external_body]
pub struct ExSerdeValue(serde_json::Value);

/// The `serde_json::Value` holding the number `n`: `Value::from` of the
/// integer, or the number that `serde_json::Number`'s `FromStr` reads from
/// the text of any other number (null where the text is no number). Nothing
/// is stated of the result.
#[verifier::external_body]
fn serde_number_of(n: &JsonNumber) -> serde_json::Value {
    match n {
        JsonNumber::PosInt(u) => serde_json::Value::from(*u),
        JsonNumber::NegInt(i) => serde_json::Value::from(*i),
        JsonNumber::Float(t) => match t.parse::<serde_json::Number>() {
            Ok(x) => serde_json::Value::Number(x),
            Err(_) => serde_json::Value::Null,
        },
    }
}

/// The `serde_json::Value` that holds `v`, variant for variant and member
/// for member. Nothing is stated of the result.
#[verifier::external_body]
fn serde_value_of(v: &JsonValue) -> serde_json::Value {
    match v {
        JsonValue::Null => serde_json::Value::Null,
        JsonValue::Bool(b) => serde_json::Value::Bool(*b),
        JsonValue::Number(n) => serde_number_of(n),
        JsonValue::Str(s) => serde_json::Value::String(s.clone()),
        JsonValue::Array(items) => serde_json::Value::Array(items.iter().map(serde_value_of).collect()),
        JsonValue::Object(members) => serde_json::Value::Object(
            members.iter().map(|(k, x)| (k.clone(), serde_value_of(x))).collect(),
        ),
    }
}

/// The compact JSON text that serde_json writes for a value.
pub uninterp spec fn json_text(v: JsonModel) -> Seq<char>;

/// serde_json's compact text of `v` (`Value::to_string`, after `v` is
/// held in a `serde_json::Value`). The text is a function of the value
/// alone; what it is, character by character, is not stated here.
#[verifier::external_body]
pub(crate) fn to_json_text(v: &JsonValue) -> (t: String)
    ensures
        t@ == json_text(v@),
{
    serde_value_of(v).to_string()
}

} // verus!
