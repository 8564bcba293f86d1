//! A JSON document as a tree of plain values.
//!
//! The routing core reads free-form JSON in three places: the parameters of
//! a workflow node, the per-node state of a workflow, and the bodies of
//! inbound requests. `JsonValue` holds such a document; its view
//! `JsonModel` is the tree over mathematical sequences that contracts
//! speak of.

use vstd::prelude::*;
use vstd::string::*;
use crate::text::str_eq;

verus! {

/// A JSON number. A number that is neither a `u64` nor an `i64` keeps its
/// decimal text.
#[derive(Debug)]
pub enum JsonNumber {
    PosInt(u64),
    NegInt(i64),
    Float(String),
}

/// The view of a `JsonNumber`.
pub enum JsonNumberModel {
    PosInt(u64),
    NegInt(i64),
    Float(Seq<char>),
}

/// A JSON document. The members of an object keep their order; a key is
/// looked up from the front.
#[derive(Debug)]
pub enum JsonValue {
    Null,
    Bool(bool),
    Number(JsonNumber),
    Text(String),
    Array(Vec<JsonValue>),
    Object(Vec<(String, JsonValue)>),
}

/// The view of a `JsonValue`.
pub enum JsonModel {
    Null,
    Bool(bool),
    Number(JsonNumberModel),
    Text(Seq<char>),
    Array(Seq<JsonModel>),
    Object(Seq<(Seq<char>, JsonModel)>),
}

impl JsonNumber {
    /// The plain value that this number stands for.
    pub open spec fn model(&self) -> JsonNumberModel {
        match self {
            JsonNumber::PosInt(n) => JsonNumberModel::PosInt(*n),
            JsonNumber::NegInt(n) => JsonNumberModel::NegInt(*n),
            JsonNumber::Float(t) => JsonNumberModel::Float(t@),
        }
    }
}

impl View for JsonNumber {
    type V = JsonNumberModel;

    open spec fn view(&self) -> JsonNumberModel {
        self.model()
    }
}

impl JsonValue {
    /// The tree of plain values that this document stands for.
    pub open spec fn model(&self) -> JsonModel
        decreases self,
    {
        match self {
            JsonValue::Null => JsonModel::Null,
            JsonValue::Bool(b) => JsonModel::Bool(*b),
            JsonValue::Number(n) => JsonModel::Number(n.model()),
            JsonValue::Text(s) => JsonModel::Text(s@),
            JsonValue::Array(items) => JsonModel::Array(
                Seq::new(
                    items@.len(),
                    |i: int|
                        if 0 <= i < items@.len() {
                            items@[i].model()
                        } else {
                            JsonModel::Null
                        },
                ),
            ),
            JsonValue::Object(members) => JsonModel::Object(
                Seq::new(
                    members@.len(),
                    |i: int|
                        if 0 <= i < members@.len() {
                            (members@[i].0@, members@[i].1.model())
                        } else {
                            (Seq::empty(), JsonModel::Null)
                        },
                ),
            ),
        }
    }
}

impl View for JsonValue {
    type V = JsonModel;

    open spec fn view(&self) -> JsonModel {
        self.model()
    }
}

impl DeepView for JsonValue {
    type V = JsonModel;

    open spec fn deep_view(&self) -> JsonModel {
        self@
    }
}

/// The value of the first member of `members` whose key is `key`.
pub open spec fn member_value(members: Seq<(Seq<char>, JsonModel)>, key: Seq<char>) -> Option<
    JsonModel,
>
    decreases members.len(),
{
    if members.len() == 0 {
        None
    } else if members.first().0 == key {
        Some(members.first().1)
    } else {
        member_value(members.drop_first(), key)
    }
}

/// The members of `members` whose key is none of `keys`, in their order.
pub open spec fn members_without(
    members: Seq<(Seq<char>, JsonModel)>,
    keys: Seq<Seq<char>>,
) -> Seq<(Seq<char>, JsonModel)>
    decreases members.len(),
{
    if members.len() == 0 {
        Seq::empty()
    } else {
        let rest = members_without(members.drop_last(), keys);
        if keys.contains(members.last().0) {
            rest
        } else {
            rest.push(members.last())
        }
    }
}

impl JsonModel {
    /// The member `key` of an object; `None` for any other value and for a
    /// key that the object does not hold.
    pub open spec fn get(self, key: Seq<char>) -> Option<JsonModel> {
        match self {
            JsonModel::Object(members) => member_value(members, key),
            _ => None,
        }
    }

    /// The characters of a text value.
    pub open spec fn as_str(self) -> Option<Seq<char>> {
        match self {
            JsonModel::Text(s) => Some(s),
            _ => None,
        }
    }

    /// The value of a boolean.
    pub open spec fn as_bool(self) -> Option<bool> {
        match self {
            JsonModel::Bool(b) => Some(b),
            _ => None,
        }
    }

    /// The value of a number that fits a `u64`.
    pub open spec fn as_u64(self) -> Option<u64> {
        match self {
            JsonModel::Number(JsonNumberModel::PosInt(n)) => Some(n),
            _ => None,
        }
    }

    /// The items of an array.
    pub open spec fn as_array(self) -> Option<Seq<JsonModel>> {
        match self {
            JsonModel::Array(items) => Some(items),
            _ => None,
        }
    }

    /// The text at member `key`: `None` unless the member is there and is a text.
    pub open spec fn text_at(self, key: Seq<char>) -> Option<Seq<char>> {
        match self.get(key) {
            Some(v) => v.as_str(),
            None => None,
        }
    }

    /// An object of the members whose key is none of `keys`; the empty
    /// object for a value that is no object.
    pub open spec fn without(self, keys: Seq<Seq<char>>) -> JsonModel {
        match self {
            JsonModel::Object(members) => JsonModel::Object(members_without(members, keys)),
            _ => JsonModel::Object(Seq::empty()),
        }
    }

    /// The text at a member that may be left out: `Some(None)` where the
    /// member is missing or null, `Some(Some(..))` where it is a text, and
    /// `None` where it is anything else.
    pub open spec fn optional_text_at(self, key: Seq<char>) -> Option<Option<Seq<char>>> {
        match self.get(key) {
            None => Some(None),
            Some(JsonModel::Null) => Some(None),
            Some(JsonModel::Text(s)) => Some(Some(s)),
            Some(_) => None,
        }
    }
}

/// The texts among `items`, in their order.
pub open spec fn texts_of(items: Seq<JsonModel>) -> Seq<Seq<char>>
    decreases items.len(),
{
    if items.len() == 0 {
        Seq::empty()
    } else {
        let rest = texts_of(items.drop_last());
        match items.last() {
            JsonModel::Text(s) => rest.push(s),
            _ => rest,
        }
    }
}

/// The document that a JSON text stands for; `None` where the bytes are no
/// JSON text.
pub uninterp spec fn json_document(bytes: Seq<u8>) -> Option<JsonModel>;

/// `serde_json::Value`, carried through as it is.
#[verifier::external_type_specification]
#[verifier::external_body]
pub struct OutsideDocument(serde_json::Value);

/// Copies a `serde_json::Value` into a `JsonValue`, variant by variant. An
/// object's members come in the order in which `serde_json` walks them.
#[verifier::external_body]
fn from_outside(v: &serde_json::Value) -> JsonValue {
    match v {
        serde_json::Value::Null => JsonValue::Null,
        serde_json::Value::Bool(b) => JsonValue::Bool(*b),
        serde_json::Value::Number(n) => JsonValue::Number(number_from_outside(n)),
        serde_json::Value::String(s) => JsonValue::Text(s.clone()),
        serde_json::Value::Array(a) => JsonValue::Array(a.iter().map(from_outside).collect()),
        serde_json::Value::Object(m) => JsonValue::Object(
            m.iter().map(|(k, x)| (k.clone(), from_outside(x))).collect(),
        ),
    }
}

/// `serde_json::Number`, carried through as it is.
#[verifier::external_type_specification]
#[verifier::external_body]
pub struct OutsideNumber(serde_json::Number);

/// Copies a `serde_json::Number`: as a `u64` where `as_u64` gives one, else
/// as an `i64` where `as_i64` gives one, else as its decimal text.
#[verifier::external_body]
fn number_from_outside(n: &serde_json::Number) -> JsonNumber {
    match (n.as_u64(), n.as_i64()) {
        (Some(u), _) => JsonNumber::PosInt(u),
        (None, Some(i)) => JsonNumber::NegInt(i),
        (None, None) => JsonNumber::Float(n.to_string()),
    }
}

/// Calls `serde_json::from_slice`. The contract names the document that the
/// bytes stand for and claims that the same bytes always give the same
/// document; it claims nothing of what that document is.
#[verifier::external_body]
fn parse_document(bytes: &[u8]) -> (r: Option<JsonValue>)
    ensures
        r.deep_view() == json_document(bytes@),
{
    match serde_json::from_slice::<serde_json::Value>(bytes) {
        Ok(v) => Some(from_outside(&v)),
        Err(_) => None,
    }
}

/// An item of an array and a member of an object are smaller than the
/// document that holds them.
proof fn lemma_child_height(v: JsonValue, i: int)
    ensures
        v is Array && 0 <= i < v->Array_0@.len() ==> decreases_to!(v => v->Array_0@[i]),
        v is Object && 0 <= i < v->Object_0@.len() ==> decreases_to!(v => v->Object_0@[i].1),
{
    if v is Array && 0 <= i < v->Array_0@.len() {
        let items = v->Array_0;
        assert(decreases_to!(items => items@));
        assert(decreases_to!(items@ => items@[i]));
    }
    if v is Object && 0 <= i < v->Object_0@.len() {
        let members = v->Object_0;
        assert(decreases_to!(members => members@));
        assert(decreases_to!(members@ => members@[i]));
        assert(decreases_to!(members@[i] => members@[i].1));
    }
}

/// The view of an array holds the views of its items.
pub proof fn lemma_view_array(items: Vec<JsonValue>)
    ensures
        JsonValue::Array(items)@ is Array,
        JsonValue::Array(items)@->Array_0.len() == items@.len(),
        forall|k: int|
            0 <= k < items@.len() ==> #[trigger] JsonValue::Array(items)@->Array_0[k] == items@[k]@,
{
}

/// The view of an object holds the keys and the views of its members.
pub proof fn lemma_view_object(members: Vec<(String, JsonValue)>)
    ensures
        JsonValue::Object(members)@ is Object,
        JsonValue::Object(members)@->Object_0.len() == members@.len(),
        forall|k: int|
            0 <= k < members@.len() ==> #[trigger] JsonValue::Object(members)@->Object_0[k] == (
                members@[k].0@,
                members@[k].1@,
            ),
{
}

/// The number that stands for `n`: an unsigned one unless `n` is negative.
pub open spec fn number_of_i64(n: i64) -> JsonNumberModel {
    if n >= 0 {
        JsonNumberModel::PosInt(n as u64)
    } else {
        JsonNumberModel::NegInt(n)
    }
}

/// The members of an object that holds `members`.
pub open spec fn members_model(members: Vec<(String, JsonValue)>) -> Seq<(Seq<char>, JsonModel)> {
    JsonValue::Object(members)@->Object_0
}

/// Appends the member `key` with `value` to the members of an object.
pub fn push_member(members: &mut Vec<(String, JsonValue)>, key: &str, value: JsonValue)
    ensures
        members_model(*final(members)) == members_model(*old(members)).push((key@, value@)),
{
    proof {
        lemma_view_object(*members);
    }
    let ghost before = members_model(*members);
    members.push((String::from_str(key), value));
    proof {
        lemma_view_object(*members);
        assert(members_model(*members) =~= before.push((key@, value@)));
    }
}

/// The empty list of members.
pub fn no_members() -> (members: Vec<(String, JsonValue)>)
    ensures
        members_model(members) == Seq::<(Seq<char>, JsonModel)>::empty(),
{
    let members: Vec<(String, JsonValue)> = Vec::new();
    proof {
        lemma_view_object(members);
        assert(members_model(members) =~= Seq::<(Seq<char>, JsonModel)>::empty());
    }
    members
}

/// The empty array.
pub fn empty_array() -> (r: JsonValue)
    ensures
        r@ == JsonModel::Array(Seq::empty()),
{
    let items: Vec<JsonValue> = Vec::new();
    proof {
        lemma_view_array(items);
        assert(JsonValue::Array(items)@->Array_0 =~= Seq::<JsonModel>::empty());
    }
    JsonValue::Array(items)
}

impl JsonNumber {
    /// The number that stands for `n`.
    pub fn from_i64(n: i64) -> (r: JsonNumber)
        ensures
            r@ == number_of_i64(n),
    {
        if n >= 0 {
            JsonNumber::PosInt(n as u64)
        } else {
            JsonNumber::NegInt(n)
        }
    }

    /// A copy of this number.
    pub fn duplicate(&self) -> (r: JsonNumber)
        ensures
            r@ == self@,
    {
        match self {
            JsonNumber::PosInt(n) => JsonNumber::PosInt(*n),
            JsonNumber::NegInt(n) => JsonNumber::NegInt(*n),
            JsonNumber::Float(t) => JsonNumber::Float(t.clone()),
        }
    }
}

impl JsonValue {
    /// Reads a JSON text.
    pub fn parse(bytes: &[u8]) -> (r: Option<JsonValue>)
        ensures
            r.deep_view() == json_document(bytes@),
    {
        parse_document(bytes)
    }

    /// The texts among the items of an array, in their order; none for any
    /// other value.
    pub fn texts(&self) -> (r: Vec<String>)
        ensures
            r.deep_view() == match self@ {
                JsonModel::Array(items) => texts_of(items),
                _ => Seq::empty(),
            },
    {
        let mut out: Vec<String> = Vec::new();
        match self {
            JsonValue::Array(items) => {
                proof {
                    lemma_view_array(*items);
                }
                let mut i: usize = 0;
                assert(self@->Array_0.take(0) =~= Seq::<JsonModel>::empty());
                while i < items.len()
                    invariant
                        i <= items.len(),
                        self@ is Array,
                        self@->Array_0.len() == items@.len(),
                        forall|k: int|
                            0 <= k < items@.len() ==> #[trigger] self@->Array_0[k] == items@[k]@,
                        out.deep_view() == texts_of(self@->Array_0.take(i as int)),
                    decreases items.len() - i,
                {
                    let ghost prefix = self@->Array_0.take(i + 1);
                    assert(prefix.drop_last() =~= self@->Array_0.take(i as int));
                    assert(prefix.last() == items@[i as int]@);
                    match &items[i] {
                        JsonValue::Text(s) => {
                            let ghost before = out.deep_view();
                            out.push(s.clone());
                            assert(out.deep_view() =~= before.push(s@));
                        },
                        _ => {},
                    }
                    i += 1;
                }
                assert(self@->Array_0.take(i as int) =~= self@->Array_0);
            },
            _ => {
                assert(out.deep_view() =~= Seq::<Seq<char>>::empty());
            },
        }
        out
    }

    /// The member `key` of an object.
    pub fn get(&self, key: &str) -> (r: Option<&JsonValue>)
        ensures
            r.deep_view() == self@.get(key@),
    {
        match self {
            JsonValue::Object(members) => {
                let mut i: usize = 0;
                assert(self@->Object_0.skip(0) =~= self@->Object_0);
                while i < members.len()
                    invariant
                        i <= members.len(),
                        self@ is Object,
                        self@->Object_0.len() == members@.len(),
                        forall|k: int|
                            0 <= k < members@.len() ==> #[trigger] self@->Object_0[k] == (
                                members@[k].0@,
                                members@[k].1@,
                            ),
                        member_value(self@->Object_0, key@) == member_value(
                            self@->Object_0.skip(i as int),
                            key@,
                        ),
                    decreases members.len() - i,
                {
                    let ghost rest = self@->Object_0.skip(i as int);
                    assert(rest.first() == self@->Object_0[i as int]);
                    assert(rest.drop_first() =~= self@->Object_0.skip(i + 1));
                    if str_eq(members[i].0.as_str(), key) {
                        return Some(&members[i].1);
                    }
                    i += 1;
                }
                None
            },
            _ => None,
        }
    }

    /// The characters of a text value.
    pub fn as_str(&self) -> (r: Option<&str>)
        ensures
            r.deep_view() == self@.as_str(),
    {
        match self {
            JsonValue::Text(s) => Some(s.as_str()),
            _ => None,
        }
    }

    /// The value of a boolean.
    pub fn as_bool(&self) -> (r: Option<bool>)
        ensures
            r == self@.as_bool(),
    {
        match self {
            JsonValue::Bool(b) => Some(*b),
            _ => None,
        }
    }

    /// The value of a number that fits a `u64`.
    pub fn as_u64(&self) -> (r: Option<u64>)
        ensures
            r == self@.as_u64(),
    {
        match self {
            JsonValue::Number(JsonNumber::PosInt(n)) => Some(*n),
            _ => None,
        }
    }

    /// The items of an array.
    pub fn as_array(&self) -> (r: Option<&Vec<JsonValue>>)
        ensures
            r.deep_view() == self@.as_array(),
    {
        match self {
            JsonValue::Array(items) => {
                assert(items.deep_view() =~= self@->Array_0);
                Some(items)
            },
            _ => None,
        }
    }

    /// The text at member `key`.
    pub fn text_at(&self, key: &str) -> (r: Option<&str>)
        ensures
            r.deep_view() == self@.text_at(key@),
    {
        match self.get(key) {
            Some(v) => v.as_str(),
            None => None,
        }
    }

    /// An object of the members whose key is none of `keys`.
    pub fn without(&self, keys: &[&str]) -> (r: JsonValue)
        ensures
            r@ == self@.without(keys.deep_view()),
    {
        let mut out: Vec<(String, JsonValue)> = Vec::new();
        match self {
            JsonValue::Object(members) => {
                proof {
                    lemma_view_object(*members);
                    lemma_view_object(out);
                }
                let ghost all = self@->Object_0;
                let mut i: usize = 0;
                assert(JsonValue::Object(out)@->Object_0 =~= members_without(
                    all.take(0),
                    keys.deep_view(),
                ));
                while i < members.len()
                    invariant
                        i <= members.len(),
                        all.len() == members@.len(),
                        forall|k: int|
                            0 <= k < members@.len() ==> #[trigger] all[k] == (
                                members@[k].0@,
                                members@[k].1@,
                            ),
                        JsonValue::Object(out)@ is Object,
                        JsonValue::Object(out)@->Object_0 == members_without(
                            all.take(i as int),
                            keys.deep_view(),
                        ),
                    decreases members.len() - i,
                {
                    proof {
                        let prefix = all.take(i + 1);
                        assert(prefix.last() == all[i as int]);
                        assert(prefix.drop_last() =~= all.take(i as int));
                    }
                    let mut listed = false;
                    let mut j: usize = 0;
                    while j < keys.len()
                        invariant
                            j <= keys.len(),
                            i < members.len(),
                            listed == exists|k: int|
                                0 <= k < j && #[trigger] keys.deep_view()[k] == members@[i as int].0@,
                        decreases keys.len() - j,
                    {
                        assert(keys.deep_view()[j as int] == keys@[j as int]@);
                        if str_eq(keys[j], members[i].0.as_str()) {
                            listed = true;
                        }
                        j += 1;
                    }
                    if !listed {
                        let ghost before = JsonValue::Object(out)@->Object_0;
                        proof {
                            lemma_view_object(out);
                        }
                        let value = members[i].1.duplicate();
                        out.push((members[i].0.clone(), value));
                        proof {
                            lemma_view_object(out);
                            assert(JsonValue::Object(out)@->Object_0 =~= before.push(
                                all[i as int],
                            ));
                        }
                    }
                    i += 1;
                }
                assert(all.take(i as int) =~= all);
            },
            _ => {
                proof {
                    lemma_view_object(out);
                }
                assert(JsonValue::Object(out)@->Object_0 =~= Seq::empty());
            },
        }
        JsonValue::Object(out)
    }

    /// The text at a member that may be left out.
    pub fn optional_text_at(&self, key: &str) -> (r: Option<Option<String>>)
        ensures
            r.deep_view() == self@.optional_text_at(key@),
    {
        match self.get(key) {
            None => Some(None),
            Some(JsonValue::Null) => Some(None),
            Some(JsonValue::Text(s)) => Some(Some(s.clone())),
            Some(_) => None,
        }
    }

    /// A copy of this document.
    pub fn duplicate(&self) -> (r: JsonValue)
        ensures
            r@ == self@,
        decreases self,
    {
        match self {
            JsonValue::Null => JsonValue::Null,
            JsonValue::Bool(b) => JsonValue::Bool(*b),
            JsonValue::Number(n) => JsonValue::Number(n.duplicate()),
            JsonValue::Text(s) => JsonValue::Text(s.clone()),
            JsonValue::Array(items) => {
                let mut out: Vec<JsonValue> = Vec::new();
                let mut i: usize = 0;
                while i < items.len()
                    invariant
                        i <= items.len(),
                        out.len() == i,
                        *self == JsonValue::Array(*items),
                        forall|k: int| 0 <= k < i ==> #[trigger] out@[k].model() == items@[k].model(),
                    decreases items.len() - i,
                {
                    proof {
                        lemma_child_height(*self, i as int);
                    }
                    let item = items[i].duplicate();
                    out.push(item);
                    i += 1;
                }
                proof {
                    lemma_view_array(out);
                    lemma_view_array(*items);
                }
                let r = JsonValue::Array(out);
                assert(r@->Array_0 =~= self@->Array_0);
                r
            },
            JsonValue::Object(members) => {
                let mut out: Vec<(String, JsonValue)> = Vec::new();
                let mut i: usize = 0;
                while i < members.len()
                    invariant
                        i <= members.len(),
                        out.len() == i,
                        *self == JsonValue::Object(*members),
                        forall|k: int|
                            0 <= k < i ==> (#[trigger] out@[k]).0@ == members@[k].0@
                                && out@[k].1.model() == members@[k].1.model(),
                    decreases members.len() - i,
                {
                    proof {
                        lemma_child_height(*self, i as int);
                    }
                    let value = members[i].1.duplicate();
                    out.push((members[i].0.clone(), value));
                    i += 1;
                }
                proof {
                    lemma_view_object(out);
                    lemma_view_object(*members);
                }
                let r = JsonValue::Object(out);
                assert(r@->Object_0 =~= self@->Object_0);
                r
            },
        }
    }
}

} // verus!
