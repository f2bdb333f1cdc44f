//! JSON values as the account list reads them, parsed by `serde_json`.

use vstd::prelude::*;
use vstd::string::*;

verus! {

#[verifier::external_type_specification]
#[verifier::external_body]
pub struct ExJsonValue(serde_json::Value);

#[verifier::external_type_specification]
#[verifier::external_body]
pub struct ExJsonNumber(serde_json::Number);

#[verifier::external_type_specification]
#[verifier::external_body]
pub struct ExJsonError(serde_json::Error);

/// A parsed JSON value. Object members keep the order in which the parser
/// hands them out; numbers are carried through without being read.
pub enum JsonValue {
    Null,
    Bool(bool),
    Number(serde_json::Number),
    String(String),
    Array(Vec<JsonValue>),
    Object(Vec<(String, JsonValue)>),
}

/// The mathematical form of a [`JsonValue`]: strings as character sequences,
/// arrays and objects as sequences. A number is only known to be a number.
pub enum JsonModel {
    Null,
    Bool(bool),
    Number,
    String(Seq<char>),
    Array(Seq<JsonModel>),
    Object(Seq<(Seq<char>, JsonModel)>),
}

impl JsonValue {
    pub open spec fn model(&self) -> JsonModel
        decreases self,
    {
        match self {
            JsonValue::Null => JsonModel::Null,
            JsonValue::Bool(b) => JsonModel::Bool(*b),
            JsonValue::Number(_) => JsonModel::Number,
            JsonValue::String(s) => JsonModel::String(s@),
            JsonValue::Array(items) => JsonModel::Array(items_model(items@)),
            JsonValue::Object(members) => JsonModel::Object(members_model(members@)),
        }
    }
}

/// The models of `items`, in order.
pub open spec fn items_model(items: Seq<JsonValue>) -> Seq<JsonModel>
    decreases items,
{
    if items.len() == 0 {
        Seq::empty()
    } else {
        items_model(items.subrange(0, items.len() - 1)).push(items[items.len() - 1].model())
    }
}

/// The models of the members of an object, in order, with their names.
pub open spec fn members_model(members: Seq<(String, JsonValue)>) -> Seq<(Seq<char>, JsonModel)>
    decreases members,
{
    if members.len() == 0 {
        Seq::empty()
    } else {
        members_model(members.subrange(0, members.len() - 1)).push(
            (members[members.len() - 1].0@, members[members.len() - 1].1.model()),
        )
    }
}


/// Each member's model is the model of that member.
pub proof fn lemma_members_model(members: Seq<(String, JsonValue)>)
    ensures
        members_model(members).len() == members.len(),
        forall|i: int|
            0 <= i < members.len() ==> #[trigger] members_model(members)[i] == (
                members[i].0@,
                members[i].1.model(),
            ),
    decreases members.len(),
{
    if members.len() > 0 {
        lemma_members_model(members.subrange(0, members.len() - 1));
    }
}

/// The value of the first member of `members` named `key`.
pub open spec fn member_named(members: Seq<(Seq<char>, JsonModel)>, key: Seq<char>) -> Option<
    JsonModel,
>
    decreases members.len(),
{
    if members.len() == 0 {
        None
    } else if members[0].0 == key {
        Some(members[0].1)
    } else {
        member_named(members.drop_first(), key)
    }
}

/// Looking a key up among an object's members gives the value of the first
/// member with that name, and nothing when no member has it.
pub proof fn law_member_lookup(members: Seq<(Seq<char>, JsonModel)>, key: Seq<char>)
    ensures
        (forall|i: int| 0 <= i < members.len() ==> (#[trigger] members[i]).0 != key)
            ==> member_named(members, key) is None,
        forall|i: int|
            0 <= i < members.len() && (#[trigger] members[i]).0 == key && (forall|j: int|
                0 <= j < i ==> members[j].0 != key) ==> member_named(members, key) == Some(
                members[i].1,
            ),
{
    if forall|i: int| 0 <= i < members.len() ==> (#[trigger] members[i]).0 != key {
        lemma_member_named_first(members, key, members.len() as int);
    }
    assert forall|i: int|
        0 <= i < members.len() && (#[trigger] members[i]).0 == key && (forall|j: int|
            0 <= j < i ==> members[j].0 != key) implies member_named(members, key) == Some(
        members[i].1,
    ) by {
        assert forall|j: int| 0 <= j < i implies (#[trigger] members[j]).0 != key by {}
        lemma_member_named_first(members, key, i);
    }
}

/// What `Value::get` with a string key gives: the named member of an object,
/// nothing for any other value.
pub open spec fn json_get(value: JsonModel, key: Seq<char>) -> Option<JsonModel> {
    match value {
        JsonModel::Object(members) => member_named(members, key),
        _ => None,
    }
}

/// What `Value::as_str` gives: the text of a string, nothing otherwise.
pub open spec fn json_as_str(value: Option<JsonModel>) -> Option<Seq<char>> {
    match value {
        Some(JsonModel::String(s)) => Some(s),
        _ => None,
    }
}

proof fn lemma_member_named_first(members: Seq<(Seq<char>, JsonModel)>, key: Seq<char>, i: int)
    requires
        0 <= i <= members.len(),
        forall|j: int| 0 <= j < i ==> (#[trigger] members[j]).0 != key,
    ensures
        i < members.len() && members[i].0 == key ==> member_named(members, key) == Some(
            members[i].1,
        ),
        i == members.len() ==> member_named(members, key) is None,
    decreases i,
{
    if i > 0 {
        let rest = members.drop_first();
        assert forall|j: int| 0 <= j < i - 1 implies (#[trigger] rest[j]).0 != key by {
            assert(rest[j] == members[j + 1]);
        }
        assert(members[0].0 != key);
        lemma_member_named_first(rest, key, i - 1);
    }
}

impl JsonValue {
    /// The member named `key` of an object; `None` for anything else.
    pub fn get(&self, key: &str) -> (r: Option<&JsonValue>)
        ensures
            match r {
                Some(v) => json_get(self.model(), key@) == Some(v.model()),
                None => json_get(self.model(), key@) is None,
            },
    {
        match self {
            JsonValue::Object(members) => {
                let key_text = String::from_str(key);
                let ghost model = members_model(members@);
                proof {
                    lemma_members_model(members@);
                }
                assert(self.model() == JsonModel::Object(model));
                let mut i: usize = 0;
                while i < members.len()
                    invariant
                        i <= members.len(),
                        key_text@ == key@,
                        model == members_model(members@),
                        self.model() == JsonModel::Object(model),
                        model.len() == members@.len(),
                        forall|k: int|
                            0 <= k < members@.len() ==> #[trigger] model[k] == (
                                members@[k].0@,
                                members@[k].1.model(),
                            ),
                        forall|j: int| 0 <= j < i ==> (#[trigger] model[j]).0 != key@,
                    decreases members.len() - i,
                {
                    if members[i].0 == key_text {
                        proof {
                            assert(model[i as int] == (
                                members@[i as int].0@,
                                members@[i as int].1.model(),
                            ));
                            lemma_member_named_first(model, key@, i as int);
                        }
                        return Some(&members[i].1);
                    }
                    i = i + 1;
                }
                proof {
                    lemma_member_named_first(model, key@, i as int);
                }
                None
            },
            _ => None,
        }
    }

    /// The text of a string value; `None` for anything else.
    pub fn as_str(&self) -> (r: Option<&str>)
        ensures
            match r {
                Some(s) => json_as_str(Some(self.model())) == Some(s@),
                None => json_as_str(Some(self.model())) is None,
            },
    {
        match self {
            JsonValue::String(s) => Some(s.as_str()),
            _ => None,
        }
    }
}

/// The JSON document that `serde_json` reads from `text`, or `None` where
/// it refuses the text.
pub uninterp spec fn json_document(text: Seq<char>) -> Option<JsonModel>;

/// `serde_json::from_str::<serde_json::Value>`: parses `text` as one JSON
/// document. Claimed of it: it succeeds exactly where the named document
/// exists, and what it returns is that document, which depends on the text
/// alone. The JSON grammar itself is left to `serde_json` and not restated.
#[verifier::external_body]
pub(crate) fn parse_json(text: &str) -> (r: Result<JsonValue, serde_json::Error>)
    ensures
        match r {
            Ok(v) => json_document(text@) == Some(v.model()),
            Err(_) => json_document(text@) is None,
        },
{
    serde_json::from_str::<serde_json::Value>(text).map(JsonValue::from_serde)
}

impl JsonValue {
    /// Moves a `serde_json::Value` into the library's own form, variant by
    /// variant, keeping the order in which `serde_json` hands out the members
    /// of an object. It reads nothing and decides nothing.
    #[verifier::external_body]
    fn from_serde(v: serde_json::Value) -> JsonValue {
        match v {
            serde_json::Value::Null => JsonValue::Null,
            serde_json::Value::Bool(b) => JsonValue::Bool(b),
            serde_json::Value::Number(n) => JsonValue::Number(n),
            serde_json::Value::String(s) => JsonValue::String(s),
            serde_json::Value::Array(a) => JsonValue::Array(a.into_iter().map(JsonValue::from_serde).collect()),
            serde_json::Value::Object(o) => JsonValue::Object(o.into_iter().map(|(k, x)| (k, JsonValue::from_serde(x))).collect()),
        }
    }
}

} // verus!
