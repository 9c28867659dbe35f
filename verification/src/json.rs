//! A decoded JSON document, and the way from a Vault answer to the object
//! that holds the secret.
//!
//! Decoding is `serde_json`'s work. What it hands back is copied, level by
//! level, into the `Json` of this module, on which everything else works.

use crate::error::VaultError;
use crate::version::KvVersion;
use vstd::prelude::*;
use vstd::string::*;

verus! {

/// `serde_json::Value`, a decoded document. Nothing inside it is seen here:
/// what it holds is spoken of through `value_model`.
#[verifier::external_type_specification]
#[verifier::external_body]
pub struct ExValue(serde_json::Value);

/// `serde_json::Error`, the reason why a body was not decoded. It is carried,
/// never looked into: every refusal is a `MalformedResponse`.
#[verifier::external_type_specification]
#[verifier::external_body]
pub struct ExJsonError(serde_json::Error);

/// A JSON value. A number is kept without its value: no part of a secret's
/// envelope is read as one.
#[derive(Debug, PartialEq, Eq)]
pub enum Json {
    Null,
    Bool(bool),
    Number,
    Text(String),
    Array(Vec<Json>),
    /// The members in the order in which the document was walked. Where a key
    /// stands twice, the later member is the one that counts.
    Object(Vec<(String, Json)>),
}

/// The mathematical value of a JSON document.
pub enum JsonModel {
    Null,
    Bool(bool),
    Number,
    Text(Seq<char>),
    Array(Seq<JsonModel>),
    Object(Seq<(Seq<char>, JsonModel)>),
}

impl View for Json {
    type V = JsonModel;

    open spec fn view(&self) -> JsonModel
        decreases self,
    {
        match self {
            Json::Null => JsonModel::Null,
            Json::Bool(b) => JsonModel::Bool(*b),
            Json::Number => JsonModel::Number,
            Json::Text(text) => JsonModel::Text(text@),
            Json::Array(items) => JsonModel::Array(
                Seq::new(
                    items@.len(),
                    |i: int|
                        if 0 <= i < items@.len() {
                            items@[i]@
                        } else {
                            JsonModel::Null
                        },
                ),
            ),
            Json::Object(members) => JsonModel::Object(member_models(members@)),
        }
    }
}

/// The members of an object, each with the text of its key and the model of
/// its value.
pub open spec fn member_models(members: Seq<(String, Json)>) -> Seq<(Seq<char>, JsonModel)>
    decreases members,
{
    Seq::new(
        members.len(),
        |i: int|
            if 0 <= i < members.len() {
                (members[i].0@, members[i].1@)
            } else {
                (Seq::<char>::empty(), JsonModel::Null)
            },
    )
}

/// The document that a `serde_json::Value` holds.
pub uninterp spec fn value_model(value: serde_json::Value) -> JsonModel;

/// What `serde_json::from_slice` makes of a body: the document, or `None`
/// where it reports an error.
pub uninterp spec fn decoded_json(body: Seq<u8>) -> Option<JsonModel>;

/// One level of a `serde_json::Value`: its kind and, by reference, what it
/// holds. The values inside an array or an object are not opened.
enum Opened<'a> {
    Null,
    Bool(bool),
    Number,
    Text(&'a str),
    Array(&'a Vec<serde_json::Value>),
    Object(Vec<(&'a String, &'a serde_json::Value)>),
}

/// The document of which `opened` is the top level.
spec fn opened_model(opened: Opened) -> JsonModel {
    match opened {
        Opened::Null => JsonModel::Null,
        Opened::Bool(b) => JsonModel::Bool(b),
        Opened::Number => JsonModel::Number,
        Opened::Text(text) => JsonModel::Text(text@),
        Opened::Array(items) => JsonModel::Array(
            Seq::new(items@.len(), |i: int| value_model(items@[i])),
        ),
        Opened::Object(members) => JsonModel::Object(
            Seq::new(members@.len(), |i: int| (members@[i].0@, value_model(*members@[i].1))),
        ),
    }
}

/// `serde_json::from_slice`, asked for a `Value`. The same bytes always give
/// the same outcome, which `decoded_json` names; nothing more is claimed.
#[verifier::external_body]
fn value_from_slice(body: &[u8]) -> (decoded: Result<serde_json::Value, serde_json::Error>)
    ensures
        match decoded {
            Ok(value) => decoded_json(body@) == Some(value_model(value)),
            Err(_) => decoded_json(body@) is None,
        },
{
    serde_json::from_slice::<serde_json::Value>(body)
}

/// Tells the variants of a `serde_json::Value` apart and hands out, by
/// reference, what the variant holds: the document of the value is the one
/// with this top level. The members of an object come in the order in which
/// `serde_json::Map::iter` walks them. A number's value is left behind.
#[verifier::external_body]
fn open_value<'a>(value: &'a serde_json::Value) -> (opened: Opened<'a>)
    ensures
        value_model(*value) == opened_model(opened),
{
    match value {
        serde_json::Value::Null => Opened::Null,
        serde_json::Value::Bool(b) => Opened::Bool(*b),
        serde_json::Value::Number(_) => Opened::Number,
        serde_json::Value::String(text) => Opened::Text(text),
        serde_json::Value::Array(items) => Opened::Array(items),
        serde_json::Value::Object(members) => Opened::Object(members.iter().collect()),
    }
}

/// Copies a decoded value, level by level, into a `Json`.
fn json_of(value: &serde_json::Value) -> (json: Json)
    ensures
        json@ == value_model(*value),
    decreases value_model(*value),
{
    match open_value(value) {
        Opened::Null => Json::Null,
        Opened::Bool(b) => Json::Bool(b),
        Opened::Number => Json::Number,
        Opened::Text(text) => Json::Text(String::from_str(text)),
        Opened::Array(items) => {
            let ghost models = Seq::new(items@.len(), |i: int| value_model(items@[i]));
            let mut copied: Vec<Json> = Vec::new();
            let mut index: usize = 0;
            while index < items.len()
                invariant
                    index <= items.len(),
                    copied@.len() == index,
                    value_model(*value) == JsonModel::Array(models),
                    models == Seq::new(items@.len(), |i: int| value_model(items@[i])),
                    forall|k: int| 0 <= k < index ==> (#[trigger] copied@[k])@ == models[k],
                decreases items.len() - index,
            {
                proof {
                    assert(models[index as int] == value_model(items@[index as int]));
                    let whole = value_model(*value);
                    assert(whole->Array_0 == models);
                    assert(decreases_to!(whole => whole->Array_0));
                    assert(decreases_to!(whole->Array_0 => whole->Array_0[index as int]));
                }
                let item = json_of(&items[index]);
                copied.push(item);
                index = index + 1;
            }
            let json = Json::Array(copied);
            assert(json@ == JsonModel::Array(models)) by {
                assert(json@->Array_0 =~= models);
            }
            json
        },
        Opened::Object(members) => {
            let ghost models = Seq::new(
                members@.len(),
                |i: int| (members@[i].0@, value_model(*members@[i].1)),
            );
            let mut copied: Vec<(String, Json)> = Vec::new();
            let mut index: usize = 0;
            while index < members.len()
                invariant
                    index <= members.len(),
                    copied@.len() == index,
                    value_model(*value) == JsonModel::Object(models),
                    models == Seq::new(
                        members@.len(),
                        |i: int| (members@[i].0@, value_model(*members@[i].1)),
                    ),
                    forall|k: int|
                        0 <= k < index ==> (#[trigger] copied@[k]).0@ == models[k].0 && copied@[k].1@
                            == models[k].1,
                decreases members.len() - index,
            {
                proof {
                    assert(models[index as int].1 == value_model(*members@[index as int].1));
                    let whole = value_model(*value);
                    assert(whole->Object_0 == models);
                    assert(decreases_to!(whole => whole->Object_0));
                    assert(decreases_to!(whole->Object_0 => whole->Object_0[index as int]));
                    assert(decreases_to!(whole->Object_0[index as int] => whole->Object_0[index
                        as int].1));
                }
                let key = members[index].0.clone();
                let item = json_of(members[index].1);
                copied.push((key, item));
                index = index + 1;
            }
            let json = Json::Object(copied);
            assert(json@ == JsonModel::Object(models)) by {
                assert forall|k: int| 0 <= k < models.len() implies member_models(copied@)[k]
                    == models[k] by {
                    assert(copied@[k].0@ == models[k].0);
                }
                assert(member_models(copied@) =~= models);
            }
            json
        },
    }
}

/// Decodes a body as JSON. `None` says that the body is no JSON text.
pub fn decode(body: &[u8]) -> (json: Option<Json>)
    ensures
        match json {
            Some(json) => decoded_json(body@) == Some(json@),
            None => decoded_json(body@) is None,
        },
{
    match value_from_slice(body) {
        Ok(value) => Some(json_of(&value)),
        Err(_) => None,
    }
}

/// The value that an object holds under `key`: that of the last member with
/// this key, or `None` if there is no such member.
pub open spec fn member_of(members: Seq<(Seq<char>, JsonModel)>, key: Seq<char>) -> Option<
    JsonModel,
>
    decreases members.len(),
{
    if members.len() == 0 {
        None
    } else if members.last().0 == key {
        Some(members.last().1)
    } else {
        member_of(members.drop_last(), key)
    }
}

/// The characters `data`, the key under which Vault keeps a secret.
pub open spec fn data_key() -> Seq<char> {
    seq!['d', 'a', 't', 'a']
}

/// The members of the object under `data`, if `json` is an object that holds
/// one there.
pub open spec fn data_object(json: JsonModel) -> Option<Seq<(Seq<char>, JsonModel)>> {
    match json {
        JsonModel::Object(members) => match member_of(members, data_key()) {
            Some(JsonModel::Object(inner)) => Some(inner),
            _ => None,
        },
        _ => None,
    }
}

/// The members of the object that holds the secret: the one under `data` for
/// KV1, and the one under `data` inside it for KV2. `None` where a key is
/// missing on the way or what stands there is no object.
pub open spec fn payload_of(json: JsonModel, version: KvVersion) -> Option<
    Seq<(Seq<char>, JsonModel)>,
> {
    match data_object(json) {
        Some(outer) => match version {
            KvVersion::V1 => Some(outer),
            KvVersion::V2 => data_object(JsonModel::Object(outer)),
        },
        None => None,
    }
}

/// Looks `key` up among the members of an object.
pub fn member<'a>(members: &'a Vec<(String, Json)>, key: &str) -> (found: Option<&'a Json>)
    ensures
        match found {
            Some(json) => member_of(member_models(members@), key@) == Some(json@),
            None => member_of(member_models(members@), key@) is None,
        },
{
    let wanted = String::from_str(key);
    let mut index = members.len();
    assert(member_models(members@).take(index as int) =~= member_models(members@));
    while index > 0
        invariant
            index <= members.len(),
            wanted@ == key@,
            member_of(member_models(members@), key@) == member_of(
                member_models(members@).take(index as int),
                key@,
            ),
        decreases index,
    {
        index = index - 1;
        let ghost upto = member_models(members@).take(index + 1);
        assert(upto.drop_last() =~= member_models(members@).take(index as int));
        assert(upto.last() == (members[index as int].0@, members[index as int].1@));
        if members[index].0 == wanted {
            return Some(&members[index].1);
        }
    }
    None
}

/// The members of the object under `data`.
fn data_members<'a>(json: &'a Json) -> (found: Option<&'a Vec<(String, Json)>>)
    ensures
        match found {
            Some(members) => data_object(json@) == Some(member_models(members@)),
            None => data_object(json@) is None,
        },
{
    match json {
        Json::Object(members) => {
            proof {
                reveal_strlit("data");
                assert("data"@ =~= data_key());
            }
            match member(members, "data") {
                Some(Json::Object(inner)) => Some(inner),
                _ => None,
            }
        },
        _ => None,
    }
}

/// Finds the object that holds the secret in a decoded answer. The answer is
/// refused with `MissingPayload` where `data` is missing, at the one level
/// for KV1 or at either of the two for KV2, or where what stands there is no
/// object.
pub fn payload<'a>(json: &'a Json, version: KvVersion) -> (found: Result<
    &'a Vec<(String, Json)>,
    VaultError,
>)
    ensures
        match found {
            Ok(members) => payload_of(json@, version) == Some(member_models(members@)),
            Err(error) => error == VaultError::MissingPayload && payload_of(json@, version)
                is None,
        },
{
    let outer = match data_members(json) {
        Some(outer) => outer,
        None => {
            return Err(VaultError::MissingPayload);
        },
    };
    match version {
        KvVersion::V1 => Ok(outer),
        KvVersion::V2 => {
            match member(outer, "data") {
                Some(Json::Object(inner)) => {
                    proof {
                        reveal_strlit("data");
                        assert("data"@ =~= data_key());
                    }
                    Ok(inner)
                },
                _ => {
                    proof {
                        reveal_strlit("data");
                        assert("data"@ =~= data_key());
                    }
                    Err(VaultError::MissingPayload)
                },
            }
        },
    }
}

} // verus!
