//! From a Vault answer to the secret document: the status is judged, the
//! body is decoded, the envelope is unwrapped and the payload is flattened.

use crate::error::VaultError;
use crate::json::{
    data_key, data_object, decode, decoded_json, member_models, member_of, payload, payload_of,
    Json, JsonModel,
};
use crate::secret::{pairs_map, Secret};
use crate::version::KvVersion;
use vstd::prelude::*;

verus! {

/// Every member's value is a string.
pub open spec fn all_text(members: Seq<(Seq<char>, JsonModel)>) -> bool {
    forall|i: int| 0 <= i < members.len() ==> #[trigger] members[i].1 is Text
}

/// The members as pairs of key and string value. A member whose value is no
/// string stands with the empty text, and is of no account where `all_text`
/// holds.
pub open spec fn text_pairs(members: Seq<(Seq<char>, JsonModel)>) -> Seq<(Seq<char>, Seq<char>)> {
    Seq::new(
        members.len(),
        |i: int|
            (
                members[i].0,
                match members[i].1 {
                    JsonModel::Text(text) => text,
                    _ => Seq::<char>::empty(),
                },
            ),
    )
}

/// The document that a payload spells out, or `UnsupportedValueType` where
/// one of its values is no string.
pub open spec fn flattened(members: Seq<(Seq<char>, JsonModel)>) -> Result<
    Map<Seq<char>, Seq<char>>,
    VaultError,
> {
    if all_text(members) {
        Ok(pairs_map(text_pairs(members)))
    } else {
        Err(VaultError::UnsupportedValueType)
    }
}

/// The secret in a decoded answer.
pub open spec fn secret_of(json: JsonModel, version: KvVersion) -> Result<
    Map<Seq<char>, Seq<char>>,
    VaultError,
> {
    match payload_of(json, version) {
        Some(members) => flattened(members),
        None => Err(VaultError::MissingPayload),
    }
}

/// The secret in a body that came with a success status.
pub open spec fn body_outcome(body: Seq<u8>, version: KvVersion) -> Result<
    Map<Seq<char>, Seq<char>>,
    VaultError,
> {
    match decoded_json(body) {
        Some(json) => secret_of(json, version),
        None => Err(VaultError::MalformedResponse),
    }
}

/// A status from 200 to 299.
pub open spec fn is_success(status: u16) -> bool {
    200 <= status <= 299
}

/// The secret in an answer: a status outside 200 to 299 is a `RemoteError`
/// whatever the body holds.
pub open spec fn response_outcome(status: u16, body: Seq<u8>, version: KvVersion) -> Result<
    Map<Seq<char>, Seq<char>>,
    VaultError,
> {
    if is_success(status) {
        body_outcome(body, version)
    } else {
        Err(VaultError::RemoteError { status })
    }
}

/// An executable outcome agrees with a mathematical one: the same error, or
/// a document with that mapping as its view.
pub open spec fn agrees(
    outcome: Result<Secret, VaultError>,
    expected: Result<Map<Seq<char>, Seq<char>>, VaultError>,
) -> bool {
    match outcome {
        Ok(secret) => expected == Ok::<Map<Seq<char>, Seq<char>>, VaultError>(secret@),
        Err(error) => expected == Err::<Map<Seq<char>, Seq<char>>, VaultError>(error),
    }
}

/// Turns the members of a payload into a document: each key as it is, with
/// its string value. A value that is no string is refused, wherever it
/// stands, and then no document is handed out.
pub fn flatten(members: &Vec<(String, Json)>) -> (outcome: Result<Secret, VaultError>)
    ensures
        agrees(outcome, flattened(member_models(members@))),
{
    let ghost models = member_models(members@);
    let mut secret = Secret::new();
    let mut index: usize = 0;
    assert(text_pairs(models).take(0) =~= Seq::empty());
    while index < members.len()
        invariant
            index <= members.len(),
            models == member_models(members@),
            forall|i: int| 0 <= i < index ==> #[trigger] models[i].1 is Text,
            secret@ == pairs_map(text_pairs(models).take(index as int)),
        decreases members.len() - index,
    {
        assert(models[index as int] == (members[index as int].0@, members[index as int].1@));
        match &members[index].1 {
            Json::Text(text) => {
                let ghost upto = text_pairs(models).take(index + 1);
                assert(upto.drop_last() =~= text_pairs(models).take(index as int));
                assert(upto.last() == (members[index as int].0@, text@));
                secret.insert(members[index].0.clone(), text.clone());
            },
            _ => {
                assert(!(models[index as int].1 is Text));
                return Err(VaultError::UnsupportedValueType);
            },
        }
        index = index + 1;
    }
    assert(text_pairs(models).take(index as int) =~= text_pairs(models));
    Ok(secret)
}

/// Reads the secret out of a decoded answer.
pub fn extract_secret(json: &Json, version: KvVersion) -> (outcome: Result<Secret, VaultError>)
    ensures
        agrees(outcome, secret_of(json@, version)),
{
    match payload(json, version) {
        Ok(members) => flatten(members),
        Err(error) => Err(error),
    }
}

/// Reads the secret out of the body of an answer that came with a success
/// status. A body that is no JSON text is refused with `MalformedResponse`.
pub fn read_body(body: &[u8], version: KvVersion) -> (outcome: Result<Secret, VaultError>)
    ensures
        agrees(outcome, body_outcome(body@, version)),
{
    match decode(body) {
        Some(json) => extract_secret(&json, version),
        None => Err(VaultError::MalformedResponse),
    }
}

/// Judges the status of an answer before its body is read: a status outside
/// 200 to 299 is a `RemoteError` that carries it.
pub fn check_status(status: u16) -> (verdict: Result<(), VaultError>)
    ensures
        verdict is Ok <==> is_success(status),
        verdict is Err ==> verdict->Err_0 == (VaultError::RemoteError { status }),
{
    if 200 <= status && status <= 299 {
        Ok(())
    } else {
        Err(VaultError::RemoteError { status })
    }
}

/// Reads the secret out of an answer. With a status outside 200 to 299 the
/// answer is a `RemoteError` that carries the status, and the body is not
/// looked at.
pub fn read_response(status: u16, body: &[u8], version: KvVersion) -> (outcome: Result<
    Secret,
    VaultError,
>)
    ensures
        agrees(outcome, response_outcome(status, body@, version)),
{
    match check_status(status) {
        Ok(()) => read_body(body, version),
        Err(error) => Err(error),
    }
}

/// What an object holds under a key is the value of one of its members.
pub proof fn lemma_member_is_among(members: Seq<(Seq<char>, JsonModel)>, key: Seq<char>)
    requires
        member_of(members, key) is Some,
    ensures
        exists|i: int|
            0 <= i < members.len() && members[i].0 == key && #[trigger] members[i].1 == member_of(
                members,
                key,
            )->0,
    decreases members.len(),
{
    if members.last().0 == key {
        assert(members[members.len() - 1].1 == member_of(members, key)->0);
    } else {
        let shorter = members.drop_last();
        lemma_member_is_among(shorter, key);
        let i = choose|i: int|
            0 <= i < shorter.len() && shorter[i].0 == key && #[trigger] shorter[i].1 == member_of(
                shorter,
                key,
            )->0;
        assert(members[i].1 == member_of(members, key)->0);
    }
}

/// An empty payload is an empty document, not an error.
pub proof fn lemma_empty_payload_is_empty_secret()
    ensures
        flattened(Seq::<(Seq<char>, JsonModel)>::empty()) == Ok::<
            Map<Seq<char>, Seq<char>>,
            VaultError,
        >(Map::empty()),
{
    assert(text_pairs(Seq::<(Seq<char>, JsonModel)>::empty()) =~= Seq::empty());
}

/// An answer of the KV1 engine, read as one of the KV2 engine, is refused
/// with `MissingPayload`: the secret's values are strings, so no object
/// stands under a second `data`.
pub proof fn lemma_v1_answer_read_as_v2(json: JsonModel)
    requires
        secret_of(json, KvVersion::V1) is Ok,
    ensures
        secret_of(json, KvVersion::V2) == Err::<Map<Seq<char>, Seq<char>>, VaultError>(
            VaultError::MissingPayload,
        ),
{
    let outer = data_object(json)->0;
    if member_of(outer, data_key()) is Some {
        lemma_member_is_among(outer, data_key());
    }
}

/// An answer of the KV2 engine, read as one of the KV1 engine, gives no
/// document either: the object under the inner `data` is a value that is no
/// string, which is refused with `UnsupportedValueType`.
pub proof fn lemma_v2_answer_read_as_v1(json: JsonModel)
    requires
        payload_of(json, KvVersion::V2) is Some,
    ensures
        secret_of(json, KvVersion::V1) == Err::<Map<Seq<char>, Seq<char>>, VaultError>(
            VaultError::UnsupportedValueType,
        ),
{
    let outer = data_object(json)->0;
    lemma_member_is_among(outer, data_key());
}

/// Reading is repeatable: two outcomes of reading one answer are the same
/// error, or documents with the same mapping.
pub proof fn lemma_one_answer_one_outcome(
    first: Result<Secret, VaultError>,
    second: Result<Secret, VaultError>,
    status: u16,
    body: Seq<u8>,
    version: KvVersion,
)
    requires
        agrees(first, response_outcome(status, body, version)),
        agrees(second, response_outcome(status, body, version)),
    ensures
        match (first, second) {
            (Ok(one), Ok(other)) => one@ == other@,
            (Err(one), Err(other)) => one == other,
            _ => false,
        },
{
}

/// A status outside 200 to 299 decides alone: whatever the body and the
/// engine, the outcome is the `RemoteError` with that status.
pub proof fn lemma_refused_status_ignores_body(
    status: u16,
    body: Seq<u8>,
    other_body: Seq<u8>,
    version: KvVersion,
    other_version: KvVersion,
)
    requires
        !is_success(status),
    ensures
        response_outcome(status, body, version) == Err::<Map<Seq<char>, Seq<char>>, VaultError>(
            VaultError::RemoteError { status },
        ),
        response_outcome(status, body, version) == response_outcome(
            status,
            other_body,
            other_version,
        ),
{
}

} // verus!
