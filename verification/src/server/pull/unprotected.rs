//! The part of a manifest that its signature does not cover, when a snapshot is
//! decrypted while it is pulled.

use vstd::prelude::*;

verus! {

/// `serde_json::Value`, any JSON value.
#[verifier::external_type_specification]
#[verifier::external_body]
pub struct ExJsonValue(serde_json::Value);

/// `serde_json::Map`, the members of a JSON object.
#[verifier::external_type_specification]
#[verifier::external_body]
#[verifier::reject_recursive_types(K)]
#[verifier::reject_recursive_types(V)]
pub struct ExJsonMap<K, V>(serde_json::Map<K, V>);

/// The members of a JSON object, each with its value as JSON text.
pub uninterp spec fn members(object: serde_json::Map<String, serde_json::Value>) -> Map<
    Seq<char>,
    Seq<char>,
>;

/// `serde_json::Map::remove` takes a member out of an object, if it is there.
/// Which value it hands back is not stated.
#[verifier::external_body]
fn remove_member(object: &mut serde_json::Map<String, serde_json::Value>, name: &str)
    ensures
        members(*final(object)) == members(*old(object)).remove(name@),
{
    object.remove(name);
}

/// Message if a manifest has no such part.
pub const MISSING_UNPROTECTED: &'static str =
    "Encountered unexpected manifest without 'unprotected' section.";

/// Members that do not hold for a decrypted snapshot.
pub open spec fn is_dropped(name: Seq<char>) -> bool {
    ||| name == "change-detection-fingerprint"@
    ||| name == "key-fingerprint"@
    ||| name == "verify_state"@
}

/// Drops what does not hold for a decrypted snapshot: the fingerprints, which
/// depend on the key, and the result of the last verification. The rest, such as
/// notes, is kept. `None` stands for a part that is no JSON object.
pub fn decrypted_unprotected(
    unprotected: Option<serde_json::Map<String, serde_json::Value>>,
) -> (r: Result<serde_json::Map<String, serde_json::Value>, &'static str>)
    ensures
        match r {
            Ok(kept) => unprotected is Some && members(kept) == members(unprotected->0).remove(
                "change-detection-fingerprint"@,
            ).remove("key-fingerprint"@).remove("verify_state"@),
            Err(message) => unprotected is None && message@ == MISSING_UNPROTECTED@,
        },
{
    match unprotected {
        Some(object) => {
            let mut kept = object;
            remove_member(&mut kept, "change-detection-fingerprint");
            remove_member(&mut kept, "key-fingerprint");
            remove_member(&mut kept, "verify_state");
            Ok(kept)
        },
        None => Err(MISSING_UNPROTECTED),
    }
}

/// A member is kept, with its value, exactly if it does not have to be dropped.
pub proof fn other_members_are_kept(before: Map<Seq<char>, Seq<char>>, name: Seq<char>)
    ensures
        ({
            let after = before.remove("change-detection-fingerprint"@).remove(
                "key-fingerprint"@,
            ).remove("verify_state"@);
            &&& after.dom().contains(name) == (before.dom().contains(name) && !is_dropped(name))
            &&& after.dom().contains(name) ==> after[name] == before[name]
        }),
{
}

} // verus!
