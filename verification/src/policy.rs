//! The door's access policy.

use vstd::prelude::*;
use crate::reader::{lookup, ElementValue, VerifiedResponse};

verus! {

/// The element that names the resource a credential grants access to.
pub const GRANTED_RESOURCE_ELEMENT: &'static str = "granted_resource";

/// The resource that this door opens for.
pub const DOOR_RESOURCE: &'static str = "dc:augsburg:maximilianviertel:backup";

/// Whether the response grants this door: its `granted_resource` element is
/// the text `DOOR_RESOURCE`.
pub open spec fn grants_door(elements: Seq<(String, ElementValue)>) -> bool {
    match lookup(elements, GRANTED_RESOURCE_ELEMENT@) {
        Some(ElementValue::Text(s)) => s@ == DOOR_RESOURCE@,
        _ => false,
    }
}

/// Whether the door unlocks for a verified response.
pub fn should_unlock(resp: &VerifiedResponse) -> (r: bool)
    ensures
        r == grants_door(resp.elements@),
        r == (lookup(resp.elements@, "granted_resource"@) matches Some(ElementValue::Text(s)) && s@
            == "dc:augsburg:maximilianviertel:backup"@),
{
    match resp.get(GRANTED_RESOURCE_ELEMENT) {
        Some(ElementValue::Text(s)) => {
            let expected = String::from_str(DOOR_RESOURCE);
            *s == expected
        },
        _ => false,
    }
}

/// The resource to show on access: the text of the `granted_resource`
/// element, or `DOOR_RESOURCE` when there is none.
pub fn granted_resource(resp: &VerifiedResponse) -> (r: String)
    ensures
        match lookup(resp.elements@, GRANTED_RESOURCE_ELEMENT@) {
            Some(ElementValue::Text(s)) => r@ == s@,
            _ => r@ == DOOR_RESOURCE@,
        },
{
    match resp.get(GRANTED_RESOURCE_ELEMENT) {
        Some(ElementValue::Text(s)) => s.clone(),
        _ => String::from_str(DOOR_RESOURCE),
    }
}

/// Only this door's resource, exactly, opens it: the door grants a
/// response exactly when its first `granted_resource` element is the text
/// "dc:augsburg:maximilianviertel:backup"; any other text (one that shares
/// a prefix with it too), a boolean, another value or no such element
/// leaves it locked.
pub proof fn lemma_only_exact_resource_unlocks(elements: Seq<(String, ElementValue)>)
    ensures
        grants_door(elements) <==> (lookup(elements, "granted_resource"@) matches Some(
            ElementValue::Text(s),
        ) && s@ == "dc:augsburg:maximilianviertel:backup"@),
{
}

/// A resource that differs from this door's in any character, or in
/// length, does not open it.
pub proof fn lemma_other_resource_stays_locked(elements: Seq<(String, ElementValue)>, s: String)
    requires
        lookup(elements, "granted_resource"@) == Some(ElementValue::Text(s)),
        s@ != "dc:augsburg:maximilianviertel:backup"@,
    ensures
        !grants_door(elements),
{
}

} // verus!
