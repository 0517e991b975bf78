//! Fresh identifiers for messages and reservations.

use vstd::prelude::*;
use crate::mq::message::ID_ATTEMPTS;

verus! {

/// The error of `objectid::ObjectId::new`, carried through as it is.
#[verifier::external_type_specification]
#[verifier::external_body]
pub struct ExObjectIdError(objectid::Error);

/// Whether a character is one of `0` to `9` or `a` to `f`.
pub open spec fn is_hex_digit(c: char) -> bool {
    ('0' <= c && c <= '9') || ('a' <= c && c <= 'f')
}

/// Whether a text has the form of an object id: twenty-four hexadecimal
/// digits in lower case.
pub open spec fn is_object_id(text: Seq<char>) -> bool {
    &&& text.len() == 24
    &&& forall|i: int| 0 <= i < text.len() ==> is_hex_digit(#[trigger] text[i])
}

/// Calls `objectid::ObjectId::new` and writes the id out with its
/// `to_string`. The id is made of the time, the host, the process and a
/// counter, so nothing is claimed of which id comes back, only of its form:
/// the twelve bytes are written as twenty-four hexadecimal digits in lower
/// case. The outside function fails where the host has no source of
/// randomness for its counter.
#[verifier::external_body]
pub(crate) fn generate() -> (id: Result<String, objectid::Error>)
    ensures
        id matches Ok(text) ==> is_object_id(text@),
{
    objectid::ObjectId::new().map(|id| id.to_string())
}

/// A fresh identifier, or `None` where none could be generated.
pub fn fresh_id() -> (id: Option<String>)
    ensures
        id matches Some(text) ==> is_object_id(text@),
{
    match generate() {
        Ok(text) => Some(text),
        Err(_) => None,
    }
}

/// Whether one of the ids is the given one.
pub fn is_taken(ids: &Vec<String>, id: &String) -> (taken: bool)
    ensures
        taken == exists|i: int| 0 <= i < ids.len() && (#[trigger] ids[i])@ == id@,
{
    let mut i: usize = 0;
    while i < ids.len()
        invariant
            i <= ids.len(),
            forall|k: int| 0 <= k < i ==> (#[trigger] ids[k])@ != id@,
        decreases ids.len() - i,
    {
        if ids[i] == *id {
            return true;
        }
        i = i + 1;
    }
    false
}

/// Whether no two texts of a list are the same.
pub open spec fn distinct(texts: Seq<Seq<char>>) -> bool {
    forall|i: int, j: int| 0 <= i < j < texts.len() ==> texts[i] != texts[j]
}

/// Fresh identifiers, as many as are asked for, no two of them the same;
/// or `None` where they could not be had. An identifier that was drawn
/// before is not used: another is asked for, a few times at most. Where
/// none is asked for, none is needed, and the empty list is returned.
pub fn fresh_distinct(count: usize) -> (ids: Option<Vec<String>>)
    ensures
        count == 0 ==> ids is Some,
        ids matches Some(list) ==> {
            &&& list.len() == count
            &&& forall|i: int| 0 <= i < list.len() ==> is_object_id((#[trigger] list[i])@)
            &&& distinct(list.deep_view())
        },
{
    let mut list: Vec<String> = Vec::new();
    while list.len() < count
        invariant
            list.len() <= count,
            forall|i: int| 0 <= i < list.len() ==> is_object_id((#[trigger] list[i])@),
            forall|i: int, j: int|
                0 <= i < j < list.len() ==> (#[trigger] list[i])@ != (#[trigger] list[j])@,
        decreases count - list.len(),
    {
        let mut found: Option<String> = None;
        let mut attempt: u32 = 0;
        while attempt < ID_ATTEMPTS && found.is_none()
            invariant
                attempt <= ID_ATTEMPTS,
                list.len() < count,
                found matches Some(id) ==> {
                    &&& is_object_id(id@)
                    &&& forall|i: int| 0 <= i < list.len() ==> (#[trigger] list[i])@ != id@
                },
            decreases ID_ATTEMPTS - attempt,
        {
            attempt = attempt + 1;
            match fresh_id() {
                Some(candidate) => {
                    if !is_taken(&list, &candidate) {
                        found = Some(candidate);
                    }
                },
                None => { return None; },
            }
        }
        match found {
            Some(id) => { list.push(id); },
            None => { return None; },
        }
    }
    assert(distinct(list.deep_view())) by {
        assert forall|i: int, j: int| 0 <= i < j < list.len() implies list.deep_view()[i]
            != list.deep_view()[j] by {
            assert(list[i]@ != list[j]@);
        }
    }
    Some(list)
}

} // verus!
