//! Encoding the committed pairs as a single-line textual object, through
//! the object map and serializer of serde_json.

use vstd::prelude::*;
use crate::app::{App, map_of_pairs};

verus! {

#[verifier::external_type_specification]
#[verifier::external_body]
#[verifier::reject_recursive_types(K)]
#[verifier::reject_recursive_types(V)]
pub struct ExJsonMap<K, V>(serde_json::Map<K, V>);

#[verifier::external_type_specification]
#[verifier::external_body]
pub struct ExJsonValue(serde_json::Value);

#[verifier::external_type_specification]
#[verifier::external_body]
pub struct ExJsonError(serde_json::Error);

/// The object map serde_json builds values from, with string keys.
pub type JsonObj = serde_json::Map<String, serde_json::Value>;

/// The string-to-string entries a serde_json object map holds.
pub uninterp spec fn json_obj_entries(m: JsonObj) -> Map<Seq<char>, Seq<char>>;

/// The text serde_json emits for an object map of string values with the
/// given entries.
pub uninterp spec fn json_object_text(entries: Map<Seq<char>, Seq<char>>) -> Seq<char>;

/// Whether every value the object map holds is a string.
pub uninterp spec fn obj_all_strings(m: JsonObj) -> bool;

/// The entries of an object map no pair was put into.
pub open spec fn no_entries() -> Map<Seq<char>, Seq<char>> {
    Map::empty()
}

/// Relies on serde_json::Map::new: the new object map holds no entries.
#[verifier::external_body]
fn json_map_new() -> (m: JsonObj)
    ensures
        json_obj_entries(m) == no_entries(),
        obj_all_strings(m),
{
    serde_json::Map::new()
}

/// Relies on serde_json::Map::insert: the entry for `k` becomes `v`,
/// overwriting a present key and adding an absent one.
#[verifier::external_body]
fn json_map_insert(m: &mut JsonObj, k: String, v: String)
    ensures
        json_obj_entries(*final(m)) == json_obj_entries(*old(m)).insert(k@, v@),
        obj_all_strings(*old(m)) ==> obj_all_strings(*final(m)),
{
    m.insert(k, serde_json::Value::String(v));
}

/// Relies on serde_json::to_string: serializing an object map of string
/// values to the in-memory writer constructs no error, so the call
/// returns Ok; and the default object map keeps its entries ordered by
/// key, so the emitted text is a function of the entries alone.
#[verifier::external_body]
fn json_map_to_string(m: &JsonObj) -> (r: Result<String, serde_json::Error>)
    requires
        obj_all_strings(*m),
    ensures
        r is Ok,
        r matches Ok(s) ==> s@ == json_object_text(json_obj_entries(*m)),
{
    serde_json::to_string(m)
}

/// Failure while encoding the pair store.  The store only ever holds
/// strings, which the encoder cannot fail on, so no operation of the
/// library produces this error.
#[derive(Clone, Copy, PartialEq, Eq, Structural, Debug)]
pub struct EncodeError;

impl App {
    /// Encode the pair store as a single-line textual object: the call
    /// succeeds, and the text is the encoding of exactly the committed
    /// pairs.
    pub fn to_json_string(&self) -> (r: Result<String, EncodeError>)
        ensures
            r is Ok,
            r matches Ok(s) ==> s@ == json_object_text(self@.pairs),
    {
        let mut obj = json_map_new();
        let n: usize = self.pairs.len();
        let mut i: usize = 0;
        while i < n
            invariant
                n == self.pairs@.len(),
                i <= n,
                obj_all_strings(obj),
                json_obj_entries(obj) == map_of_pairs(self.pairs@.take(i as int)),
            decreases n - i,
        {
            proof {
                let ps = self.pairs@;
                assert(ps.take(i + 1).drop_last() =~= ps.take(i as int));
                assert(ps.take(i + 1).last() == ps[i as int]);
            }
            let entry_key = self.pairs[i].0.clone();
            let entry_value = self.pairs[i].1.clone();
            json_map_insert(&mut obj, entry_key, entry_value);
            i += 1;
        }
        proof {
            assert(self.pairs@.take(n as int) =~= self.pairs@);
        }
        match json_map_to_string(&obj) {
            Ok(s) => Ok(s),
            Err(_) => Err(EncodeError),
        }
    }
}

} // verus!
