//! A structured document as a tree of plain values, and the reading of one
//! from text.

use vstd::prelude::*;
use vstd::string::StringExecFns;

verus! {

/// A value of a structured document.
///
/// A number keeps two readings, each where it was taken: `unsigned`, the
/// number as an unsigned integer of 64 bits, for a number that is written as
/// one; and `bits`, the encoding of the number as a binary64.
#[derive(Debug)]
pub enum Json {
    Null,
    Bool(bool),
    Number { unsigned: Option<u64>, bits: Option<u64> },
    Text(String),
    List(Vec<Json>),
    Object(Vec<(String, Json)>),
}

/// `serde_json::Value`, the tree as the parser holds it. What is inside is
/// read through [`lift`] alone.
#[verifier::external_type_specification]
#[verifier::external_body]
pub struct ExValue(serde_json::Value);

/// `serde_json::Error`, what the parser says of a text that it refuses.
#[verifier::external_type_specification]
#[verifier::external_body]
pub struct ExError(serde_json::Error);

/// What a `serde_json::Value` holds, as a tree of plain values.
pub uninterp spec fn tree_of(value: serde_json::Value) -> Json;

/// The tree that `serde_json::from_str` reads from a text, `None` where it
/// refuses the text as not well-formed.
pub uninterp spec fn document_tree(text: Seq<char>) -> Option<Json>;

/// Rewrites a `serde_json::Value` as a [`Json`], variant by variant. Of a
/// number it takes `Number::as_u64`, which is there for a number held as a
/// non-negative integer, and the encoding of `Number::as_f64`. The members of
/// an object come in the order in which its map walks them, each name once.
/// The result is what [`tree_of`] names.
#[verifier::external_body]
fn lift(value: &serde_json::Value) -> (r: Json)
    ensures
        r == tree_of(*value),
{
    match value {
        serde_json::Value::Null => Json::Null,
        serde_json::Value::Bool(b) => Json::Bool(*b),
        serde_json::Value::Number(n) => Json::Number {
            unsigned: n.as_u64(),
            bits: n.as_f64().map(|x| x.to_bits()),
        },
        serde_json::Value::String(s) => Json::Text(s.clone()),
        serde_json::Value::Array(a) => Json::List(a.iter().map(lift).collect()),
        serde_json::Value::Object(m) => Json::Object(
            m.iter().map(|(k, v)| (k.clone(), lift(v))).collect(),
        ),
    }
}

/// Calls `serde_json::from_str` for a `serde_json::Value`. The claim is that
/// the outcome depends on the text alone: a value that holds the tree that
/// [`document_tree`] names, or an error where there is none.
#[verifier::external_body]
fn read_text(text: &str) -> (r: Result<serde_json::Value, serde_json::Error>)
    ensures
        match r {
            Ok(value) => document_tree(text@) == Some(tree_of(value)),
            Err(_) => document_tree(text@).is_none(),
        },
{
    serde_json::from_str::<serde_json::Value>(text)
}

/// The value of the first member with the given name.
pub open spec fn find_member(members: Seq<(String, Json)>, key: Seq<char>) -> Option<Json>
    decreases members.len(),
{
    if members.len() == 0 {
        None
    } else if members[0].0@ == key {
        Some(members[0].1)
    } else {
        find_member(members.skip(1), key)
    }
}

/// A member is found at its index where no member before it has its name.
pub proof fn lemma_member_at(members: Seq<(String, Json)>, key: Seq<char>, index: int)
    requires
        0 <= index < members.len(),
        members[index].0@ == key,
        forall|j: int| 0 <= j < index ==> (#[trigger] members[j]).0@ != key,
    ensures
        find_member(members, key) == Some(members[index].1),
    decreases index,
{
    if index > 0 {
        assert forall|j: int| 0 <= j < index - 1 implies (#[trigger] members.skip(1)[j]).0@
            != key by {
            assert(members.skip(1)[j] == members[j + 1]);
        }
        lemma_member_at(members.skip(1), key, index - 1);
    }
}

impl Json {
    /// The member of an object with the given name; `None` for an object
    /// without one and for a value that is no object.
    pub open spec fn member_of(self, key: Seq<char>) -> Option<Json> {
        match self {
            Json::Object(members) => find_member(members@, key),
            _ => None,
        }
    }

    /// Looks up the member of an object by its name.
    pub fn member(&self, key: &str) -> (r: Option<&Json>)
        ensures
            match r {
                Some(value) => self.member_of(key@) == Some(*value),
                None => self.member_of(key@).is_none(),
            },
    {
        match self {
            Json::Object(members) => {
                let name = String::from_str(key);
                let mut i: usize = 0;
                assert(members@.skip(0) =~= members@);
                while i < members.len()
                    invariant
                        i <= members@.len(),
                        name@ == key@,
                        self.member_of(key@) == find_member(members@, key@),
                        find_member(members@, key@) == find_member(members@.skip(i as int), key@),
                    decreases members@.len() - i,
                {
                    if members[i].0 == name {
                        return Some(&members[i].1);
                    }
                    assert(members@.skip(i as int).skip(1) =~= members@.skip(i + 1));
                    i = i + 1;
                }
                None
            },
            _ => None,
        }
    }

    /// Reads a document from its text.
    pub fn parse(text: &str) -> (r: Option<Json>)
        ensures
            r == document_tree(text@),
    {
        match read_text(text) {
            Ok(value) => Some(lift(&value)),
            Err(_) => None,
        }
    }
}

} // verus!
