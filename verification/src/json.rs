//! The shape of parsed JSON that schema navigation reads.

use vstd::prelude::*;

verus! {

/// A parsed JSON value, reduced to the distinctions schema navigation makes:
/// text values, objects as ordered lists of named entries, and every other
/// kind of value collapsed into [`JsonNode::Other`].  The embedding program
/// converts its parsed JSON into this shape; entries keep the order of the
/// source text, and names coming from a JSON object are unique.
#[derive(Debug)]
pub enum JsonNode {
    /// A JSON string.
    Text(String),
    /// A JSON object: named entries in source order.
    Object(Vec<(String, JsonNode)>),
    /// Any other JSON value (number, boolean, null, or array).
    Other,
}

/// Index of the first entry at or after `i` whose name is `key`, if any.
pub open spec fn key_index_from(
    entries: Seq<(String, JsonNode)>,
    key: Seq<char>,
    i: int,
) -> Option<int>
    decreases entries.len() - i,
{
    if i < 0 || i >= entries.len() {
        None
    } else if entries[i].0@ == key {
        Some(i)
    } else {
        key_index_from(entries, key, i + 1)
    }
}

/// Index of the first entry whose name is `key`, if any.
pub open spec fn key_index(entries: Seq<(String, JsonNode)>, key: Seq<char>) -> Option<int> {
    key_index_from(entries, key, 0)
}

/// No two entries share a name — the shape every parsed JSON object
/// guarantees.
pub open spec fn entries_names_unique(entries: Seq<(String, JsonNode)>) -> bool {
    forall|i: int, j: int|
        0 <= i < j < entries.len() ==> (#[trigger] entries[i].0)@ != (#[trigger] entries[j].0)@
}

/// Finds the first entry named `key`, as lookup in a JSON object does.
pub fn lookup(entries: &Vec<(String, JsonNode)>, key: &String) -> (r: Option<usize>)
    ensures
        match r {
            Some(j) => key_index(entries@, key@) == Some(j as int),
            None => key_index(entries@, key@) is None,
        },
{
    let mut i: usize = 0;
    while i < entries.len()
        invariant
            0 <= i <= entries@.len(),
            key_index(entries@, key@) == key_index_from(entries@, key@, i as int),
        decreases entries@.len() - i,
    {
        if entries[i].0 == *key {
            return Some(i);
        }
        i = i + 1;
    }
    None
}

} // verus!
