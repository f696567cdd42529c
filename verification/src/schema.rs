//! Schema navigation and resolution.
//!
//! A schema arrives as a [`JsonNode`] tree.  Resolution walks it once and
//! turns every property into a closed [`Schema`] variant, so that document
//! synthesis dispatches on an exhaustive match and every defect of the
//! schema is reported before any document is produced.  The three defects
//! are the ones the generation contract names: a missing or non-object
//! `properties` mapping, a property without a text `type` tag, and a `type`
//! tag outside the recognized set.

use vstd::prelude::*;
use crate::json::{JsonNode, key_index, key_index_from, lookup};

verus! {

/// A resolved schema: one of the four scalar kinds, or a nested object with
/// its own ordered properties.  The `string` tag resolves to [`Schema::Text`].
#[derive(Debug)]
pub enum Schema {
    Integer,
    Number,
    Boolean,
    Text,
    Object(Vec<Property>),
}

/// One declared property: its name and its resolved schema.
#[derive(Debug)]
pub struct Property {
    pub name: String,
    pub schema: Schema,
}

/// A schema defect, fatal for the whole generation pass.
#[derive(Debug, PartialEq, Eq, Clone)]
pub enum SchemaError {
    /// A node expected to carry an object-shaped `properties` mapping does not.
    SchemaShape,
    /// The named property lacks a text `type` tag.
    MissingType { field: String },
    /// The named property declares a `type` tag outside the recognized set.
    UnsupportedType { field: String, tag: String },
}

/// The mathematical image of a [`SchemaError`]: the same three cases over
/// character sequences.
pub enum ErrView {
    SchemaShape,
    MissingType { field: Seq<char> },
    UnsupportedType { field: Seq<char>, tag: Seq<char> },
}

impl View for SchemaError {
    type V = ErrView;

    open spec fn view(&self) -> ErrView {
        match self {
            SchemaError::SchemaShape => ErrView::SchemaShape,
            SchemaError::MissingType { field } => ErrView::MissingType { field: field@ },
            SchemaError::UnsupportedType { field, tag } => ErrView::UnsupportedType {
                field: field@,
                tag: tag@,
            },
        }
    }
}

/// The first defect of the property whose name is `name` and whose schema
/// node is `node`, searching depth first, or `None` if it has none.
pub open spec fn prop_first_err(name: Seq<char>, node: JsonNode) -> Option<ErrView>
    decreases node, 0int,
{
    match node {
        JsonNode::Object(pentries) => match key_index(pentries@, "type"@) {
            Some(j) => match pentries@[j].1 {
                JsonNode::Text(t) => if t@ == "integer"@ || t@ == "string"@ || t@ == "boolean"@
                    || t@ == "number"@ {
                    None
                } else if t@ == "object"@ {
                    match key_index(pentries@, "properties"@) {
                        Some(k) => match pentries@[k].1 {
                            JsonNode::Object(centries) => {
                                proof {
                                    lemma_key_index_in_range(pentries@, "properties"@, 0);
                                    assert(decreases_to!(node => pentries));
                                    assert(decreases_to!(pentries => pentries@));
                                    assert(decreases_to!(pentries@ => pentries@[k]));
                                    assert(decreases_to!(pentries@[k] => pentries@[k].1));
                                    assert(decreases_to!(pentries@[k].1 => centries));
                                    assert(decreases_to!(centries => centries@));
                                }
                                props_first_err(centries@, 0)
                            },
                            _ => Some(ErrView::SchemaShape),
                        },
                        None => Some(ErrView::SchemaShape),
                    }
                } else {
                    Some(ErrView::UnsupportedType { field: name, tag: t@ })
                },
                _ => Some(ErrView::MissingType { field: name }),
            },
            None => Some(ErrView::MissingType { field: name }),
        },
        _ => Some(ErrView::MissingType { field: name }),
    }
}

/// The first defect among the properties `entries[i..]`, depth first and in
/// entry order, or `None` if there is none.
pub open spec fn props_first_err(entries: Seq<(String, JsonNode)>, i: int) -> Option<ErrView>
    decreases entries, entries.len() - i,
{
    if i < 0 || i >= entries.len() {
        None
    } else {
        match prop_first_err(entries[i].0@, entries[i].1) {
            Some(e) => Some(e),
            None => props_first_err(entries, i + 1),
        }
    }
}

/// Relates a property's schema node to its resolved form.  The relation pins
/// the resolved schema completely: for each node at most one schema satisfies
/// it, and one does exactly when the node is free of defects.
pub open spec fn prop_resolves_to(node: JsonNode, s: Schema) -> bool
    decreases node, 0int,
{
    match node {
        JsonNode::Object(pentries) => match key_index(pentries@, "type"@) {
            Some(j) => match pentries@[j].1 {
                JsonNode::Text(t) => if t@ == "integer"@ {
                    s == Schema::Integer
                } else if t@ == "string"@ {
                    s == Schema::Text
                } else if t@ == "boolean"@ {
                    s == Schema::Boolean
                } else if t@ == "number"@ {
                    s == Schema::Number
                } else if t@ == "object"@ {
                    match key_index(pentries@, "properties"@) {
                        Some(k) => match pentries@[k].1 {
                            JsonNode::Object(centries) => {
                                proof {
                                    lemma_key_index_in_range(pentries@, "properties"@, 0);
                                    assert(decreases_to!(node => pentries));
                                    assert(decreases_to!(pentries => pentries@));
                                    assert(decreases_to!(pentries@ => pentries@[k]));
                                    assert(decreases_to!(pentries@[k] => pentries@[k].1));
                                    assert(decreases_to!(pentries@[k].1 => centries));
                                    assert(decreases_to!(centries => centries@));
                                }
                                (s matches Schema::Object(sub) && props_resolve_to(
                                    centries@,
                                    sub@,
                                ))
                            },
                            _ => false,
                        },
                        None => false,
                    }
                } else {
                    false
                },
                _ => false,
            },
            None => false,
        },
        _ => false,
    }
}

/// Relates a property list to its resolved form, name for name and schema
/// for schema, in order.
pub open spec fn props_resolve_to(entries: Seq<(String, JsonNode)>, props: Seq<Property>) -> bool
    decreases entries, 0int,
{
    &&& props.len() == entries.len()
    &&& forall|i: int|
        0 <= i < entries.len() ==> prop_resolves_to(#[trigger] entries[i].1, props[i].schema)
    &&& forall|i: int| 0 <= i < entries.len() ==> (#[trigger] props[i].name)@ == entries[i].0@
}

/// The property entries the root node declares, or `None` where the root
/// carries no object-shaped `properties` mapping.
pub open spec fn root_props(node: JsonNode) -> Option<Seq<(String, JsonNode)>> {
    match node {
        JsonNode::Object(entries) => match key_index(entries@, "properties"@) {
            Some(j) => match entries@[j].1 {
                JsonNode::Object(centries) => Some(centries@),
                _ => None,
            },
            None => None,
        },
        _ => None,
    }
}

/// The first defect of a whole schema rooted at `node`, or `None` if the
/// schema is valid.
pub open spec fn root_first_err(node: JsonNode) -> Option<ErrView> {
    match root_props(node) {
        Some(entries) => props_first_err(entries, 0),
        None => Some(ErrView::SchemaShape),
    }
}

/// Relates a whole schema rooted at `node` to its resolved property list.
pub open spec fn root_resolves_to(node: JsonNode, props: Seq<Property>) -> bool {
    match root_props(node) {
        Some(entries) => props_resolve_to(entries, props),
        None => false,
    }
}

/// No two properties share a name — the expected shape of a property list,
/// since JSON object keys are unique.
pub open spec fn unique_prop_names(props: Seq<Property>) -> bool {
    forall|i: int, j: int|
        0 <= i < j < props.len() ==> (#[trigger] props[i].name)@ != (#[trigger] props[j].name)@
}

/// A found key's index is in range and names the key.
pub proof fn lemma_key_index_in_range(
    entries: Seq<(String, JsonNode)>,
    key: Seq<char>,
    i: int,
)
    ensures
        match key_index_from(entries, key, i) {
            Some(j) => i <= j < entries.len() && entries[j].0@ == key,
            None => true,
        },
    decreases entries.len() - i,
{
    if 0 <= i < entries.len() && entries[i].0@ != key {
        lemma_key_index_in_range(entries, key, i + 1);
    }
}

/// The schema navigator: the ordered property entries that `node` declares.
/// Fails with [`SchemaError::SchemaShape`] exactly when `node` is not an
/// object, has no `properties` entry, or has one that is not an object.
pub fn properties_of<'a>(node: &'a JsonNode) -> (r: Result<
    &'a Vec<(String, JsonNode)>,
    SchemaError,
>)
    ensures
        match r {
            Ok(entries) => root_props(*node) == Some(entries@),
            Err(e) => root_props(*node) is None && e == SchemaError::SchemaShape,
        },
{
    match node {
        JsonNode::Object(entries) => {
            let props_key: String = "properties".to_owned();
            match lookup(entries, &props_key) {
                Some(j) => {
                    proof {
                        lemma_key_index_in_range(entries@, props_key@, 0);
                    }
                    match &entries[j].1 {
                        JsonNode::Object(centries) => Ok(centries),
                        _ => Err(SchemaError::SchemaShape),
                    }
                },
                None => Err(SchemaError::SchemaShape),
            }
        },
        _ => Err(SchemaError::SchemaShape),
    }
}

/// Resolves one property's schema node, depth first.
fn resolve_prop(name: &String, node: &JsonNode) -> (r: Result<Schema, SchemaError>)
    ensures
        match r {
            Ok(s) => prop_first_err(name@, *node) is None && prop_resolves_to(*node, s),
            Err(e) => prop_first_err(name@, *node) == Some(e@),
        },
    decreases *node,
{
    match node {
        JsonNode::Object(pentries) => {
            let type_key: String = "type".to_owned();
            match lookup(pentries, &type_key) {
                Some(j) => {
                    proof {
                        lemma_key_index_in_range(pentries@, type_key@, 0);
                    }
                    match &pentries[j].1 {
                        JsonNode::Text(t) => {
                            let tag_integer: String = "integer".to_owned();
                            let tag_string: String = "string".to_owned();
                            let tag_boolean: String = "boolean".to_owned();
                            let tag_number: String = "number".to_owned();
                            let tag_object: String = "object".to_owned();
                            if *t == tag_integer {
                                Ok(Schema::Integer)
                            } else if *t == tag_string {
                                Ok(Schema::Text)
                            } else if *t == tag_boolean {
                                Ok(Schema::Boolean)
                            } else if *t == tag_number {
                                Ok(Schema::Number)
                            } else if *t == tag_object {
                                let props_key: String = "properties".to_owned();
                                match lookup(pentries, &props_key) {
                                    Some(k) => {
                                        proof {
                                            lemma_key_index_in_range(pentries@, props_key@, 0);
                                        }
                                        match &pentries[k].1 {
                                            JsonNode::Object(centries) => {
                                                proof {
                                                    assert(decreases_to!(*node => *pentries));
                                                    assert(decreases_to!(*pentries => pentries@));
                                                    assert(decreases_to!(pentries@ => pentries@[k as int]));
                                                    assert(decreases_to!(pentries@[k as int] => pentries@[k as int].1));
                                                    assert(decreases_to!(pentries@[k as int].1 => *centries));
                                                }
                                                match resolve_properties(centries) {
                                                    Ok(sub) => Ok(Schema::Object(sub)),
                                                    Err(e) => Err(e),
                                                }
                                            },
                                            _ => Err(SchemaError::SchemaShape),
                                        }
                                    },
                                    None => Err(SchemaError::SchemaShape),
                                }
                            } else {
                                Err(SchemaError::UnsupportedType {
                                    field: name.clone(),
                                    tag: t.clone(),
                                })
                            }
                        },
                        _ => Err(SchemaError::MissingType { field: name.clone() }),
                    }
                },
                None => Err(SchemaError::MissingType { field: name.clone() }),
            }
        },
        _ => Err(SchemaError::MissingType { field: name.clone() }),
    }
}

/// Resolves a whole property list, stopping at the first defect.
pub fn resolve_properties(entries: &Vec<(String, JsonNode)>) -> (r: Result<
    Vec<Property>,
    SchemaError,
>)
    ensures
        match r {
            Ok(props) => props_first_err(entries@, 0) is None && props_resolve_to(
                entries@,
                props@,
            ),
            Err(e) => props_first_err(entries@, 0) == Some(e@),
        },
    decreases *entries,
{
    let mut props: Vec<Property> = Vec::new();
    let mut i: usize = 0;
    while i < entries.len()
        invariant
            0 <= i <= entries@.len(),
            props@.len() == i as nat,
            props_first_err(entries@, 0) == props_first_err(entries@, i as int),
            forall|k: int|
                0 <= k < i ==> prop_resolves_to(#[trigger] entries@[k].1, props@[k].schema),
            forall|k: int| 0 <= k < i ==> (#[trigger] props@[k].name)@ == entries@[k].0@,
        decreases entries@.len() - i,
    {
        proof {
            assert(decreases_to!(*entries => entries@));
            assert(decreases_to!(entries@ => entries@[i as int]));
            assert(decreases_to!(entries@[i as int] => entries@[i as int].1));
        }
        match resolve_prop(&entries[i].0, &entries[i].1) {
            Ok(s) => {
                props.push(
                    Property { name: entries[i].0.clone(), schema: s },
                );
                i = i + 1;
            },
            Err(e) => {
                return Err(e);
            },
        }
    }
    proof {
        assert(props_first_err(entries@, i as int) is None);
        assert(props_resolve_to(entries@, props@));
    }
    Ok(props)
}

/// Resolves the schema rooted at `root`: its `properties` mapping, then each
/// declared property in order, depth first.  Succeeds exactly on defect-free
/// schemas and otherwise reports the first defect found.
pub fn resolve_root(root: &JsonNode) -> (r: Result<Vec<Property>, SchemaError>)
    ensures
        match r {
            Ok(props) => root_first_err(*root) is None && root_resolves_to(*root, props@),
            Err(e) => root_first_err(*root) == Some(e@),
        },
{
    match properties_of(root) {
        Ok(entries) => resolve_properties(entries),
        Err(e) => Err(e),
    }
}

} // verus!
