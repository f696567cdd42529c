//! The document synthesizer: walks a resolved schema and produces documents
//! whose shape mirrors it, with randomly populated scalar leaves.

use vstd::prelude::*;
use crate::json::{JsonNode, key_index, entries_names_unique};
use crate::schema::{
    Schema,
    Property,
    SchemaError,
    unique_prop_names,
    prop_resolves_to,
    props_resolve_to,
    root_props,
    root_first_err,
    root_resolves_to,
    resolve_root,
    lemma_key_index_in_range,
};
use crate::document::{
    Field,
    GenValue,
    Document,
    alnum_char,
    value_matches,
    value_kind_matches,
    fields_match,
    has_field_named,
    field_names_unique,
};
use crate::random::{random_i32, random_u32, random_bool, random_alphanumeric};

verus! {

/// Index of the field named `name`, if one exists.
fn find_field(fields: &Vec<Field>, name: &String) -> (r: Option<usize>)
    ensures
        match r {
            Some(j) => 0 <= j < fields@.len() && fields@[j as int].name@ == name@,
            None => forall|j: int| 0 <= j < fields@.len() ==> (#[trigger] fields@[j].name)@ != name@,
        },
{
    let mut i: usize = 0;
    while i < fields.len()
        invariant
            0 <= i <= fields@.len(),
            forall|j: int| 0 <= j < i ==> (#[trigger] fields@[j].name)@ != name@,
        decreases fields@.len() - i,
    {
        if fields[i].name == *name {
            return Some(i);
        }
        i = i + 1;
    }
    None
}

/// Synthesizes one value for the schema `s`: a fresh random scalar for the
/// scalar kinds, a nested field list for an object.
pub fn synthesize_value(s: &Schema) -> (v: GenValue)
    ensures
        value_kind_matches(v, *s),
        value_matches(v, *s),
    decreases *s,
{
    match s {
        Schema::Integer => GenValue::Integer(random_i32()),
        Schema::Number => GenValue::Number { fraction: random_u32(), factor: random_i32() },
        Schema::Boolean => GenValue::Boolean(random_bool()),
        Schema::Text => GenValue::Text(random_alphanumeric(10)),
        Schema::Object(props) => {
            proof {
                assert(decreases_to!(*s => *props));
            }
            GenValue::Object(synthesize_fields(props))
        },
    }
}

/// Synthesizes the field list for the properties `props`, in order.  A name
/// declared twice keeps one field whose value is overwritten by the later
/// occurrence — mapping semantics, defined but discouraged, since property
/// names are expected unique.  With unique names the result mirrors `props`
/// exactly; in every case each declared name appears exactly once, and each
/// field's value has the kind some property of the same name declares.
pub fn synthesize_fields(props: &Vec<Property>) -> (fields: Vec<Field>)
    ensures
        fields_match(fields@, props@),
        field_names_unique(fields@),
        forall|i: int| 0 <= i < props@.len() ==> has_field_named(fields@, (#[trigger] props@[i].name)@),
        forall|j: int|
            #![trigger fields@[j]]
            0 <= j < fields@.len() ==> exists|i: int|
                0 <= i < props@.len() && (#[trigger] props@[i].name)@ == fields@[j].name@
                    && value_kind_matches(fields@[j].value, props@[i].schema),
    decreases *props,
{
    let mut fields: Vec<Field> = Vec::new();
    let mut i: usize = 0;
    while i < props.len()
        invariant
            0 <= i <= props@.len(),
            fields_match(fields@, props@.subrange(0, i as int)),
            field_names_unique(fields@),
            forall|i0: int|
                0 <= i0 < i ==> has_field_named(fields@, (#[trigger] props@[i0].name)@),
            forall|j: int|
                #![trigger fields@[j]]
                0 <= j < fields@.len() ==> exists|i0: int|
                    0 <= i0 < i && (#[trigger] props@[i0].name)@ == fields@[j].name@
                        && value_kind_matches(fields@[j].value, props@[i0].schema),
        decreases props@.len() - i,
    {
        proof {
            assert(decreases_to!(*props => props@));
            assert(decreases_to!(props@ => props@[i as int]));
            assert(decreases_to!(props@[i as int] => props@[i as int].schema));
        }
        let ghost old_fields = fields@;
        let ghost prefix0 = props@.subrange(0, i as int);
        let ghost prefix1 = props@.subrange(0, i + 1);
        let value = synthesize_value(&props[i].schema);
        let ghost gvalue = value;
        match find_field(&fields, &props[i].name) {
            Some(j) => {
                fields.set(j, Field { name: props[i].name.clone(), value });
                proof {
                    assert forall|j0: int| 0 <= j0 < fields@.len() implies (#[trigger] fields@[j0].name)@
                        == old_fields[j0].name@ by {
                        if j0 == j {
                            assert(fields@[j0].name@ == props@[i as int].name@);
                        }
                    }
                    // A field already carrying this property's name means an
                    // earlier property declared the same name, so this prefix
                    // has a repeated name and the exact-mirror clause is idle.
                    assert(exists|i0: int|
                        0 <= i0 < i && (#[trigger] props@[i0].name)@ == old_fields[j as int].name@
                            && value_kind_matches(old_fields[j as int].value, props@[i0].schema));
                    let i0d = choose|i0: int|
                        0 <= i0 < i && (#[trigger] props@[i0].name)@ == old_fields[j as int].name@
                            && value_kind_matches(old_fields[j as int].value, props@[i0].schema);
                    assert(!unique_prop_names(prefix1)) by {
                        assert(prefix1[i0d].name@ == old_fields[j as int].name@);
                        assert(prefix1[i as int].name@ == old_fields[j as int].name@);
                    }
                    assert(fields_match(fields@, prefix1));
                    assert(field_names_unique(fields@));
                    assert forall|i0: int| 0 <= i0 < i + 1 implies has_field_named(
                        fields@,
                        (#[trigger] props@[i0].name)@,
                    ) by {
                        if i0 < i {
                            let j0 = choose|j0: int|
                                0 <= j0 < old_fields.len() && (#[trigger] old_fields[j0].name)@
                                    == props@[i0].name@;
                            assert(fields@[j0].name@ == props@[i0].name@);
                        } else {
                            assert(fields@[j as int].name@ == props@[i0].name@);
                        }
                    }
                    assert forall|j0: int| #![trigger fields@[j0]] 0 <= j0 < fields@.len() implies exists|
                        i0: int,
                    |
                        0 <= i0 < i + 1 && (#[trigger] props@[i0].name)@ == fields@[j0].name@
                            && value_kind_matches(fields@[j0].value, props@[i0].schema) by {
                        if j0 == j {
                            assert((props@[i as int].name)@ == fields@[j0].name@
                                && value_kind_matches(fields@[j0].value, props@[i as int].schema));
                        } else {
                            assert(fields@[j0] == old_fields[j0]);
                            let i0 = choose|i0: int|
                                0 <= i0 < i && (#[trigger] props@[i0].name)@ == old_fields[j0].name@
                                    && value_kind_matches(old_fields[j0].value, props@[i0].schema);
                            assert(0 <= i0 < i + 1 && (props@[i0].name)@ == fields@[j0].name@
                                && value_kind_matches(fields@[j0].value, props@[i0].schema));
                        }
                    }
                }
            },
            None => {
                fields.push(Field { name: props[i].name.clone(), value });
                proof {
                    let flen = fields@.len() - 1;
                    assert(fields@[flen].name@ == props@[i as int].name@);
                    assert(prefix1 =~= prefix0.push(props@[i as int]));
                    if unique_prop_names(prefix1) {
                        assert(unique_prop_names(prefix0)) by {
                            assert forall|a: int, b: int| 0 <= a < b < prefix0.len() implies (#[trigger]
                            prefix0[a].name)@ != (#[trigger] prefix0[b].name)@ by {
                                assert(prefix0[a] == prefix1[a]);
                                assert(prefix0[b] == prefix1[b]);
                            }
                        }
                        assert(fields@.len() == prefix1.len());
                        assert forall|i0: int| 0 <= i0 < prefix1.len() implies (#[trigger]
                        fields@[i0].name)@ == prefix1[i0].name@ by {
                            if i0 < i {
                                assert(old_fields[i0].name@ == prefix0[i0].name@);
                                assert(fields@[i0] == old_fields[i0]);
                                assert(prefix1[i0] == prefix0[i0]);
                            }
                        }
                        assert forall|i0: int| 0 <= i0 < prefix1.len() implies value_matches(
                            (#[trigger] fields@[i0]).value,
                            prefix1[i0].schema,
                        ) by {
                            if i0 < i {
                                assert(value_matches(old_fields[i0].value, prefix0[i0].schema));
                                assert(fields@[i0] == old_fields[i0]);
                                assert(prefix1[i0] == prefix0[i0]);
                            } else {
                                assert(value_matches(gvalue, props@[i as int].schema));
                            }
                        }
                    }
                    assert(fields_match(fields@, prefix1));
                    assert(field_names_unique(fields@));
                    assert forall|i0: int| 0 <= i0 < i + 1 implies has_field_named(
                        fields@,
                        (#[trigger] props@[i0].name)@,
                    ) by {
                        if i0 < i {
                            let j0 = choose|j0: int|
                                0 <= j0 < old_fields.len() && (#[trigger] old_fields[j0].name)@
                                    == props@[i0].name@;
                            assert(fields@[j0].name@ == props@[i0].name@);
                        } else {
                            assert(fields@[flen].name@ == props@[i0].name@);
                        }
                    }
                    assert forall|j0: int| #![trigger fields@[j0]] 0 <= j0 < fields@.len() implies exists|
                        i0: int,
                    |
                        0 <= i0 < i + 1 && (#[trigger] props@[i0].name)@ == fields@[j0].name@
                            && value_kind_matches(fields@[j0].value, props@[i0].schema) by {
                        if j0 == flen {
                            assert((props@[i as int].name)@ == fields@[j0].name@
                                && value_kind_matches(fields@[j0].value, props@[i as int].schema));
                        } else {
                            assert(fields@[j0] == old_fields[j0]);
                            let i0 = choose|i0: int|
                                0 <= i0 < i && (#[trigger] props@[i0].name)@ == old_fields[j0].name@
                                    && value_kind_matches(old_fields[j0].value, props@[i0].schema);
                            assert(0 <= i0 < i + 1 && (props@[i0].name)@ == fields@[j0].name@
                                && value_kind_matches(fields@[j0].value, props@[i0].schema));
                        }
                    }
                }
            },
        }
        i = i + 1;
    }
    proof {
        assert(props@.subrange(0, i as int) =~= props@);
    }
    fields
}

/// Synthesizes one document from the resolved property map: one field per
/// property, in map order.
pub fn synthesize_document(props: &Vec<Property>) -> (doc: Document)
    ensures
        fields_match(doc.fields@, props@),
        field_names_unique(doc.fields@),
        forall|i: int|
            0 <= i < props@.len() ==> has_field_named(doc.fields@, (#[trigger] props@[i].name)@),
        forall|j: int|
            #![trigger doc.fields@[j]]
            0 <= j < doc.fields@.len() ==> exists|i: int|
                0 <= i < props@.len() && (#[trigger] props@[i].name)@ == doc.fields@[j].name@
                    && value_kind_matches(doc.fields@[j].value, props@[i].schema),
{
    Document { fields: synthesize_fields(props) }
}

/// The generated value conforms to what the property node `node` declares:
/// the declared scalar kind for a scalar tag, and for the `object` tag a
/// nested field list conforming to the nested declared properties.
pub open spec fn value_conforms(v: GenValue, node: JsonNode) -> bool
    decreases node, 0int,
{
    match node {
        JsonNode::Object(pentries) => match key_index(pentries@, "type"@) {
            Some(j) => match pentries@[j].1 {
                JsonNode::Text(t) => if t@ == "integer"@ {
                    v is Integer
                } else if t@ == "string"@ {
                    (v matches GenValue::Text(tv) && tv@.len() == 10 && forall|i: int|
                        0 <= i < tv@.len() ==> alnum_char(#[trigger] tv@[i]))
                } else if t@ == "boolean"@ {
                    v is Boolean
                } else if t@ == "number"@ {
                    v is Number
                } else if t@ == "object"@ {
                    match key_index(pentries@, "properties"@) {
                        Some(k) => match pentries@[k].1 {
                            JsonNode::Object(centries) => {
                                proof {
                                    lemma_key_index_in_range(pentries@, "properties"@, 0);
                                    assert(decreases_to!(node => pentries));
                                    assert(decreases_to!(pentries => pentries@));
                                    assert(decreases_to!(pentries@ => pentries@[k]));
                                    assert(decreases_to!(pentries@[k] => pentries@[k].1));
                                    assert(decreases_to!(pentries@[k].1 => centries));
                                    assert(decreases_to!(centries => centries@));
                                }
                                (v matches GenValue::Object(fields) && doc_conforms(
                                    fields@,
                                    centries@,
                                ))
                            },
                            _ => false,
                        },
                        None => false,
                    }
                } else {
                    false
                },
                _ => false,
            },
            None => false,
        },
        _ => false,
    }
}

/// Shape fidelity, stated against the schema as declared: wherever the
/// declared names are unique, the document carries exactly the declared
/// field names, in order, each value conforming to its declaration.
pub open spec fn doc_conforms(fields: Seq<Field>, entries: Seq<(String, JsonNode)>) -> bool
    decreases entries, 1int,
{
    entries_names_unique(entries) ==> {
        &&& fields.len() == entries.len()
        &&& forall|i: int| 0 <= i < entries.len() ==> (#[trigger] fields[i].name)@ == entries[i].0@
        &&& forall|i: int|
            0 <= i < entries.len() ==> value_conforms((#[trigger] fields[i]).value, entries[i].1)
    }
}

/// Shape and type fidelity carry back from the resolved schema to the
/// schema as declared: a value that matches what a property node resolves
/// to conforms to that node.
pub proof fn lemma_value_conforms(node: JsonNode, s: Schema, v: GenValue)
    requires
        prop_resolves_to(node, s),
        value_matches(v, s),
    ensures
        value_conforms(v, node),
    decreases node, 0int,
{
    match node {
        JsonNode::Object(pentries) => match key_index(pentries@, "type"@) {
            Some(j) => {
                lemma_key_index_in_range(pentries@, "type"@, 0);
                match pentries@[j].1 {
                    JsonNode::Text(t) => {
                        if t@ == "integer"@ || t@ == "string"@ || t@ == "boolean"@ || t@
                            == "number"@ {
                            // the declared scalar kind: value_matches gives it
                        } else if t@ == "object"@ {
                            match key_index(pentries@, "properties"@) {
                                Some(k) => {
                                    lemma_key_index_in_range(pentries@, "properties"@, 0);
                                    match pentries@[k].1 {
                                        JsonNode::Object(centries) => match s {
                                            Schema::Object(sub) => match v {
                                                GenValue::Object(fields) => {
                                                    assert(decreases_to!(node => pentries));
                                                    assert(decreases_to!(pentries => pentries@));
                                                    assert(decreases_to!(pentries@ => pentries@[k]));
                                                    assert(decreases_to!(pentries@[k] => pentries@[k].1));
                                                    assert(decreases_to!(pentries@[k].1 => centries));
                                                    assert(decreases_to!(centries => centries@));
                                                    lemma_fields_conform(centries@, sub@, fields@);
                                                },
                                                _ => {},
                                            },
                                            _ => {},
                                        },
                                        _ => {},
                                    }
                                },
                                None => {},
                            }
                        }
                    },
                    _ => {},
                }
            },
            None => {},
        },
        _ => {},
    }
}

/// Shape fidelity at the document level: a field list that mirrors what a
/// declared property list resolves to conforms to that declaration.
pub proof fn lemma_fields_conform(
    entries: Seq<(String, JsonNode)>,
    props: Seq<Property>,
    fields: Seq<Field>,
)
    requires
        props_resolve_to(entries, props),
        fields_match(fields, props),
    ensures
        doc_conforms(fields, entries),
    decreases entries, 1int,
{
    if entries_names_unique(entries) {
        assert(unique_prop_names(props)) by {
            assert forall|a: int, b: int| 0 <= a < b < props.len() implies (#[trigger]
            props[a].name)@ != (#[trigger] props[b].name)@ by {
                assert(props[a].name@ == entries[a].0@);
                assert(props[b].name@ == entries[b].0@);
                assert(entries[a].0@ != entries[b].0@);
            }
        }
        assert(fields.len() == entries.len());
        assert forall|i: int| 0 <= i < entries.len() implies (#[trigger] fields[i].name)@
            == entries[i].0@ by {
            assert(props[i].name@ == entries[i].0@);
            assert(fields[i].name@ == props[i].name@);
        }
        assert forall|i: int| 0 <= i < entries.len() implies value_conforms(
            (#[trigger] fields[i]).value,
            entries[i].1,
        ) by {
            assert(prop_resolves_to(entries[i].1, props[i].schema));
            assert(value_matches(fields[i].value, props[i].schema));
            assert(decreases_to!(entries => entries[i]));
            assert(decreases_to!(entries[i] => entries[i].1));
            lemma_value_conforms(entries[i].1, props[i].schema, fields[i].value);
        }
    }
}

/// Produces `count` documents from the schema rooted at `schema`: resolves
/// the declared properties once, then synthesizes that many independent
/// documents against them.  A schema defect aborts the whole pass with the
/// first error found, before any document is produced; otherwise exactly
/// `count` documents come back, each conforming to the declaration.  A
/// `count` of zero is valid and yields an empty sequence.
pub fn generate(schema: &JsonNode, count: u32) -> (r: Result<Vec<Document>, SchemaError>)
    ensures
        match r {
            Ok(docs) => {
                &&& root_first_err(*schema) is None
                &&& docs@.len() == count as nat
                &&& forall|k: int|
                    0 <= k < docs@.len() ==> field_names_unique((#[trigger] docs@[k]).fields@)
                &&& forall|k: int|
                    0 <= k < docs@.len() ==> match root_props(*schema) {
                        Some(entries) => doc_conforms((#[trigger] docs@[k]).fields@, entries),
                        None => false,
                    }
            },
            Err(e) => root_first_err(*schema) == Some(e@),
        },
{
    let props = match resolve_root(schema) {
        Ok(p) => p,
        Err(e) => {
            return Err(e);
        },
    };
    let mut docs: Vec<Document> = Vec::new();
    let mut index: u32 = 0;
    while index < count
        invariant
            0 <= index <= count,
            docs@.len() == index as nat,
            root_first_err(*schema) is None,
            root_resolves_to(*schema, props@),
            forall|k: int|
                0 <= k < docs@.len() ==> field_names_unique((#[trigger] docs@[k]).fields@),
            forall|k: int|
                0 <= k < docs@.len() ==> match root_props(*schema) {
                    Some(entries) => doc_conforms((#[trigger] docs@[k]).fields@, entries),
                    None => false,
                },
        decreases count - index,
    {
        let doc = synthesize_document(&props);
        proof {
            let rp = root_props(*schema);
            match rp {
                Some(entries) => {
                    assert(props_resolve_to(entries, props@));
                    lemma_fields_conform(entries, props@, doc.fields@);
                },
                None => {
                    assert(false);
                },
            }
        }
        docs.push(doc);
        index = index + 1;
    }
    Ok(docs)
}

} // verus!
