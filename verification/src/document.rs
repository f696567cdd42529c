//! Generated documents and their conformance to a resolved schema.

use vstd::prelude::*;
use crate::schema::{Schema, Property, unique_prop_names};

verus! {

/// One generated field: a name and its value.
#[derive(Debug)]
pub struct Field {
    pub name: String,
    pub value: GenValue,
}

/// One generated value: a scalar, or a nested list of fields.
///
/// A `number` scalar is kept as its two raw random draws.  The value it
/// denotes is the floating-point product of the unit-interval coordinate
/// `fraction / 2^32` (of which only the high 24 bits of `fraction` count)
/// and `factor` widened to a float; computing that product is floating-point
/// work, which the embedding program does when it writes the document out.
/// The product carries no guarantee of a fractional part or of any
/// particular distribution; that looseness is deliberate.
#[derive(Debug)]
pub enum GenValue {
    Integer(i32),
    Boolean(bool),
    Text(String),
    Number { fraction: u32, factor: i32 },
    Object(Vec<Field>),
}

/// One generated document: its fields, in schema order.
#[derive(Debug)]
pub struct Document {
    pub fields: Vec<Field>,
}

/// An ASCII letter or digit.
pub open spec fn alnum_char(c: char) -> bool {
    ('A' <= c && c <= 'Z') || ('a' <= c && c <= 'z') || ('0' <= c && c <= '9')
}

/// The value has the kind its schema declares: matching scalar kind for the
/// scalar schemas, a ten-character alphanumeric text for `Text`, and for an
/// object a field list that recursively matches the nested properties
/// (exactly, wherever names are unique — see [`fields_match`]).
pub open spec fn value_matches(v: GenValue, s: Schema) -> bool
    decreases s, 0int,
{
    match s {
        Schema::Integer => v is Integer,
        Schema::Boolean => v is Boolean,
        Schema::Number => v is Number,
        Schema::Text => (v matches GenValue::Text(t) && t@.len() == 10 && forall|i: int|
            0 <= i < t@.len() ==> alnum_char(#[trigger] t@[i])),
        Schema::Object(props) => {
            proof {
                assert(decreases_to!(s => props));
                assert(decreases_to!(props => props@));
            }
            (v matches GenValue::Object(fields) && fields_match(fields@, props@))
        },
    }
}

/// Wherever the property names are unique — the shape every JSON object
/// guarantees — the field list mirrors the property list exactly: same
/// length, the same names in the same order, and each value matching its
/// declared schema.  A list with a repeated name constrains nothing here;
/// what synthesis does then is stated by its own contract.
pub open spec fn fields_match(fields: Seq<Field>, props: Seq<Property>) -> bool
    decreases props, 1int,
{
    unique_prop_names(props) ==> {
        &&& fields.len() == props.len()
        &&& forall|i: int| 0 <= i < props.len() ==> (#[trigger] fields[i].name)@ == props[i].name@
        &&& forall|i: int|
            0 <= i < props.len() ==> value_matches(#[trigger] fields[i].value, props[i].schema)
    }
}

/// The value's runtime kind is the one the schema declares, without looking
/// into nested objects: a whole number for `Integer`, a truth value for
/// `Boolean`, a raw numeric draw pair for `Number`, a ten-character
/// alphanumeric text for `Text`, and a nested field list for `Object`.
pub open spec fn value_kind_matches(v: GenValue, s: Schema) -> bool {
    match s {
        Schema::Integer => v is Integer,
        Schema::Boolean => v is Boolean,
        Schema::Number => v is Number,
        Schema::Text => (v matches GenValue::Text(t) && t@.len() == 10 && forall|i: int|
            0 <= i < t@.len() ==> alnum_char(#[trigger] t@[i])),
        Schema::Object(_) => v is Object,
    }
}

/// Some field in `fields` is named `n`.
pub open spec fn has_field_named(fields: Seq<Field>, n: Seq<char>) -> bool {
    exists|j: int| 0 <= j < fields.len() && (#[trigger] fields[j].name)@ == n
}

/// No two fields share a name.
pub open spec fn field_names_unique(fields: Seq<Field>) -> bool {
    forall|j: int, k: int|
        0 <= j < k < fields.len() ==> (#[trigger] fields[j].name)@ != (#[trigger] fields[k].name)@
}

} // verus!
