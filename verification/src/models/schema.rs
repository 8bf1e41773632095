//! Credential schemas: which fields a credential subject may carry,
//! of which primitive kind, and which are required.

use vstd::prelude::*;
use crate::json::JsonModel;

verus! {

/// The JSON kind a schema assigns to a subject field.
#[derive(Clone, Copy, Debug, PartialEq, Eq, Structural)]
pub enum PropertyType {
    String,
    Number,
    Boolean,
    Object,
    Array,
}

/// Whether a JSON value is of the given kind.
pub open spec fn kind_matches(t: PropertyType, v: JsonModel) -> bool {
    match (t, v) {
        (PropertyType::String, JsonModel::Str(_)) => true,
        (PropertyType::Number, JsonModel::Int(_)) => true,
        (PropertyType::Boolean, JsonModel::Bool(_)) => true,
        (PropertyType::Object, JsonModel::Object(_)) => true,
        (PropertyType::Array, JsonModel::Array(_)) => true,
        _ => false,
    }
}

/// Whether the table knows a property called `name`.
pub open spec fn props_has(props: Seq<(Seq<char>, PropertyType)>, name: Seq<char>) -> bool {
    exists|i: int| 0 <= i < props.len() && (#[trigger] props[i]).0 == name
}

/// The kind of the property called `name`: the first match.
pub open spec fn props_get(props: Seq<(Seq<char>, PropertyType)>, name: Seq<char>) -> PropertyType
    decreases props.len(),
{
    if props.len() == 0 {
        PropertyType::String
    } else if props[0].0 == name {
        props[0].1
    } else {
        props_get(props.drop_first(), name)
    }
}

/// Under a prefix that holds no match, the first match lies in the rest.
pub proof fn lemma_props_get_skip(props: Seq<(Seq<char>, PropertyType)>, name: Seq<char>, i: int)
    requires
        0 <= i <= props.len(),
        forall|j: int| 0 <= j < i ==> (#[trigger] props[j]).0 != name,
    ensures
        props_get(props, name) == props_get(props.skip(i), name),
    decreases i,
{
    if i > 0 {
        lemma_props_get_skip(props.drop_first(), name, i - 1);
        assert(props.drop_first().skip(i - 1) =~= props.skip(i));
    } else {
        assert(props.skip(0) =~= props);
    }
}

/// A schema: named properties with their kinds, and the required names.
pub struct CredentialSchema {
    pub id: String,
    pub credential_type: String,
    pub properties: Vec<(String, PropertyType)>,
    pub required: Vec<String>,
}

impl CredentialSchema {
    /// The property table as a sequence of name/kind pairs.
    pub open spec fn props(self) -> Seq<(Seq<char>, PropertyType)> {
        Seq::new(self.properties@.len(), |i: int| (self.properties@[i].0@, self.properties@[i].1))
    }

    /// The required names.
    pub open spec fn reqs(self) -> Seq<Seq<char>> {
        Seq::new(self.required@.len(), |i: int| self.required@[i]@)
    }
}

} // verus!
