//! Which field of a declared type is its attribute store.
//!
//! A type takes part in [`crate::attributes::AttributesContainer`] by marking one of its
//! named fields with `#[attributes]`. This module describes a declaration by the plain
//! facts that matter for that, and decides which field the marker designates, or why the
//! declaration cannot carry attributes.

use vstd::prelude::*;

verus! {

/// A named field of a struct.
#[derive(Debug)]
pub struct FieldDecl {
    /// The field's name.
    pub name: String,
    /// One entry for each attribute written on the field, in order: the identifier that
    /// the attribute's path consists of, or `None` where the path is not a single
    /// identifier.
    pub markers: Vec<Option<String>>,
}

/// What a declared type is made of.
#[derive(Debug)]
pub enum TypeBody {
    /// A struct with named fields, in order of declaration.
    NamedFields(Vec<FieldDecl>),
    /// Anything else: a tuple or unit struct, an enum, a union.
    Other,
}

/// A declared type.
#[derive(Debug)]
pub struct TypeDecl {
    /// The type's name.
    pub name: String,
    /// Its fields, where it is a struct with named fields.
    pub body: TypeBody,
}

/// Why a declared type cannot carry attributes. Each case names the offending type.
#[derive(Debug)]
pub enum DeriveError {
    /// The type is not a struct with named fields.
    ExpectedNamedStruct { offender: String },
    /// No field of the struct is marked as its attribute store.
    MissingAttributesField { offender: String },
}

/// The identifier that marks a field as the attribute store.
pub open spec fn marker() -> Seq<char> {
    "attributes"@
}

/// Whether one attribute of a field is the marker.
pub open spec fn is_marker(attribute: Option<String>) -> bool {
    match attribute {
        Some(ident) => ident@ == marker(),
        None => false,
    }
}

/// Whether a field carries the marker among its attributes.
pub open spec fn is_marked(field: FieldDecl) -> bool {
    exists|k: int| 0 <= k < field.markers.len() && is_marker(#[trigger] field.markers[k])
}

/// Whether `i` is the place of the first marked field.
pub open spec fn is_first_marked(fields: Seq<FieldDecl>, i: int) -> bool {
    &&& 0 <= i < fields.len()
    &&& is_marked(fields[i])
    &&& forall|j: int| 0 <= j < i ==> !is_marked(#[trigger] fields[j])
}

/// Whether the field carries the marker among its attributes.
pub fn has_marker(field: &FieldDecl) -> (marked: bool)
    ensures
        marked == is_marked(*field),
{
    let wanted = "attributes".to_owned();
    let mut k: usize = 0;
    while k < field.markers.len()
        invariant
            k <= field.markers.len(),
            wanted@ == marker(),
            forall|j: int| 0 <= j < k ==> !is_marker(#[trigger] field.markers[j]),
        decreases field.markers.len() - k,
    {
        match &field.markers[k] {
            Some(ident) => {
                if *ident == wanted {
                    assert(is_marker(field.markers[k as int]));
                    return true;
                }
            },
            None => {},
        }
        k += 1;
    }
    false
}

/// The place of the first field that is marked as the attribute store, or `None` where no
/// field is marked. A type that is not a struct with named fields is refused.
pub fn find_attrs_field(decl: &TypeDecl) -> (found: Result<Option<usize>, DeriveError>)
    ensures
        match decl.body {
            TypeBody::NamedFields(fields) => match found {
                Ok(Some(i)) => is_first_marked(fields@, i as int),
                Ok(None) => forall|j: int| 0 <= j < fields.len() ==> !is_marked(#[trigger] fields[j]),
                Err(_) => false,
            },
            TypeBody::Other => match found {
                Err(DeriveError::ExpectedNamedStruct { offender }) => offender@ == decl.name@,
                _ => false,
            },
        },
{
    match &decl.body {
        TypeBody::NamedFields(fields) => {
            let mut i: usize = 0;
            while i < fields.len()
                invariant
                    i <= fields.len(),
                    decl.body == TypeBody::NamedFields(*fields),
                    forall|j: int| 0 <= j < i ==> !is_marked(#[trigger] fields[j]),
                decreases fields.len() - i,
            {
                if has_marker(&fields[i]) {
                    return Ok(Some(i));
                }
                i += 1;
            }
            Ok(None)
        },
        TypeBody::Other => Err(DeriveError::ExpectedNamedStruct { offender: decl.name.clone() }),
    }
}

/// The place of the field that holds the attributes of a type that is to carry them: the
/// first marked field of a struct with named fields. Any other declaration is refused.
pub fn container_field(decl: &TypeDecl) -> (place: Result<usize, DeriveError>)
    ensures
        match decl.body {
            TypeBody::NamedFields(fields) => match place {
                Ok(i) => is_first_marked(fields@, i as int),
                Err(DeriveError::MissingAttributesField { offender }) => {
                    &&& offender@ == decl.name@
                    &&& forall|j: int| 0 <= j < fields.len() ==> !is_marked(#[trigger] fields[j])
                },
                Err(_) => false,
            },
            TypeBody::Other => match place {
                Err(DeriveError::ExpectedNamedStruct { offender }) => offender@ == decl.name@,
                _ => false,
            },
        },
{
    match find_attrs_field(decl) {
        Ok(Some(i)) => Ok(i),
        Ok(None) => Err(DeriveError::MissingAttributesField { offender: decl.name.clone() }),
        Err(e) => Err(e),
    }
}

impl DeriveError {
    /// The text of the error, as a build reports it.
    pub open spec fn message_text(self) -> Seq<char> {
        match self {
            DeriveError::ExpectedNamedStruct { offender } => "expected a struct with named fields: "@
                + offender@,
            DeriveError::MissingAttributesField { offender } =>
                "AttributesContainer should have field marked as #[attributes]: "@ + offender@,
        }
    }

    /// The text of the error, as a build reports it: what is wrong, then the name of the
    /// offending type.
    pub fn message(&self) -> (text: String)
        ensures
            text@ == self.message_text(),
    {
        match self {
            DeriveError::ExpectedNamedStruct { offender } => {
                "expected a struct with named fields: ".to_owned().concat(offender.as_str())
            },
            DeriveError::MissingAttributesField { offender } => {
                "AttributesContainer should have field marked as #[attributes]: ".to_owned().concat(
                    offender.as_str(),
                )
            },
        }
    }
}

} // verus!
