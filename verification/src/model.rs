//! A plain model of the derive input: the parts of the item that the derive reads.

use vstd::prelude::*;

verus! {

/// A path inside an attribute, such as `enable` or `::a::b`.
///
/// `segments` holds the identifiers as they print (a raw identifier keeps its `r#`).
pub struct AttrPath {
    pub leading_colon: bool,
    pub segments: Vec<String>,
}

/// A literal inside an attribute: a string literal with its value, or any other literal.
pub enum Lit {
    Str(String),
    Other,
}

/// One item of an attribute's list, as in `#[focus(ITEM)]`.
pub enum NestedMeta {
    /// A bare path, such as `enable`.
    Path(AttrPath),
    /// A path with a value, such as `enable = "Self::is_enabled"`.
    NameValue(AttrPath, Lit),
    /// A nested list or a bare literal.
    Other,
}

/// What an attribute reads as: a list of items, or anything else
/// (a bare path, a name with a value, or tokens that do not form a meta item).
pub enum Meta {
    List(Vec<NestedMeta>),
    NotList,
}

/// An attribute of a field: the segments of its path and what it reads as.
pub struct Attribute {
    pub path: Vec<String>,
    pub meta: Meta,
}

/// A field: its name (none for a tuple field) and its attributes, in order.
pub struct Field {
    pub ident: Option<String>,
    pub attrs: Vec<Attribute>,
}

/// The fields of a struct or of an enum variant.
pub enum Fields {
    Named(Vec<Field>),
    Unnamed(Vec<Field>),
    Unit,
}

/// A variant of an enum.
pub struct Variant {
    pub ident: String,
    pub fields: Fields,
}

/// The body of the item that the derive is applied to.
pub enum Data {
    Struct(Fields),
    Enum(Vec<Variant>),
    Union,
}

/// The item that the derive is applied to: its name and its body.
pub struct DeriveInput {
    pub ident: String,
    pub data: Data,
}

/// Whether some segment of `path` is the identifier `focus`.
pub open spec fn path_mentions_focus(path: Seq<String>) -> bool {
    exists|i: int| 0 <= i < path.len() && (#[trigger] path[i])@ == "focus"@
}

/// The identifier that `path` consists of, if it is a single segment without a leading `::`.
pub open spec fn path_ident(path: AttrPath) -> Option<String> {
    if !path.leading_colon && path.segments@.len() == 1 {
        Some(path.segments@[0])
    } else {
        None
    }
}

/// Whether `path` is exactly the identifier `enable`.
pub open spec fn path_is_enable(path: AttrPath) -> bool {
    match path_ident(path) {
        Some(ident) => ident@ == "enable"@,
        None => false,
    }
}

/// Tells whether some segment of `path` is the identifier `focus`.
pub fn mentions_focus(path: &Vec<String>) -> (b: bool)
    ensures
        b == path_mentions_focus(path@),
{
    let focus = String::from_str("focus");
    let mut i: usize = 0;
    while i < path.len()
        invariant
            0 <= i <= path@.len(),
            focus@ == "focus"@,
            forall|j: int| 0 <= j < i ==> (#[trigger] path@[j])@ != "focus"@,
        decreases path@.len() - i,
    {
        if path[i] == focus {
            assert(path@[i as int]@ == "focus"@);
            return true;
        }
        i += 1;
    }
    false
}

/// Tells whether `path` is exactly the identifier `enable`,
/// as `path.get_ident()` compared with `"enable"` does.
pub fn is_enable(path: &AttrPath) -> (b: bool)
    ensures
        b == path_is_enable(*path),
{
    if !path.leading_colon && path.segments.len() == 1 {
        let enable = String::from_str("enable");
        path.segments[0] == enable
    } else {
        false
    }
}

} // verus!
