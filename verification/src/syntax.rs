//! The declaration that an error enumeration is derived from, as plain data.
//!
//! Names, types and attributes are held as the text of their tokens; what the
//! compiler reads of an attribute (its style, its name, a string value) is held
//! beside that text.

use vstd::prelude::*;
use crate::text::same;

verus! {

/// Where an attribute stands: in front of its item, or inside it.
#[derive(Clone, Copy, PartialEq, Eq, Structural)]
pub enum AttrStyle {
    Outer,
    Inner,
}

/// The shape of an attribute behind its name.
pub enum Meta {
    /// `#[name]`
    Path,
    /// `#[name(..)]`
    List,
    /// `#[name = value]`, with the text that `value` stands for where it is a
    /// string literal.
    NameValue { value: Option<String> },
}

/// An attribute of the enumeration, of a variant or of a field.
pub struct Attribute {
    pub style: AttrStyle,
    /// The name, where the attribute's path is a single identifier.
    pub name: Option<String>,
    pub meta: Meta,
    /// The whole attribute as it is written.
    pub tokens: String,
}

/// A named field of a variant.
pub struct Field {
    pub attrs: Vec<Attribute>,
    pub ident: String,
    /// The field's type as it is written.
    pub ty: String,
}

/// The fields of a variant.
pub enum Fields {
    /// `Variant { a: A, b: B }`
    Named(Vec<Field>),
    /// `Variant(A, B)`
    Unnamed,
    /// `Variant`
    Unit,
}

/// One variant of the enumeration.
pub struct Variant {
    pub attrs: Vec<Attribute>,
    pub ident: String,
    pub fields: Fields,
}

/// What kind of item the derive stands on.
pub enum Data {
    Enum(Vec<Variant>),
    /// A struct or a union.
    Other,
}

/// The whole input of the derive.
pub struct DeriveInput {
    pub attrs: Vec<Attribute>,
    pub ident: String,
    pub data: Data,
}

impl Attribute {
    /// The attribute's path is the single identifier `name`.
    pub open spec fn named(self, name: Seq<char>) -> bool {
        self.name matches Some(n) && n@ == name
    }

    /// Whether the attribute's path is the single identifier `name`.
    pub fn is_ident(&self, name: &str) -> (r: bool)
        ensures
            r == self.named(name@),
    {
        match &self.name {
            Some(n) => same(n.as_str(), name),
            None => false,
        }
    }
}

/// Some attribute among the first `n` of `attrs` has the name `name`.
pub open spec fn marked_within(attrs: Seq<Attribute>, name: Seq<char>, n: int) -> bool {
    exists|k: int| 0 <= k < n && k < attrs.len() && (#[trigger] attrs[k]).named(name)
}

/// Some attribute of `attrs` has the name `name`.
pub open spec fn marked(attrs: Seq<Attribute>, name: Seq<char>) -> bool {
    marked_within(attrs, name, attrs.len() as int)
}

/// Whether some attribute of `attrs` has the name `name`.
pub fn has_attr(attrs: &Vec<Attribute>, name: &str) -> (r: bool)
    ensures
        r == marked(attrs@, name@),
{
    let mut k: usize = 0;
    while k < attrs.len()
        invariant
            k <= attrs.len(),
            !marked_within(attrs@, name@, k as int),
        decreases attrs.len() - k,
    {
        if attrs[k].is_ident(name) {
            return true;
        }
        k = k + 1;
    }
    false
}

} // verus!
