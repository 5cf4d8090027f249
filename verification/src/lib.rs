//! A compiler for error enumerations.
//!
//! A declaration, held as plain data ([`syntax::DeriveInput`]), is read into one
//! [`variant::Sub`] for each variant; from these the text of the implementation is
//! generated: how the error is displayed ([`display`]), what caused it and what
//! help it offers ([`error_impl`]), and the selector types that build each variant
//! ([`make`]).

use vstd::prelude::*;
use crate::errs::Diagnostic;
use crate::syntax::{has_attr, marked, Attribute, DeriveInput, Field};
use crate::text::{append, concat, concat_all, join, join_names, joined, push, text};
use crate::variant::{parse, parsed, Described, Sub};

pub use crate::context::{Context, Help, With};

pub mod compose;
pub mod context;
pub mod display;
pub mod error_impl;
pub mod errs;
pub mod format;
pub mod syntax;
pub mod text;
pub mod tokens;
pub mod validity;
pub mod variant;

verus! {

/// An enumeration, as the generators read it.
pub struct ErrorEnum<'tk> {
    pub enum_name: &'tk str,
    /// The enumeration is marked `top_level`: it displays the help that the
    /// errors along its chain of causes offer.
    pub is_top_level: bool,
    pub variants: Vec<Sub<'tk>>,
}

/// What an [`ErrorEnum`] holds.
pub struct Enumeration {
    pub enum_name: Seq<char>,
    pub is_top_level: bool,
    pub variants: Seq<Described>,
}

impl<'tk> View for ErrorEnum<'tk> {
    type V = Enumeration;

    open spec fn view(&self) -> Enumeration {
        Enumeration {
            enum_name: self.enum_name@,
            is_top_level: self.is_top_level,
            variants: Seq::new(self.variants@.len(), |k: int| self.variants@[k]@),
        }
    }
}

/// The attributes `attrs` as they are written, each with a blank behind it.
pub open spec fn attributes(attrs: Seq<Attribute>) -> Seq<char> {
    concat(Seq::new(attrs.len(), |k: int| attrs[k].tokens@ + " "@))
}

/// A selector field as a parameter of the constructor.
pub open spec fn parameter(f: Field) -> Seq<char> {
    attributes(f.attrs@) + f.ident@ + ": "@ + f.ty@
}

/// A selector field as a member of the selector type.
pub open spec fn member(f: Field) -> Seq<char> {
    "    "@ + attributes(f.attrs@) + "pub "@ + f.ident@ + ": "@ + f.ty@ + ",\n"@
}

/// The selector type of `v`: a unit struct, or a struct of the selector fields.
pub open spec fn selector_type(v: Described) -> Seq<char> {
    if v.selector_fields.len() == 0 {
        "pub struct "@ + v.name + ";\n"@
    } else {
        "pub struct "@ + v.name + " {\n"@ + concat(
            Seq::new(v.selector_fields.len(), |k: int| member(v.selector_fields[k])),
        ) + "}\n"@
    }
}

/// The statement that takes the location of the caller.
pub const TAKE_LOCATION: &'static str =
    "        let location = ::core::panic::Location::caller();\n";

/// The statements that turn a selector into its variant: the location is taken,
/// if the variant has one; the selector is taken apart; the variant is built.
pub open spec fn assembly(v: Described) -> Seq<char> {
    let build = "        let "@ + v.name + " { "@ + joined(v.selector_field_names, ", "@)
        + " } = self;\n"@ + "        "@ + v.enum_name + "::"@ + v.name + " { "@ + joined(
        v.all_field_names,
        ", "@,
    ) + " }\n"@;
    if v.location is Some {
        TAKE_LOCATION@ + build
    } else {
        build
    }
}

/// The binding of a selector to a failed result that holds the cause, of the
/// type `cause`.
pub open spec fn binding_to_cause(v: Described, cause: Seq<char>) -> Seq<char> {
    "impl ::error::With<::core::result::Result<::core::convert::Infallible, "@ + cause + ">, "@
        + v.enum_name + "> for "@ + v.name + " {\n"@
        + "    fn bind(self, source: ::core::result::Result<::core::convert::Infallible, "@ + cause
        + ">) -> "@ + v.enum_name + " {\n"@ + "        let source = match source {\n"@
        + "            Ok(f) => match f {},\n"@ + "            Err(e) => e,\n"@ + "        };\n"@
        + assembly(v) + "    }\n"@ + "}\n"@
}

/// The bindings of a selector without a cause: to a failed result of any error
/// type, and to an empty option.
pub open spec fn bindings_without_cause(v: Described) -> Seq<char> {
    "impl<E: ::core::error::Error> ::error::With<::core::result::Result<::core::convert::Infallible, E>, "@
        + v.enum_name + "> for "@ + v.name + " {\n"@
        + "    fn bind(self, _: ::core::result::Result<::core::convert::Infallible, E>) -> "@
        + v.enum_name + " {\n"@ + assembly(v) + "    }\n"@ + "}\n"@
        + "impl ::error::With<::core::option::Option<::core::convert::Infallible>, "@
        + v.enum_name + "> for "@ + v.name + " {\n"@
        + "    fn bind(self, _: ::core::option::Option<::core::convert::Infallible>) -> "@
        + v.enum_name + " {\n"@ + assembly(v) + "    }\n"@ + "}\n"@
}

/// The constructor of a variant without a cause: a function of the selector
/// fields that takes the caller's location where the variant has one.
pub open spec fn constructor(v: Described) -> Seq<char> {
    let head = "impl "@ + v.name + " {\n"@ + "    #[track_caller]\n"@ + "    pub fn new("@ + joined(
        Seq::new(v.selector_fields.len(), |k: int| parameter(v.selector_fields[k])),
        ", "@,
    ) + ") -> "@ + v.enum_name + " {\n"@;
    (if v.location is Some {
        head + TAKE_LOCATION@
    } else {
        head
    }) + "        "@ + v.enum_name + "::"@ + v.name + " { "@ + joined(v.all_field_names, ", "@)
        + " }\n"@ + "    }\n"@ + "}\n"@
}

/// What is generated for the variant `v` beside the enumeration's own impls:
/// its selector type; with a cause, the binding that takes the cause out of a
/// failed result; without one, the bindings to any failed result and to an empty
/// option, and the constructor.
pub open spec fn selector(v: Described) -> Seq<char> {
    match v.source {
        Some(cause) => selector_type(v) + binding_to_cause(v, cause),
        None => selector_type(v) + bindings_without_cause(v) + constructor(v),
    }
}

fn make_attributes(attrs: &Vec<Attribute>) -> (out: String)
    ensures
        out@ == attributes(attrs@),
{
    let mut parts: Vec<String> = Vec::new();
    let mut k: usize = 0;
    while k < attrs.len()
        invariant
            k <= attrs.len(),
            parts.deep_view() == Seq::new(k as nat, |j: int| attrs@[j].tokens@ + " "@),
        decreases attrs.len() - k,
    {
        let mut part = text(attrs[k].tokens.as_str());
        push(&mut part, " ");
        append(&mut parts, part);
        k = k + 1;
        assert(parts.deep_view() == Seq::new(k as nat, |j: int| attrs@[j].tokens@ + " "@));
    }
    concat_all(&parts)
}

fn make_parameter(f: &Field) -> (out: String)
    ensures
        out@ == parameter(*f),
{
    let mut out = make_attributes(&f.attrs);
    push(&mut out, f.ident.as_str());
    push(&mut out, ": ");
    push(&mut out, f.ty.as_str());
    out
}

fn make_member(f: &Field) -> (out: String)
    ensures
        out@ == member(*f),
{
    let mut out = text("    ");
    push(&mut out, make_attributes(&f.attrs).as_str());
    push(&mut out, "pub ");
    push(&mut out, f.ident.as_str());
    push(&mut out, ": ");
    push(&mut out, f.ty.as_str());
    push(&mut out, ",\n");
    out
}

fn make_selector_type(v: &Sub<'_>) -> (out: String)
    ensures
        out@ == selector_type(v@),
{
    let mut out = text("pub struct ");
    push(&mut out, v.name);
    if v.selector_fields.len() == 0 {
        push(&mut out, ";\n");
    } else {
        push(&mut out, " {\n");
        let mut parts: Vec<String> = Vec::new();
        let mut k: usize = 0;
        while k < v.selector_fields.len()
            invariant
                k <= v.selector_fields.len(),
                parts.deep_view() == Seq::new(k as nat, |j: int| member(v@.selector_fields[j])),
            decreases v.selector_fields.len() - k,
        {
            append(&mut parts, make_member(v.selector_fields[k]));
            k = k + 1;
            assert(parts.deep_view() == Seq::new(
                k as nat,
                |j: int| member(v@.selector_fields[j]),
            ));
        }
        push(&mut out, concat_all(&parts).as_str());
        push(&mut out, "}\n");
    }
    out
}

fn make_assembly(v: &Sub<'_>) -> (out: String)
    ensures
        out@ == assembly(v@),
{
    let mut build = text("        let ");
    push(&mut build, v.name);
    push(&mut build, " { ");
    push(&mut build, join_names(&v.selector_field_names, ", ").as_str());
    push(&mut build, " } = self;\n");
    push(&mut build, "        ");
    push(&mut build, v.enum_name);
    push(&mut build, "::");
    push(&mut build, v.name);
    push(&mut build, " { ");
    push(&mut build, join_names(&v.all_field_names, ", ").as_str());
    push(&mut build, " }\n");
    if v.location.is_some() {
        let mut out = text(TAKE_LOCATION);
        push(&mut out, build.as_str());
        out
    } else {
        build
    }
}

fn make_binding_to_cause(v: &Sub<'_>, cause: &str) -> (out: String)
    ensures
        out@ == binding_to_cause(v@, cause@),
{
    let mut out = text("impl ::error::With<::core::result::Result<::core::convert::Infallible, ");
    push(&mut out, cause);
    push(&mut out, ">, ");
    push(&mut out, v.enum_name);
    push(&mut out, "> for ");
    push(&mut out, v.name);
    push(&mut out, " {\n");
    push(&mut out, "    fn bind(self, source: ::core::result::Result<::core::convert::Infallible, ");
    push(&mut out, cause);
    push(&mut out, ">) -> ");
    push(&mut out, v.enum_name);
    push(&mut out, " {\n");
    push(&mut out, "        let source = match source {\n");
    push(&mut out, "            Ok(f) => match f {},\n");
    push(&mut out, "            Err(e) => e,\n");
    push(&mut out, "        };\n");
    push(&mut out, make_assembly(v).as_str());
    push(&mut out, "    }\n");
    push(&mut out, "}\n");
    out
}

fn make_bindings_without_cause(v: &Sub<'_>) -> (out: String)
    ensures
        out@ == bindings_without_cause(v@),
{
    let assembly = make_assembly(v);
    let mut out = text(
        "impl<E: ::core::error::Error> ::error::With<::core::result::Result<::core::convert::Infallible, E>, ",
    );
    push(&mut out, v.enum_name);
    push(&mut out, "> for ");
    push(&mut out, v.name);
    push(&mut out, " {\n");
    push(&mut out, "    fn bind(self, _: ::core::result::Result<::core::convert::Infallible, E>) -> ");
    push(&mut out, v.enum_name);
    push(&mut out, " {\n");
    push(&mut out, assembly.as_str());
    push(&mut out, "    }\n");
    push(&mut out, "}\n");
    push(&mut out, "impl ::error::With<::core::option::Option<::core::convert::Infallible>, ");
    push(&mut out, v.enum_name);
    push(&mut out, "> for ");
    push(&mut out, v.name);
    push(&mut out, " {\n");
    push(&mut out, "    fn bind(self, _: ::core::option::Option<::core::convert::Infallible>) -> ");
    push(&mut out, v.enum_name);
    push(&mut out, " {\n");
    push(&mut out, assembly.as_str());
    push(&mut out, "    }\n");
    push(&mut out, "}\n");
    out
}

fn make_constructor(v: &Sub<'_>) -> (out: String)
    ensures
        out@ == constructor(v@),
{
    let mut parts: Vec<String> = Vec::new();
    let mut k: usize = 0;
    while k < v.selector_fields.len()
        invariant
            k <= v.selector_fields.len(),
            parts.deep_view() == Seq::new(k as nat, |j: int| parameter(v@.selector_fields[j])),
        decreases v.selector_fields.len() - k,
    {
        append(&mut parts, make_parameter(v.selector_fields[k]));
        k = k + 1;
        assert(parts.deep_view() == Seq::new(
            k as nat,
            |j: int| parameter(v@.selector_fields[j]),
        ));
    }
    let mut out = text("impl ");
    push(&mut out, v.name);
    push(&mut out, " {\n");
    push(&mut out, "    #[track_caller]\n");
    push(&mut out, "    pub fn new(");
    push(&mut out, join(&parts, ", ").as_str());
    push(&mut out, ") -> ");
    push(&mut out, v.enum_name);
    push(&mut out, " {\n");
    if v.location.is_some() {
        push(&mut out, TAKE_LOCATION);
    }
    push(&mut out, "        ");
    push(&mut out, v.enum_name);
    push(&mut out, "::");
    push(&mut out, v.name);
    push(&mut out, " { ");
    push(&mut out, join_names(&v.all_field_names, ", ").as_str());
    push(&mut out, " }\n");
    push(&mut out, "    }\n");
    push(&mut out, "}\n");
    out
}

/// Generates what belongs to the variant `v` beside the enumeration's own impls:
/// the selector type, its bindings and, for a variant without a cause, its
/// constructor.
pub fn make(v: &Sub<'_>) -> (out: String)
    ensures
        out@ == selector(v@),
{
    let mut out = make_selector_type(v);
    match v.source {
        Some(cause) => {
            push(&mut out, make_binding_to_cause(v, cause).as_str());
        },
        None => {
            push(&mut out, make_bindings_without_cause(v).as_str());
            push(&mut out, make_constructor(v).as_str());
        },
    }
    out
}

/// The enumeration that `input` declares, where its variants are `variants`.
pub open spec fn enumeration(input: DeriveInput, variants: Seq<Described>) -> Enumeration {
    Enumeration {
        enum_name: input.ident@,
        is_top_level: marked(input.attrs@, "top_level"@),
        variants,
    }
}

/// The implementation of the enumeration `e`: how it is displayed, what caused
/// it and what help it offers, and what belongs to each variant.
pub open spec fn implementation(e: Enumeration) -> Seq<char> {
    display::rendering(e) + error_impl::chaining(e) + concat(
        Seq::new(e.variants.len(), |k: int| selector(e.variants[k])),
    )
}

/// What is generated for the declaration `input`: its implementation, or the
/// first problem with it, and then nothing else.
pub open spec fn generated(input: DeriveInput) -> Result<Seq<char>, Diagnostic> {
    match parsed(input) {
        Ok(variants) => Ok(implementation(enumeration(input, variants))),
        Err(d) => Err(d),
    }
}

/// Generates the implementation of the error enumeration that `input` declares.
///
/// Fails with the first problem of the declaration; nothing is generated then.
pub fn error_impl(input: &DeriveInput) -> (r: Result<String, Diagnostic>)
    ensures
        match generated(*input) {
            Ok(code) => r matches Ok(out) && out@ == code,
            Err(d) => r == Err::<String, Diagnostic>(d),
        },
{
    let variants = match parse(input) {
        Ok(variants) => variants,
        Err(d) => {
            return Err(d);
        },
    };
    let e = ErrorEnum {
        enum_name: input.ident.as_str(),
        is_top_level: has_attr(&input.attrs, "top_level"),
        variants,
    };
    assert(e@.variants == parsed(*input)->Ok_0);
    let mut selectors: Vec<String> = Vec::new();
    let mut k: usize = 0;
    while k < e.variants.len()
        invariant
            k <= e.variants.len(),
            selectors.deep_view() == Seq::new(k as nat, |j: int| selector(e@.variants[j])),
        decreases e.variants.len() - k,
    {
        append(&mut selectors, make(&e.variants[k]));
        k = k + 1;
        assert(selectors.deep_view() == Seq::new(k as nat, |j: int| selector(e@.variants[j])));
    }
    let mut out = display::make_impl(&e);
    push(&mut out, error_impl::make_impl(&e).as_str());
    push(&mut out, concat_all(&selectors).as_str());
    Ok(out)
}

} // verus!
