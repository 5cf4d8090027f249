use error_derive::errs::{Diagnostic, Place, Problem, Span};
use error_derive::syntax::{AttrStyle, Attribute, Data, DeriveInput, Field, Fields, Meta, Variant};
use error_derive::variant::parse;
use quote::ToTokens;

fn attribute(attr: &syn::Attribute) -> Attribute {
    Attribute {
        style: match attr.style {
            syn::AttrStyle::Outer => AttrStyle::Outer,
            syn::AttrStyle::Inner(_) => AttrStyle::Inner,
        },
        name: attr.path().get_ident().map(|ident| ident.to_string()),
        meta: match &attr.meta {
            syn::Meta::Path(_) => Meta::Path,
            syn::Meta::List(_) => Meta::List,
            syn::Meta::NameValue(pair) => Meta::NameValue {
                value: match &pair.value {
                    syn::Expr::Lit(syn::ExprLit {
                        lit: syn::Lit::Str(text),
                        ..
                    }) => Some(text.value()),
                    _ => None,
                },
            },
        },
        tokens: attr.to_token_stream().to_string(),
    }
}

fn field(field: &syn::Field) -> Field {
    Field {
        attrs: field.attrs.iter().map(attribute).collect(),
        ident: field.ident.as_ref().unwrap().to_string(),
        ty: field.ty.to_token_stream().to_string(),
    }
}

fn variant(variant: &syn::Variant) -> Variant {
    Variant {
        attrs: variant.attrs.iter().map(attribute).collect(),
        ident: variant.ident.to_string(),
        fields: match &variant.fields {
            syn::Fields::Named(fields) => Fields::Named(fields.named.iter().map(field).collect()),
            syn::Fields::Unnamed(_) => Fields::Unnamed,
            syn::Fields::Unit => Fields::Unit,
        },
    }
}

fn read(code: &str) -> DeriveInput {
    let input = syn::parse_str::<syn::DeriveInput>(code).unwrap();
    DeriveInput {
        attrs: input.attrs.iter().map(attribute).collect(),
        ident: input.ident.to_string(),
        data: match &input.data {
            syn::Data::Enum(data) => Data::Enum(data.variants.iter().map(variant).collect()),
            _ => Data::Other,
        },
    }
}

fn problem(code: &str) -> Diagnostic {
    let input = read(code);
    let found = match parse(&input) {
        Ok(_) => panic!("the declaration was read"),
        Err(diagnostic) => diagnostic,
    };
    found
}

#[test]
fn a_struct_is_refused() {
    let found = problem("struct S { a: u8 }");
    assert!(found == Diagnostic { problem: Problem::OnlyEnum, place: Place::Input });
    assert_eq!(found.problem.message(), "only enum errors are supported");
}

#[test]
fn a_variant_without_message_is_refused() {
    let found = problem("enum E { #[error = \"a\"] A, #[help = \"h\"] B }");
    assert!(
        found
            == Diagnostic {
                problem: Problem::NeedErrorText,
                place: Place::Variant { variant: 1 }
            }
    );
    assert_eq!(
        found.problem.message(),
        "at least one `#[error = \"msg\"]` attribute is required"
    );
}

#[test]
fn a_second_cause_is_refused() {
    let found = problem(
        "enum E { #[error = \"a\"] A { #[source] source: X, b: u8, #[source] source: Y } }",
    );
    assert!(
        found
            == Diagnostic {
                problem: Problem::DupeSource,
                place: Place::Field { variant: 0, field: 2 }
            }
    );
    assert_eq!(found.problem.message(), "more than one `#[source]` attribute");
}

#[test]
fn a_misnamed_cause_is_refused() {
    let found = problem("enum E { #[error = \"a\"] A { b: u8, #[source] cause: X } }");
    assert!(
        found
            == Diagnostic {
                problem: Problem::MustBeNamedSource,
                place: Place::FieldName { variant: 0, field: 1 }
            }
    );
    assert_eq!(
        found.problem.message(),
        "field of `#[source]` must be named `source`"
    );
}

#[test]
fn a_second_location_is_refused() {
    let found = problem(
        "enum E { #[error = \"a\"] A { #[location] location: L, #[location] location: L } }",
    );
    assert!(
        found
            == Diagnostic {
                problem: Problem::DupeLocation,
                place: Place::Field { variant: 0, field: 1 }
            }
    );
    assert_eq!(found.problem.message(), "more than one `#[location]` attribute");
}

#[test]
fn a_misnamed_location_is_refused() {
    let found = problem("enum E { #[error = \"a\"] A { #[location] at: L } }");
    assert!(
        found
            == Diagnostic {
                problem: Problem::MustBeNamedLocation,
                place: Place::FieldName { variant: 0, field: 0 }
            }
    );
    assert_eq!(
        found.problem.message(),
        "field of `#[location]` must be named `location`"
    );
}

#[test]
fn unnamed_fields_are_refused() {
    let found = problem("enum E { #[error = \"a\"] A, #[error = \"b\"] B(u8) }");
    assert!(
        found
            == Diagnostic {
                problem: Problem::OnlyNamedFields,
                place: Place::Variant { variant: 1 }
            }
    );
    assert_eq!(
        found.problem.message(),
        "only enums with named fields are supported"
    );
}

#[test]
fn the_missing_message_comes_before_the_fields() {
    let found = problem("enum E { A(u8) }");
    assert!(found.problem == Problem::NeedErrorText);
}

#[test]
fn an_inner_attribute_is_refused() {
    let mut input = read("enum E { #[doc = \"d\"] #[error = \"{\"] A }");
    if let Data::Enum(variants) = &mut input.data {
        variants[0].attrs[0].style = AttrStyle::Inner;
    }
    let found = match parse(&input) {
        Ok(_) => panic!("the declaration was read"),
        Err(diagnostic) => diagnostic,
    };
    assert!(
        found
            == Diagnostic {
                problem: Problem::NoInner,
                place: Place::Attribute { variant: 0, attr: 0 }
            }
    );
    assert_eq!(
        found.problem.message(),
        "inner attributes are not supported in this position"
    );
}

#[test]
fn a_nameless_placeholder_is_refused() {
    let found = problem("enum E { #[error = \"a\"] #[error = \"whatever {}\"] A }");
    assert!(
        found
            == Diagnostic {
                problem: Problem::NoFormatArg,
                place: Place::Literal {
                    variant: 0,
                    attr: 1,
                    span: Span { start: 9, end: 11 }
                }
            }
    );
    assert_eq!(
        found.problem.message(),
        "positional argument in format string, but no arguments were given"
    );
}

#[test]
fn an_open_placeholder_is_refused() {
    let found = problem("enum E { #[error = \"ab {c\"] A }");
    assert!(
        found
            == Diagnostic {
                problem: Problem::BadFormat,
                place: Place::Literal {
                    variant: 0,
                    attr: 0,
                    span: Span { start: 0, end: 5 }
                }
            }
    );
    assert_eq!(found.problem.message(), "malformed format string");
}

#[test]
fn an_argument_that_is_no_expression_is_refused() {
    let found = problem("enum E { #[error = \"a\"] #[help = \"ab {+}\"] A }");
    assert!(
        found
            == Diagnostic {
                problem: Problem::BadArgument,
                place: Place::Literal {
                    variant: 0,
                    attr: 1,
                    span: Span { start: 4, end: 5 }
                }
            }
    );
    assert_eq!(
        found.problem.message(),
        "cannot parse argument as an expression"
    );
}

#[test]
fn a_message_that_is_no_string_is_refused() {
    let found = problem("enum E { #[error = 5] A }");
    assert!(
        found
            == Diagnostic {
                problem: Problem::NeedString,
                place: Place::Attribute { variant: 0, attr: 0 }
            }
    );
    assert_eq!(found.problem.message(), "expected string literal");
}

#[test]
fn the_first_problem_is_reported() {
    let found = problem("enum E { #[error = \"a\"] A(u8), B { #[source] x: X } }");
    assert!(found.problem == Problem::OnlyNamedFields);
    assert!(found.place == Place::Variant { variant: 0 });
}

#[test]
fn a_cause_and_a_selector_field() {
    let input = read(
        "enum E { #[error = \"cannot open {file}: {source}\"] Open { file: String, #[source] source: std::io::Error } }",
    );
    let subs = parse(&input).ok().unwrap();
    assert_eq!(subs.len(), 1);
    let sub = &subs[0];
    assert_eq!(sub.enum_name, "E");
    assert_eq!(sub.name, "Open");
    assert_eq!(sub.source, Some("std :: io :: Error"));
    assert_eq!(sub.location, None);
    assert_eq!(sub.selector_fields.len(), 1);
    assert_eq!(sub.selector_fields[0].ident, "file");
    assert_eq!(sub.selector_field_names, vec!["file"]);
    assert_eq!(sub.all_field_names, vec!["file", "source"]);
    assert_eq!(sub.help_text.len(), 0);
    assert_eq!(sub.error_text.len(), 1);
    let text = &sub.error_text[0];
    assert_eq!(text.lit, "\"cannot open {}: {}\"");
    assert_eq!(text.args.len(), 2);
    assert_eq!(text.args[0].tokens, "file");
    assert!(text.args[0].span == Span { start: 13, end: 17 });
    assert_eq!(text.args[1].tokens, "source");
    assert!(text.args[1].span == Span { start: 21, end: 27 });
}

#[test]
fn an_escape_and_an_argument() {
    let input = read("enum E { #[error = \"value {{escaped}} but got {x}\"] A { x: u8 } }");
    let subs = parse(&input).ok().unwrap();
    let text = &subs[0].error_text[0];
    assert_eq!(text.lit, "\"value {{escaped}} but got {}\"");
    assert_eq!(text.args.len(), 1);
    assert_eq!(text.args[0].tokens, "x");
    assert!(text.args[0].span == Span { start: 27, end: 28 });
}

#[test]
fn messages_and_help_in_their_order() {
    let input = read(
        "enum E { #[error = \"one\"] #[help = \"try {this}\"] #[doc = \"d\"] #[error = \"two\"] #[help(x)] #[error] A { this: u8 }, #[error = \"b\"] B }",
    );
    let subs = parse(&input).ok().unwrap();
    assert_eq!(subs.len(), 2);
    assert_eq!(subs[0].error_text.len(), 2);
    assert_eq!(subs[0].error_text[0].lit, "\"one\"");
    assert_eq!(subs[0].error_text[1].lit, "\"two\"");
    assert_eq!(subs[0].help_text.len(), 1);
    assert_eq!(subs[0].help_text[0].lit, "\"try {}\"");
    assert_eq!(subs[0].help_text[0].args[0].tokens, "this");
    assert_eq!(subs[1].name, "B");
    assert_eq!(subs[1].all_field_names.len(), 0);
}

#[test]
fn a_location_and_no_cause() {
    let input = read(
        "enum E { #[error = \"bad {n}\"] Bad { n: u8, #[location] location: &'static core::panic::Location<'static>, m: u16 } }",
    );
    let subs = parse(&input).ok().unwrap();
    let sub = &subs[0];
    assert_eq!(sub.source, None);
    assert_eq!(
        sub.location,
        Some("& 'static core :: panic :: Location < 'static >")
    );
    assert_eq!(sub.selector_field_names, vec!["n", "m"]);
    assert_eq!(sub.all_field_names, vec!["n", "location", "m"]);
}

#[test]
fn a_field_marked_twice_is_the_cause() {
    let input = read("enum E { #[error = \"a\"] A { #[location] #[source] source: X } }");
    let subs = parse(&input).ok().unwrap();
    assert_eq!(subs[0].source, Some("X"));
    assert_eq!(subs[0].location, None);
    assert_eq!(subs[0].selector_fields.len(), 0);
}

#[test]
fn an_expression_as_argument() {
    let input = read("enum E { #[error = \"{a.b:>4} and { c }\"] A { a: P, c: u8 } }");
    let subs = parse(&input).ok().unwrap();
    let text = &subs[0].error_text[0];
    assert_eq!(text.lit, "\"{:>4} and {}\"");
    assert_eq!(text.args[0].tokens, "a . b");
    assert!(text.args[0].span == Span { start: 1, end: 4 });
    assert_eq!(text.args[1].tokens, "c");
    assert!(text.args[1].span == Span { start: 14, end: 17 });
}

#[test]
fn a_literal_is_written_with_its_escapes() {
    let input = read("enum E { #[error = \"say \\\"{x}\\\"\\n\"] A { x: u8 } }");
    let subs = parse(&input).ok().unwrap();
    assert_eq!(subs[0].error_text[0].lit, "\"say \\\"{}\\\"\\n\"");
}
