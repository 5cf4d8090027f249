use error_derive::display;
use error_derive::error_impl;
use error_derive::error_impl as generate;
use error_derive::make;
use error_derive::syntax::{AttrStyle, Attribute, Data, DeriveInput, Field, Fields, Meta, Variant};
use error_derive::variant::parse;
use error_derive::ErrorEnum;
use quote::ToTokens;

fn attribute(attr: &syn::Attribute) -> Attribute {
    Attribute {
        style: match attr.style {
            syn::AttrStyle::Outer => AttrStyle::Outer,
            syn::AttrStyle::Inner(_) => AttrStyle::Inner,
        },
        name: attr.path().get_ident().map(|ident| ident.to_string()),
        meta: match &attr.meta {
            syn::Meta::Path(_) => Meta::Path,
            syn::Meta::List(_) => Meta::List,
            syn::Meta::NameValue(pair) => Meta::NameValue {
                value: match &pair.value {
                    syn::Expr::Lit(syn::ExprLit {
                        lit: syn::Lit::Str(text),
                        ..
                    }) => Some(text.value()),
                    _ => None,
                },
            },
        },
        tokens: attr.to_token_stream().to_string(),
    }
}

fn field(field: &syn::Field) -> Field {
    Field {
        attrs: field.attrs.iter().map(attribute).collect(),
        ident: field.ident.as_ref().unwrap().to_string(),
        ty: field.ty.to_token_stream().to_string(),
    }
}

fn variant(variant: &syn::Variant) -> Variant {
    Variant {
        attrs: variant.attrs.iter().map(attribute).collect(),
        ident: variant.ident.to_string(),
        fields: match &variant.fields {
            syn::Fields::Named(fields) => Fields::Named(fields.named.iter().map(field).collect()),
            syn::Fields::Unnamed(_) => Fields::Unnamed,
            syn::Fields::Unit => Fields::Unit,
        },
    }
}

fn declaration(code: &str) -> DeriveInput {
    let input = syn::parse_str::<syn::DeriveInput>(code).unwrap();
    DeriveInput {
        attrs: input.attrs.iter().map(attribute).collect(),
        ident: input.ident.to_string(),
        data: match &input.data {
            syn::Data::Enum(data) => Data::Enum(data.variants.iter().map(variant).collect()),
            _ => Data::Other,
        },
    }
}

/// The tokens of `code`, as one line.
fn tokens(code: &str) -> String {
    syn::parse_str::<proc_macro2::TokenStream>(code)
        .unwrap()
        .to_string()
}

/// The places of `parts` in `code`, which must hold them in this order.
fn in_order(code: &str, parts: &[&str]) -> bool {
    let mut from = 0;
    for part in parts {
        match code[from..].find(part) {
            Some(at) => from += at + part.len(),
            None => return false,
        }
    }
    true
}

const OPEN: &str = "#[top_level] enum E { \
    #[error = \"cannot open {file}: {source}\"] \
    #[error = \"in {dir:?}\"] \
    #[help = \"check {file}\"] \
    #[help = \"or {dir:?}\"] \
    Open { file: String, #[doc = \"the directory\"] dir: String, #[source] source: std::io::Error, #[location] location: L }, \
    #[error = \"bad {n}\"] Bad { n: u8, #[location] location: L }, \
    #[error = \"done\"] Done }";

#[test]
fn the_generated_code_is_rust() {
    let input = declaration(OPEN);
    let code = generate(&input).ok().unwrap();
    let file = syn::parse_str::<syn::File>(&code).unwrap();
    // Debug, Display, Error; for `Open` a type and a binding; for `Bad` and
    // `Done` a type, two bindings and a constructor each.
    assert_eq!(file.items.len(), 3 + 2 + 4 + 4);
}

#[test]
fn the_parts_come_in_their_order() {
    let input = declaration(OPEN);
    let code = generate(&input).ok().unwrap();
    let subs = parse(&input).ok().unwrap();
    let e = ErrorEnum { enum_name: "E", is_top_level: true, variants: subs };
    let mut expected = display::make_impl(&e);
    expected.push_str(&error_impl::make_impl(&e));
    for sub in &e.variants {
        expected.push_str(&make(sub));
    }
    assert_eq!(code, expected);
}

#[test]
fn a_problem_leaves_nothing_generated() {
    let input = declaration("enum E { #[error = \"a\"] A, B }");
    assert!(generate(&input).is_err());
}

#[test]
fn a_variant_with_a_cause_is_displayed_with_it() {
    let input = declaration(OPEN);
    let subs = parse(&input).ok().unwrap();
    let e = ErrorEnum { enum_name: "E", is_top_level: true, variants: subs };
    let code = display::make_impl(&e);
    assert!(in_order(
        &code,
        &[
            "impl ::core::fmt::Debug for E {",
            "::core::fmt::Display::fmt(self, f)",
            "impl ::core::fmt::Display for E {",
            "_arm @ E::Open { file, dir, source, location, .. } => {",
            "write!(f, \"cannot open {}: {}\", file, source)?;",
            "write!(f, \"in {:?}\", dir)?;",
            "if let E::Open { location, .. } = _arm {",
            "write!(f, \" (at {})\", location)?;",
            "::core::fmt::Display::fmt(\"\\n\", f)?;",
            "_arm @ E::Bad { n, location, .. } => {",
            "_arm @ E::Done { .. } => {",
            "write!(f, \"done\", )?;",
            "__unreachable =>",
            "if let Some(source) = ::core::error::Error::source(self) {",
            "::core::fmt::Display::fmt(\"Caused by: \", f)?;",
            "::core::fmt::Display::fmt(source, f)?;",
            "for error in (self as &dyn ::core::error::Error).sources() {",
            "::core::error::request_value::<::error::Help>(error)",
            "::core::fmt::Display::fmt(&help, f)?;",
            "Ok(())",
        ]
    ));
}

#[test]
fn only_a_top_level_enumeration_displays_help() {
    let input = declaration("enum E { #[error = \"a\"] A }");
    let subs = parse(&input).ok().unwrap();
    let plain = ErrorEnum { enum_name: "E", is_top_level: false, variants: subs };
    let code = display::make_impl(&plain);
    assert!(code.contains("Caused by: "));
    assert!(!code.contains("request_value"));
    let top = ErrorEnum { is_top_level: true, ..plain };
    assert!(display::make_impl(&top).contains("request_value"));
}

#[test]
fn the_display_arm_of_a_variant() {
    let input = declaration("enum E { #[error = \"bad {n}\"] Bad { n: u8, #[location] location: L } }");
    let subs = parse(&input).ok().unwrap();
    assert_eq!(
        tokens(&display::make_arm(&subs[0])),
        tokens(
            "_arm @ E::Bad { n, location, .. } => { \
                write!(f, \"bad {}\", n)?; \
                if let E::Bad { location, .. } = _arm { write!(f, \" (at {})\", location)?; } \
                ::core::fmt::Display::fmt(\"\\n\", f)?; \
            },"
        )
    );
}

#[test]
fn the_cause_of_each_variant() {
    let input = declaration(OPEN);
    let subs = parse(&input).ok().unwrap();
    assert_eq!(
        tokens(&error_impl::make_source_arm(&subs[0])),
        tokens("E::Open { source, .. } => { ::core::option::Option::Some(source) },")
    );
    assert_eq!(
        tokens(&error_impl::make_source_arm(&subs[1])),
        tokens("E::Bad { .. } => ::core::option::Option::None,")
    );
}

#[test]
fn the_help_of_each_variant() {
    let input = declaration(OPEN);
    let subs = parse(&input).ok().unwrap();
    assert_eq!(
        tokens(&error_impl::make_provide_arm(&subs[0])),
        tokens(
            "E::Open { file, dir, source, location } => { \
                request.provide_value_with::<::error::Help>(|| { \
                    use core::fmt::Write; \
                    let mut msg = ::std::string::String::new(); \
                    write!(&mut msg, \"Help: \").unwrap(); \
                    writeln!(&mut msg, \"check {}\", file).unwrap(); \
                    write!(&mut msg, \"Help: \").unwrap(); \
                    writeln!(&mut msg, \"or {:?}\", dir).unwrap(); \
                    ::error::Help::new(msg) \
                }); \
            },"
        )
    );
    assert_eq!(
        tokens(&error_impl::make_provide_arm(&subs[1])),
        tokens("E::Bad { .. } => {},")
    );
}

#[test]
fn the_impl_of_error() {
    let input = declaration("enum E { #[error = \"a\"] A }");
    let subs = parse(&input).ok().unwrap();
    let e = ErrorEnum { enum_name: "E", is_top_level: false, variants: subs };
    assert_eq!(
        tokens(&error_impl::make_impl(&e)),
        tokens(
            "impl ::core::error::Error for E { \
                fn source(&self) -> ::core::option::Option<&(dyn ::core::error::Error + 'static)> { \
                    match self { \
                        E::A { .. } => ::core::option::Option::None, \
                        __unreachable => None, \
                    } \
                } \
                fn provide<'a>(&'a self, request: &mut ::core::error::Request<'a>) { \
                    #[allow(unused_variables)] \
                    match self { \
                        E::A { .. } => {}, \
                        __unreachable => {} \
                    } \
                } \
            }"
        )
    );
}

#[test]
fn a_selector_with_a_cause_binds_to_it() {
    let input = declaration(OPEN);
    let subs = parse(&input).ok().unwrap();
    assert_eq!(
        tokens(&make(&subs[0])),
        tokens(
            "pub struct Open { pub file: String, #[doc = \"the directory\"] pub dir: String, } \
            impl ::error::With<::core::result::Result<::core::convert::Infallible, std::io::Error>, E> for Open { \
                fn bind(self, source: ::core::result::Result<::core::convert::Infallible, std::io::Error>) -> E { \
                    let source = match source { Ok(f) => match f {}, Err(e) => e, }; \
                    let location = ::core::panic::Location::caller(); \
                    let Open { file, dir } = self; \
                    E::Open { file, dir, source, location } \
                } \
            }"
        )
    );
}

#[test]
fn a_selector_with_a_location_and_no_cause() {
    let input = declaration(OPEN);
    let subs = parse(&input).ok().unwrap();
    assert_eq!(
        tokens(&make(&subs[1])),
        tokens(
            "pub struct Bad { pub n: u8, } \
            impl<E: ::core::error::Error> ::error::With<::core::result::Result<::core::convert::Infallible, E>, E> for Bad { \
                fn bind(self, _: ::core::result::Result<::core::convert::Infallible, E>) -> E { \
                    let location = ::core::panic::Location::caller(); \
                    let Bad { n } = self; \
                    E::Bad { n, location } \
                } \
            } \
            impl ::error::With<::core::option::Option<::core::convert::Infallible>, E> for Bad { \
                fn bind(self, _: ::core::option::Option<::core::convert::Infallible>) -> E { \
                    let location = ::core::panic::Location::caller(); \
                    let Bad { n } = self; \
                    E::Bad { n, location } \
                } \
            } \
            impl Bad { \
                #[track_caller] \
                pub fn new(n: u8) -> E { \
                    let location = ::core::panic::Location::caller(); \
                    E::Bad { n, location } \
                } \
            }"
        )
    );
}

#[test]
fn a_selector_without_fields() {
    let input = declaration(OPEN);
    let subs = parse(&input).ok().unwrap();
    assert_eq!(
        tokens(&make(&subs[2])),
        tokens(
            "pub struct Done; \
            impl<E: ::core::error::Error> ::error::With<::core::result::Result<::core::convert::Infallible, E>, E> for Done { \
                fn bind(self, _: ::core::result::Result<::core::convert::Infallible, E>) -> E { \
                    let Done { } = self; \
                    E::Done { } \
                } \
            } \
            impl ::error::With<::core::option::Option<::core::convert::Infallible>, E> for Done { \
                fn bind(self, _: ::core::option::Option<::core::convert::Infallible>) -> E { \
                    let Done { } = self; \
                    E::Done { } \
                } \
            } \
            impl Done { \
                #[track_caller] \
                pub fn new() -> E { \
                    E::Done { } \
                } \
            }"
        )
    );
}

#[test]
fn the_constructor_keeps_the_attributes_of_a_field() {
    let input = declaration("enum E { #[error = \"a\"] A { #[doc = \"x\"] #[allow(unused)] a: u8, b: u8 } }");
    let subs = parse(&input).ok().unwrap();
    let code = tokens(&make(&subs[0]));
    assert!(code.contains(&tokens(
        "pub fn new(#[doc = \"x\"] #[allow(unused)] a: u8, b: u8) -> E"
    )));
    assert!(code.contains(&tokens(
        "pub struct A { #[doc = \"x\"] #[allow(unused)] pub a: u8, pub b: u8, }"
    )));
}

#[test]
fn a_description_made_by_hand() {
    let file = Field {
        attrs: vec![],
        ident: String::from("file"),
        ty: String::from("String"),
    };
    let text = error_derive::variant::Text {
        lit: String::from("\"no {} in {:?}\""),
        args: vec![
            error_derive::variant::Argument {
                tokens: String::from("file"),
                span: error_derive::errs::Span { start: 4, end: 8 },
            },
            error_derive::variant::Argument {
                tokens: String::from("self . dir ()"),
                span: error_derive::errs::Span { start: 14, end: 24 },
            },
        ],
    };
    let sub = error_derive::variant::Sub {
        enum_name: "Failure",
        name: "Missing",
        source: None,
        location: None,
        selector_fields: vec![&file],
        selector_field_names: vec!["file"],
        all_field_names: vec!["file"],
        error_text: vec![text],
        help_text: vec![],
    };
    assert_eq!(
        tokens(&display::make_arm(&sub)),
        tokens(
            "_arm @ Failure::Missing { file, .. } => { \
                write!(f, \"no {} in {:?}\", file, self.dir())?; \
                ::core::fmt::Display::fmt(\"\\n\", f)?; \
            },"
        )
    );
    assert_eq!(
        make(&sub),
        "pub struct Missing {\n    pub file: String,\n}\n\
         impl<E: ::core::error::Error> ::error::With<::core::result::Result<::core::convert::Infallible, E>, Failure> for Missing {\n    \
             fn bind(self, _: ::core::result::Result<::core::convert::Infallible, E>) -> Failure {\n        \
                 let Missing { file } = self;\n        \
                 Failure::Missing { file }\n    \
             }\n\
         }\n\
         impl ::error::With<::core::option::Option<::core::convert::Infallible>, Failure> for Missing {\n    \
             fn bind(self, _: ::core::option::Option<::core::convert::Infallible>) -> Failure {\n        \
                 let Missing { file } = self;\n        \
                 Failure::Missing { file }\n    \
             }\n\
         }\n\
         impl Missing {\n    \
             #[track_caller]\n    \
             pub fn new(file: String) -> Failure {\n        \
                 Failure::Missing { file }\n    \
             }\n\
         }\n"
    );
}

#[test]
fn a_message_can_name_the_cause_and_the_location() {
    let input = declaration(
        "enum E { #[error = \"cannot open {file}: {source} at {location:?}\"] \
         Open { file: String, #[source] source: std::io::Error, #[location] location: L } }",
    );
    let subs = parse(&input).ok().unwrap();
    assert_eq!(subs[0].selector_field_names, vec!["file"]);
    assert_eq!(
        tokens(&display::make_arm(&subs[0])),
        tokens(
            "_arm @ E::Open { file, source, location, .. } => { \
                write!(f, \"cannot open {}: {} at {:?}\", file, source, location)?; \
                if let E::Open { location, .. } = _arm { write!(f, \" (at {})\", location)?; } \
                ::core::fmt::Display::fmt(\"\\n\", f)?; \
            },"
        )
    );
}

#[test]
fn every_name_of_a_message_is_bound_by_its_arm() {
    let input = declaration(OPEN);
    let subs = parse(&input).ok().unwrap();
    for sub in &subs {
        let arm = display::make_arm(sub);
        let head = &arm[..arm.find("=>").unwrap()];
        for text in &sub.error_text {
            for arg in &text.args {
                assert!(sub.all_field_names.contains(&arg.tokens.as_str()));
                assert!(tokens(head)
                    .split(|c: char| !c.is_alphanumeric() && c != '_')
                    .any(|word| word == arg.tokens));
            }
        }
    }
}

#[test]
fn a_variant_without_fields_binds_nothing() {
    let input = declaration("enum E { #[error = \"done\"] Done }");
    let subs = parse(&input).ok().unwrap();
    assert_eq!(
        tokens(&display::make_arm(&subs[0])),
        tokens(
            "_arm @ E::Done { .. } => { \
                write!(f, \"done\", )?; \
                ::core::fmt::Display::fmt(\"\\n\", f)?; \
            },"
        )
    );
}

#[test]
fn nothing_is_written_between_the_cause_and_the_help() {
    let input = declaration(OPEN);
    let subs = parse(&input).ok().unwrap();
    let e = ErrorEnum { enum_name: "E", is_top_level: true, variants: subs };
    let code = tokens(&display::make_impl(&e));
    assert!(code.contains(&tokens(
        "if let Some(source) = ::core::error::Error::source(self) { \
            ::core::fmt::Display::fmt(\"Caused by: \", f)?; \
            ::core::fmt::Display::fmt(source, f)?; \
        } \
        for error in (self as &dyn ::core::error::Error).sources() { \
            if let ::core::option::Option::Some(help) = ::core::error::request_value::<::error::Help>(error) { \
                ::core::fmt::Display::fmt(&help, f)?; \
            } \
        } \
        Ok(())"
    )));
    // The only line break that is written is the one behind a variant's messages.
    let breaks = code.matches(&tokens("::core::fmt::Display::fmt(\"\\n\", f)?;")).count();
    assert_eq!(breaks, e.variants.len());
}

#[test]
fn without_help_the_cause_comes_last() {
    let input = declaration("enum E { #[error = \"a\"] A }");
    let subs = parse(&input).ok().unwrap();
    let e = ErrorEnum { enum_name: "E", is_top_level: false, variants: subs };
    let code = tokens(&display::make_impl(&e));
    assert!(code.contains(&tokens(
        "if let Some(source) = ::core::error::Error::source(self) { \
            ::core::fmt::Display::fmt(\"Caused by: \", f)?; \
            ::core::fmt::Display::fmt(source, f)?; \
        } \
        Ok(())"
    )));
}
