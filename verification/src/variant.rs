//! The description of a variant that the code is generated from, and how it is
//! read from a declaration.

use vstd::prelude::*;
use vstd::string::*;
use vstd::utf8::*;
use crate::compose::{in_source_order, lemma_args_in_order};
use crate::errs::{Diagnostic, Place, Problem, Span};
use crate::format::{compile, fmt_parse, placeholders, Placeholder};
use crate::syntax::{
    has_attr, marked, Attribute, AttrStyle, Data, DeriveInput, Field, Fields, Meta, Variant,
};
use crate::text::{append, join, joined, same, text};
use crate::tokens::{
    expression, identifier, parse_expression, parse_identifier, string_literal,
    write_string_literal,
};

verus! {

/// An argument of a message: what is handed to the formatter for one
/// placeholder.
pub struct Argument {
    /// The argument's tokens: a field name, or an expression.
    pub tokens: String,
    /// Where the argument stands in the text of the message literal.
    pub span: Span,
}

/// A compiled message.
pub struct Text {
    /// The positional template, as a string literal.
    pub lit: String,
    /// The arguments, one for each placeholder of the template, in its order.
    pub args: Vec<Argument>,
}

/// What an [`Argument`] holds.
pub struct Resolved {
    pub tokens: Seq<char>,
    pub span: Span,
}

/// What a [`Text`] holds.
pub struct Message {
    pub lit: Seq<char>,
    pub args: Seq<Resolved>,
}

/// A problem in a message literal, and the bytes of its text that it is about.
#[derive(Clone, Copy, PartialEq, Eq, Structural)]
pub struct Flaw {
    pub problem: Problem,
    pub span: Span,
}

impl View for Argument {
    type V = Resolved;

    open spec fn view(&self) -> Resolved {
        Resolved { tokens: self.tokens@, span: self.span }
    }
}

impl View for Text {
    type V = Message;

    open spec fn view(&self) -> Message {
        Message { lit: self.lit@, args: Seq::new(self.args@.len(), |k: int| self.args@[k]@) }
    }
}

/// The argument that stands for the placeholder `name` at `offset`, given what
/// `name` is as an identifier (`ident`) and as an expression (`expr`).
///
/// The empty name is an error, about the braces around it. An identifier is a
/// field name. Any other name must be an expression.
pub open spec fn resolved(
    name: Seq<char>,
    offset: int,
    ident: Option<Seq<char>>,
    expr: Option<Seq<char>>,
) -> Result<Resolved, Flaw> {
    let span = Span { start: offset as usize, end: (offset + encode_utf8(name).len()) as usize };
    if name.len() == 0 {
        Err(
            Flaw {
                problem: Problem::NoFormatArg,
                span: Span { start: (offset - 1) as usize, end: (offset + 1) as usize },
            },
        )
    } else {
        match ident {
            Some(tokens) => Ok(Resolved { tokens, span }),
            None => match expr {
                Some(tokens) => Ok(Resolved { tokens, span }),
                None => Err(Flaw { problem: Problem::BadArgument, span }),
            },
        }
    }
}

/// The argument for the placeholder `p` of a message.
pub open spec fn argument(p: Placeholder) -> Result<Resolved, Flaw> {
    let name = decode_utf8(p.name);
    resolved(name, p.offset, identifier(name), expression(name))
}

/// The arguments for the first `n` placeholders of `args`, or the flaw of the
/// first among them that has one.
pub open spec fn arguments(args: Seq<Placeholder>, n: int) -> Result<Seq<Resolved>, Flaw>
    decreases n,
{
    if n <= 0 {
        Ok(seq![])
    } else {
        match arguments(args, n - 1) {
            Ok(front) => match argument(args[n - 1]) {
                Ok(a) => Ok(front.push(a)),
                Err(flaw) => Err(flaw),
            },
            Err(flaw) => Err(flaw),
        }
    }
}

/// The message that the literal text `value` stands for: its template as a
/// string literal and its arguments; or what is wrong with it.
pub open spec fn message(value: Seq<char>) -> Result<Message, Flaw> {
    match compile(encode_utf8(value)) {
        Some(c) => match arguments(c.args, c.args.len() as int) {
            Ok(args) => Ok(Message { lit: string_literal(decode_utf8(c.text)), args }),
            Err(flaw) => Err(flaw),
        },
        None => Err(
            Flaw {
                problem: Problem::BadFormat,
                span: Span { start: 0, end: encode_utf8(value).len() as usize },
            },
        ),
    }
}

/// A flaw among the first arguments is the flaw of them all.
proof fn lemma_arguments_flawed(args: Seq<Placeholder>, k: int, n: int)
    requires
        0 <= k <= n,
    ensures
        arguments(args, k) is Err ==> arguments(args, n) == arguments(args, k),
    decreases n - k,
{
    if k < n {
        lemma_arguments_flawed(args, k, n - 1);
    }
}

/// A placeholder must have a name: a message with a nameless placeholder does
/// not compile. Where the placeholders before it are good, the problem is the
/// missing name, at the braces of that placeholder.
pub proof fn lemma_name_required(value: Seq<char>, k: int)
    requires
        compile(encode_utf8(value)) matches Some(c) && 0 <= k < c.args.len() && c.args[k].name.len()
            == 0,
    ensures
        message(value) is Err,
        ({
            let args = compile(encode_utf8(value))->0.args;
            arguments(args, k) is Ok ==> message(value) == Err::<Message, Flaw>(
                Flaw {
                    problem: Problem::NoFormatArg,
                    span: Span {
                        start: (args[k].offset - 1) as usize,
                        end: (args[k].offset + 1) as usize,
                    },
                },
            )
        }),
{
    let args = compile(encode_utf8(value))->0.args;
    assert(decode_utf8(args[k].name) == Seq::<char>::empty());
    assert(arguments(args, k + 1) is Err);
    lemma_arguments_flawed(args, k + 1, args.len() as int);
}

impl Message {
    /// The arguments as they are handed to a formatting macro: their tokens,
    /// with commas between them.
    pub open spec fn handed(self) -> Seq<char> {
        joined(Seq::new(self.args.len(), |k: int| self.args[k].tokens), ", "@)
    }
}

impl Argument {
    /// The argument for the placeholder `name`, which stands at `offset` in its
    /// literal, given the tokens of `name` as an identifier and as an expression
    /// (each `None` where it is none).
    pub fn resolve(
        name: &str,
        offset: usize,
        ident: Option<String>,
        expr: Option<String>,
    ) -> (r: Result<Argument, Flaw>)
        requires
            1 <= offset,
            offset + name.spec_bytes().len() < usize::MAX,
        ensures
            match resolved(name@, offset as int, ident.deep_view(), expr.deep_view()) {
                Ok(a) => r matches Ok(x) && x@ == a,
                Err(flaw) => r == Err::<Argument, Flaw>(flaw),
            },
    {
        if name.is_empty() {
            return Err(
                Flaw {
                    problem: Problem::NoFormatArg,
                    span: Span { start: offset - 1, end: offset + 1 },
                },
            );
        }
        let span = Span { start: offset, end: offset + name.len() };
        match ident {
            Some(tokens) => Ok(Argument { tokens, span }),
            None => match expr {
                Some(tokens) => Ok(Argument { tokens, span }),
                None => Err(Flaw { problem: Problem::BadArgument, span }),
            },
        }
    }
}

impl Text {
    /// The arguments as they are handed to a formatting macro.
    pub fn handed(&self) -> (out: String)
        ensures
            out@ == self@.handed(),
    {
        let mut parts: Vec<String> = Vec::new();
        let mut k: usize = 0;
        while k < self.args.len()
            invariant
                k <= self.args.len(),
                parts.deep_view() == Seq::new(k as nat, |j: int| self@.args[j].tokens),
            decreases self.args.len() - k,
        {
            append(&mut parts, text(self.args[k].tokens.as_str()));
            k = k + 1;
            assert(parts.deep_view() == Seq::new(k as nat, |j: int| self@.args[j].tokens));
        }
        join(&parts, ", ")
    }

    /// Compiles the text `value` of a message literal.
    ///
    /// Fails where a placeholder is never closed, has no name, or has a name
    /// that is neither an identifier nor an expression; the first such
    /// placeholder is reported.
    pub fn parse(value: &str) -> (r: Result<Text, Flaw>)
        ensures
            match message(value@) {
                Ok(m) => r matches Ok(t) && t@ == m,
                Err(flaw) => r == Err::<Text, Flaw>(flaw),
            },
    {
        let ghost src = value.spec_bytes();
        let end = value.as_bytes().len();
        let (out, names) = match fmt_parse(value) {
            Ok(p) => p,
            Err(_) => {
                return Err(Flaw { problem: Problem::BadFormat, span: Span { start: 0, end } });
            },
        };
        let ghost c = compile(src)->0;
        proof {
            lemma_args_in_order(src);
            encode_utf8_decode_utf8(out@);
        }
        let lit = write_string_literal(out.as_str());
        let mut args: Vec<Argument> = Vec::new();
        let mut k: usize = 0;
        while k < names.len()
            invariant
                k <= names.len(),
                src == encode_utf8(value@),
                src.len() <= usize::MAX,
                compile(src) == Some(c),
                lit@ == string_literal(decode_utf8(c.text)),
                placeholders(names@) == c.args,
                in_source_order(src, 0, c.args),
                arguments(c.args, k as int) matches Ok(front) && front == Seq::new(
                    args@.len(),
                    |j: int| args@[j]@,
                ),
            decreases names.len() - k,
        {
            let name = names[k].0.as_str();
            let offset = names[k].1;
            proof {
                assert(c.args[k as int] == placeholders(names@)[k as int]);
                encode_utf8_decode_utf8(name@);
            }
            let ident = if name.is_empty() {
                None
            } else {
                parse_identifier(name)
            };
            let expr = if name.is_empty() || ident.is_some() {
                None
            } else {
                parse_expression(name)
            };
            match Argument::resolve(name, offset, ident, expr) {
                Ok(a) => {
                    args.push(a);
                },
                Err(flaw) => {
                    proof {
                        lemma_arguments_flawed(c.args, k as int + 1, c.args.len() as int);
                    }
                    return Err(flaw);
                },
            }
            k = k + 1;
            assert(arguments(c.args, k as int)->Ok_0 == Seq::new(
                args@.len(),
                |j: int| args@[j]@,
            ));
        }
        Ok(Text { lit, args })
    }
}

/// One variant of the enumeration, as the generators read it.
pub struct Sub<'tk> {
    pub enum_name: &'tk str,
    pub name: &'tk str,
    /// The type of the cause field, if there is one.
    pub source: Option<&'tk str>,
    /// The type of the location field, if there is one.
    pub location: Option<&'tk str>,
    /// The fields that are neither the cause nor the location.
    pub selector_fields: Vec<&'tk Field>,
    pub selector_field_names: Vec<&'tk str>,
    pub all_field_names: Vec<&'tk str>,
    /// The messages; at least one.
    pub error_text: Vec<Text>,
    pub help_text: Vec<Text>,
}

/// What a [`Sub`] holds.
pub struct Described {
    pub enum_name: Seq<char>,
    pub name: Seq<char>,
    pub source: Option<Seq<char>>,
    pub location: Option<Seq<char>>,
    pub selector_fields: Seq<Field>,
    pub selector_field_names: Seq<Seq<char>>,
    pub all_field_names: Seq<Seq<char>>,
    pub error_text: Seq<Message>,
    pub help_text: Seq<Message>,
}

/// What a list of compiled messages holds.
pub open spec fn messages(texts: Seq<Text>) -> Seq<Message> {
    Seq::new(texts.len(), |k: int| texts[k]@)
}

/// The fields that a list of borrowed fields refers to.
pub open spec fn referents(fields: Seq<&Field>) -> Seq<Field> {
    Seq::new(fields.len(), |k: int| *fields[k])
}

impl<'tk> View for Sub<'tk> {
    type V = Described;

    open spec fn view(&self) -> Described {
        Described {
            enum_name: self.enum_name@,
            name: self.name@,
            source: self.source.deep_view(),
            location: self.location.deep_view(),
            selector_fields: referents(self.selector_fields@),
            selector_field_names: self.selector_field_names.deep_view(),
            all_field_names: self.all_field_names.deep_view(),
            error_text: messages(self.error_text@),
            help_text: messages(self.help_text@),
        }
    }
}

impl Described {
    /// The names of all fields hold the name of every field that a message of
    /// the variant can name: those of the selector fields, `source` where there
    /// is a cause, and `location` where there is a location.
    pub open spec fn names_all(self) -> bool {
        &&& self.source is Some ==> self.all_field_names.contains("source"@)
        &&& self.location is Some ==> self.all_field_names.contains("location"@)
        &&& forall|k: int|
            0 <= k < self.selector_fields.len() ==> self.all_field_names.contains(
                #[trigger] self.selector_fields[k].ident@,
            )
    }

    /// What a description may rely on: there is a message; the names of the
    /// selector fields are listed as the fields are; every field has one role;
    /// and the names of all fields hold those of the selector fields, `source`
    /// where there is a cause, and `location` where there is a location.
    pub open spec fn wf(self) -> bool {
        &&& self.error_text.len() > 0
        &&& self.names_all()
        &&& self.selector_field_names.len() == self.selector_fields.len()
        &&& forall|k: int|
            0 <= k < self.selector_fields.len() ==> self.selector_field_names[k]
                == self.selector_fields[k].ident@
        &&& self.all_field_names.len() == self.selector_fields.len() + (if self.source is Some {
            1nat
        } else {
            0nat
        }) + (if self.location is Some {
            1nat
        } else {
            0nat
        })
    }
}

/// The first inner attribute among the first `n` of `attrs`.
pub open spec fn first_inner(attrs: Seq<Attribute>, n: int) -> Option<int>
    decreases n,
{
    if n <= 0 {
        None
    } else {
        match first_inner(attrs, n - 1) {
            Some(k) => Some(k),
            None => if attrs[n - 1].style == AttrStyle::Inner {
                Some(n - 1)
            } else {
                None
            },
        }
    }
}

/// The messages of a variant: those that say what went wrong, and those that
/// offer help.
pub struct Texts {
    pub errors: Seq<Message>,
    pub helps: Seq<Message>,
}

/// `t` and what the attribute `a` adds to it: a message, where `a` is
/// `error = ".."` or `help = ".."`. The attribute stands at `attr` in the
/// variant `variant`.
pub open spec fn with_text(t: Texts, a: Attribute, variant: usize, attr: usize) -> Result<
    Texts,
    Diagnostic,
> {
    match a.meta {
        Meta::NameValue { value } => if a.named("error"@) || a.named("help"@) {
            match value {
                Some(text) => match message(text@) {
                    Ok(m) => if a.named("error"@) {
                        Ok(Texts { errors: t.errors.push(m), helps: t.helps })
                    } else {
                        Ok(Texts { errors: t.errors, helps: t.helps.push(m) })
                    },
                    Err(flaw) => Err(
                        Diagnostic {
                            problem: flaw.problem,
                            place: Place::Literal { variant, attr, span: flaw.span },
                        },
                    ),
                },
                None => Err(
                    Diagnostic {
                        problem: Problem::NeedString,
                        place: Place::Attribute { variant, attr },
                    },
                ),
            }
        } else {
            Ok(t)
        },
        _ => Ok(t),
    }
}

/// The messages in the first `n` attributes of `attrs`, or the first problem
/// with one of them.
pub open spec fn texts(attrs: Seq<Attribute>, variant: usize, n: int) -> Result<Texts, Diagnostic>
    decreases n,
{
    if n <= 0 {
        Ok(Texts { errors: seq![], helps: seq![] })
    } else {
        match texts(attrs, variant, n - 1) {
            Ok(t) => with_text(t, attrs[n - 1], variant, (n - 1) as usize),
            Err(d) => Err(d),
        }
    }
}

/// What the fields of a variant are for.
pub struct Roles {
    /// The type of the field marked as the cause.
    pub source: Option<Seq<char>>,
    /// The type of the field marked as the location.
    pub location: Option<Seq<char>>,
    /// The fields marked as neither.
    pub selectors: Seq<Field>,
    /// The names of all fields.
    pub names: Seq<Seq<char>>,
}

/// The field `f` is marked as the cause.
pub open spec fn is_cause(f: Field) -> bool {
    marked(f.attrs@, "source"@)
}

/// The field `f` is marked as the location, and not as the cause.
pub open spec fn is_location(f: Field) -> bool {
    !is_cause(f) && marked(f.attrs@, "location"@)
}

/// `r` and the field `f`, which stands at `field` in the variant `variant`.
///
/// A field marked `source` is the cause: it must be named `source`, and be the
/// only one. Else a field marked `location` is the location: it must be named
/// `location`, and be the only one. Any other field is a selector field.
pub open spec fn with_field(r: Roles, f: Field, variant: usize, field: usize) -> Result<
    Roles,
    Diagnostic,
> {
    let names = r.names.push(f.ident@);
    let name = Place::FieldName { variant, field };
    let whole = Place::Field { variant, field };
    if is_cause(f) {
        if f.ident@ != "source"@ {
            Err(Diagnostic { problem: Problem::MustBeNamedSource, place: name })
        } else if r.source is Some {
            Err(Diagnostic { problem: Problem::DupeSource, place: whole })
        } else {
            Ok(Roles { source: Some(f.ty@), location: r.location, selectors: r.selectors, names })
        }
    } else if is_location(f) {
        if f.ident@ != "location"@ {
            Err(Diagnostic { problem: Problem::MustBeNamedLocation, place: name })
        } else if r.location is Some {
            Err(Diagnostic { problem: Problem::DupeLocation, place: whole })
        } else {
            Ok(Roles { source: r.source, location: Some(f.ty@), selectors: r.selectors, names })
        }
    } else {
        Ok(Roles { source: r.source, location: r.location, selectors: r.selectors.push(f), names })
    }
}

/// The roles of the first `n` fields of `fields`, or the first problem with one
/// of them.
pub open spec fn roles(fields: Seq<Field>, variant: usize, n: int) -> Result<Roles, Diagnostic>
    decreases n,
{
    if n <= 0 {
        Ok(Roles { source: None, location: None, selectors: seq![], names: seq![] })
    } else {
        match roles(fields, variant, n - 1) {
            Ok(r) => with_field(r, fields[n - 1], variant, (n - 1) as usize),
            Err(d) => Err(d),
        }
    }
}

/// The named fields of a variant; none for a variant without fields.
pub open spec fn named_fields(fields: Fields) -> Seq<Field> {
    match fields {
        Fields::Named(fs) => fs@,
        _ => seq![],
    }
}

/// The description of the variant `v`, which stands at `variant` in the
/// enumeration `enum_name`, or the first problem with it.
///
/// In this order: no attribute of the variant may be an inner one; its messages
/// must compile; there must be a message that says what went wrong; its fields
/// must be named, and have their roles.
pub open spec fn described(enum_name: Seq<char>, v: Variant, variant: usize) -> Result<
    Described,
    Diagnostic,
> {
    let here = Place::Variant { variant };
    match first_inner(v.attrs@, v.attrs@.len() as int) {
        Some(k) => Err(
            Diagnostic {
                problem: Problem::NoInner,
                place: Place::Attribute { variant, attr: k as usize },
            },
        ),
        None => match texts(v.attrs@, variant, v.attrs@.len() as int) {
            Ok(t) => if t.errors.len() == 0 {
                Err(Diagnostic { problem: Problem::NeedErrorText, place: here })
            } else if v.fields is Unnamed {
                Err(Diagnostic { problem: Problem::OnlyNamedFields, place: here })
            } else {
                let fields = named_fields(v.fields);
                match roles(fields, variant, fields.len() as int) {
                    Ok(r) => Ok(
                        Described {
                            enum_name,
                            name: v.ident@,
                            source: r.source,
                            location: r.location,
                            selector_fields: r.selectors,
                            selector_field_names: Seq::new(
                                r.selectors.len(),
                                |k: int| r.selectors[k].ident@,
                            ),
                            all_field_names: r.names,
                            error_text: t.errors,
                            help_text: t.helps,
                        },
                    ),
                    Err(d) => Err(d),
                }
            },
            Err(d) => Err(d),
        },
    }
}

/// The descriptions of the first `n` variants of `variants`, or the first
/// problem with one of them.
pub open spec fn descriptions(enum_name: Seq<char>, variants: Seq<Variant>, n: int) -> Result<
    Seq<Described>,
    Diagnostic,
>
    decreases n,
{
    if n <= 0 {
        Ok(seq![])
    } else {
        match descriptions(enum_name, variants, n - 1) {
            Ok(front) => match described(enum_name, variants[n - 1], (n - 1) as usize) {
                Ok(d) => Ok(front.push(d)),
                Err(d) => Err(d),
            },
            Err(d) => Err(d),
        }
    }
}

/// What a declaration is read as: one description for each variant, in the
/// order of the declaration; or the first problem, where the declaration is no
/// enumeration or one of its variants has one.
pub open spec fn parsed(input: DeriveInput) -> Result<Seq<Described>, Diagnostic> {
    match input.data {
        Data::Enum(variants) => descriptions(input.ident@, variants@, variants@.len() as int),
        Data::Other => Err(Diagnostic { problem: Problem::OnlyEnum, place: Place::Input }),
    }
}

/// An inner attribute among the first is the first of them all.
proof fn lemma_first_inner_found(attrs: Seq<Attribute>, k: int, n: int)
    requires
        0 <= k <= n,
    ensures
        first_inner(attrs, k) is Some ==> first_inner(attrs, n) == first_inner(attrs, k),
    decreases n - k,
{
    if k < n {
        lemma_first_inner_found(attrs, k, n - 1);
    }
}

/// A problem with the first messages is the problem of them all.
proof fn lemma_texts_failed(attrs: Seq<Attribute>, variant: usize, k: int, n: int)
    requires
        0 <= k <= n,
    ensures
        texts(attrs, variant, k) is Err ==> texts(attrs, variant, n) == texts(attrs, variant, k),
    decreases n - k,
{
    if k < n {
        lemma_texts_failed(attrs, variant, k, n - 1);
    }
}

/// A problem with the first fields is the problem of them all.
pub proof fn lemma_roles_failed(fields: Seq<Field>, variant: usize, k: int, n: int)
    requires
        0 <= k <= n,
    ensures
        roles(fields, variant, k) is Err ==> roles(fields, variant, n) == roles(
            fields,
            variant,
            k,
        ),
    decreases n - k,
{
    if k < n {
        lemma_roles_failed(fields, variant, k, n - 1);
    }
}

/// A problem with the first variants is the problem of them all.
pub proof fn lemma_descriptions_failed(
    enum_name: Seq<char>,
    variants: Seq<Variant>,
    k: int,
    n: int,
)
    requires
        0 <= k <= n,
    ensures
        descriptions(enum_name, variants, k) is Err ==> descriptions(enum_name, variants, n)
            == descriptions(enum_name, variants, k),
    decreases n - k,
{
    if k < n {
        lemma_descriptions_failed(enum_name, variants, k, n - 1);
    }
}

/// The index of the first inner attribute of `attrs`.
fn find_inner(attrs: &Vec<Attribute>) -> (at: Option<usize>)
    ensures
        match first_inner(attrs@, attrs@.len() as int) {
            Some(k) => at == Some(k as usize) && 0 <= k < attrs@.len(),
            None => at is None,
        },
{
    let mut k: usize = 0;
    while k < attrs.len()
        invariant
            k <= attrs.len(),
            first_inner(attrs@, k as int) is None,
        decreases attrs.len() - k,
    {
        match attrs[k].style {
            AttrStyle::Inner => {
                proof {
                    lemma_first_inner_found(attrs@, k as int + 1, attrs@.len() as int);
                }
                return Some(k);
            },
            AttrStyle::Outer => {},
        }
        k = k + 1;
    }
    None
}

/// Compiles the messages among the attributes of the variant at `variant`:
/// first those that say what went wrong, second those that offer help.
fn read_texts(attrs: &Vec<Attribute>, variant: usize) -> (r: Result<
    (Vec<Text>, Vec<Text>),
    Diagnostic,
>)
    ensures
        match texts(attrs@, variant, attrs@.len() as int) {
            Ok(t) => r matches Ok(p) && messages(p.0@) == t.errors && messages(p.1@) == t.helps,
            Err(d) => r == Err::<(Vec<Text>, Vec<Text>), Diagnostic>(d),
        },
{
    let mut errors: Vec<Text> = Vec::new();
    let mut helps: Vec<Text> = Vec::new();
    let mut k: usize = 0;
    assert(messages(errors@) == Seq::<Message>::empty());
    assert(messages(helps@) == Seq::<Message>::empty());
    while k < attrs.len()
        invariant
            k <= attrs.len(),
            texts(attrs@, variant, k as int) == Ok::<Texts, Diagnostic>(
                Texts { errors: messages(errors@), helps: messages(helps@) },
            ),
        decreases attrs.len() - k,
    {
        let a = &attrs[k];
        let ghost before = Texts { errors: messages(errors@), helps: messages(helps@) };
        proof {
            lemma_texts_failed(attrs@, variant, k as int + 1, attrs@.len() as int);
        }
        match &a.meta {
            Meta::NameValue { value } => {
                let is_error = a.is_ident("error");
                if is_error || a.is_ident("help") {
                    match value {
                        Some(text) => match Text::parse(text.as_str()) {
                            Ok(t) => {
                                if is_error {
                                    errors.push(t);
                                    assert(messages(errors@) == before.errors.push(t@));
                                } else {
                                    helps.push(t);
                                    assert(messages(helps@) == before.helps.push(t@));
                                }
                            },
                            Err(flaw) => {
                                return Err(
                                    Diagnostic {
                                        problem: flaw.problem,
                                        place: Place::Literal {
                                            variant,
                                            attr: k,
                                            span: flaw.span,
                                        },
                                    },
                                );
                            },
                        },
                        None => {
                            return Err(
                                Diagnostic {
                                    problem: Problem::NeedString,
                                    place: Place::Attribute { variant, attr: k },
                                },
                            );
                        },
                    }
                }
            },
            _ => {},
        }
        k = k + 1;
    }
    Ok((errors, helps))
}

/// The fields of a variant, by their roles.
struct Parts<'tk> {
    source: Option<&'tk str>,
    location: Option<&'tk str>,
    selectors: Vec<&'tk Field>,
    selector_names: Vec<&'tk str>,
    names: Vec<&'tk str>,
}

impl<'tk> Parts<'tk> {
    spec fn roles(self) -> Roles {
        Roles {
            source: self.source.deep_view(),
            location: self.location.deep_view(),
            selectors: referents(self.selectors@),
            names: self.names.deep_view(),
        }
    }

    spec fn wf(self) -> bool {
        self.selector_names.deep_view() == Seq::new(
            self.selectors@.len(),
            |k: int| self.selectors@[k].ident@,
        )
    }
}

/// Sorts the fields of the variant at `variant` by their roles.
fn read_fields<'tk>(fields: &'tk Vec<Field>, variant: usize) -> (r: Result<Parts<'tk>, Diagnostic>)
    ensures
        match roles(fields@, variant, fields@.len() as int) {
            Ok(x) => r matches Ok(p) && p.roles() == x && p.wf(),
            Err(d) => r == Err::<Parts<'tk>, Diagnostic>(d),
        },
{
    let mut parts = Parts {
        source: None,
        location: None,
        selectors: Vec::new(),
        selector_names: Vec::new(),
        names: Vec::new(),
    };
    let mut k: usize = 0;
    assert(parts.roles().selectors == Seq::<Field>::empty());
    assert(parts.roles().names == Seq::<Seq<char>>::empty());
    assert(parts.selector_names.deep_view() == Seq::new(
        parts.selectors@.len(),
        |k: int| parts.selectors@[k].ident@,
    ));
    while k < fields.len()
        invariant
            k <= fields.len(),
            roles(fields@, variant, k as int) == Ok::<Roles, Diagnostic>(parts.roles()),
            parts.wf(),
        decreases fields.len() - k,
    {
        let f = &fields[k];
        let ghost before = parts.roles();
        let ghost names_before = parts.selector_names.deep_view();
        proof {
            lemma_roles_failed(fields@, variant, k as int + 1, fields@.len() as int);
        }
        if has_attr(&f.attrs, "source") {
            if !same(f.ident.as_str(), "source") {
                return Err(
                    Diagnostic {
                        problem: Problem::MustBeNamedSource,
                        place: Place::FieldName { variant, field: k },
                    },
                );
            }
            if parts.source.is_some() {
                return Err(
                    Diagnostic {
                        problem: Problem::DupeSource,
                        place: Place::Field { variant, field: k },
                    },
                );
            }
            parts.source = Some(f.ty.as_str());
        } else if has_attr(&f.attrs, "location") {
            if !same(f.ident.as_str(), "location") {
                return Err(
                    Diagnostic {
                        problem: Problem::MustBeNamedLocation,
                        place: Place::FieldName { variant, field: k },
                    },
                );
            }
            if parts.location.is_some() {
                return Err(
                    Diagnostic {
                        problem: Problem::DupeLocation,
                        place: Place::Field { variant, field: k },
                    },
                );
            }
            parts.location = Some(f.ty.as_str());
        } else {
            parts.selectors.push(f);
            parts.selector_names.push(f.ident.as_str());
            assert(parts.roles().selectors == before.selectors.push(*f));
            assert(parts.selector_names.deep_view() == names_before.push(f.ident@));
            assert(parts.selector_names.deep_view() == Seq::new(
                parts.selectors@.len(),
                |k: int| parts.selectors@[k].ident@,
            ));
        }
        parts.names.push(f.ident.as_str());
        assert(parts.roles().names == before.names.push(f.ident@));
        k = k + 1;
    }
    Ok(parts)
}

/// Reads the variant `v`, which stands at `variant` in the enumeration
/// `enum_name`.
fn describe<'tk>(enum_name: &'tk str, v: &'tk Variant, variant: usize) -> (r: Result<
    Sub<'tk>,
    Diagnostic,
>)
    ensures
        match described(enum_name@, *v, variant) {
            Ok(d) => r matches Ok(sub) && sub@ == d && d.wf(),
            Err(d) => r == Err::<Sub<'tk>, Diagnostic>(d),
        },
{
    if let Some(attr) = find_inner(&v.attrs) {
        return Err(
            Diagnostic { problem: Problem::NoInner, place: Place::Attribute { variant, attr } },
        );
    }
    let (error_text, help_text) = match read_texts(&v.attrs, variant) {
        Ok(p) => p,
        Err(d) => {
            return Err(d);
        },
    };
    if error_text.len() == 0 {
        return Err(
            Diagnostic { problem: Problem::NeedErrorText, place: Place::Variant { variant } },
        );
    }
    let parts = match &v.fields {
        Fields::Named(fields) => match read_fields(fields, variant) {
            Ok(parts) => parts,
            Err(d) => {
                return Err(d);
            },
        },
        Fields::Unit => {
            let parts = Parts {
                source: None,
                location: None,
                selectors: Vec::new(),
                selector_names: Vec::new(),
                names: Vec::new(),
            };
            assert(parts.roles().selectors == Seq::<Field>::empty());
            assert(parts.roles().names == Seq::<Seq<char>>::empty());
            assert(parts.selector_names.deep_view() == Seq::new(
                parts.selectors@.len(),
                |k: int| parts.selectors@[k].ident@,
            ));
            parts
        },
        Fields::Unnamed => {
            return Err(
                Diagnostic {
                    problem: Problem::OnlyNamedFields,
                    place: Place::Variant { variant },
                },
            );
        },
    };
    proof {
        lemma_role_count(named_fields(v.fields), variant, named_fields(v.fields).len() as int);
    }
    let sub = Sub {
        enum_name,
        name: v.ident.as_str(),
        source: parts.source,
        location: parts.location,
        selector_fields: parts.selectors,
        selector_field_names: parts.selector_names,
        all_field_names: parts.names,
        error_text,
        help_text,
    };
    assert(sub@.selector_field_names == described(
        enum_name@,
        *v,
        variant,
    )->Ok_0.selector_field_names);
    Ok(sub)
}

/// Every field has one role, and the names hold the name of each: those of the
/// selector fields, `source` for the cause and `location` for the location.
proof fn lemma_role_count(fields: Seq<Field>, variant: usize, n: int)
    requires
        0 <= n <= fields.len(),
        roles(fields, variant, n) is Ok,
    ensures
        ({
            let r = roles(fields, variant, n)->Ok_0;
            &&& r.names.len() == r.selectors.len() + (if r.source is Some {
                1nat
            } else {
                0nat
            }) + (if r.location is Some {
                1nat
            } else {
                0nat
            })
            &&& r.source is Some ==> r.names.contains("source"@)
            &&& r.location is Some ==> r.names.contains("location"@)
            &&& forall|k: int|
                0 <= k < r.selectors.len() ==> r.names.contains(#[trigger] r.selectors[k].ident@)
        }),
    decreases n,
{
    if n > 0 {
        lemma_role_count(fields, variant, n - 1);
        let before = roles(fields, variant, n - 1)->Ok_0;
        let r = roles(fields, variant, n)->Ok_0;
        let f = fields[n - 1];
        let last = before.names.len() as int;
        assert(r.names == before.names.push(f.ident@));
        assert(r.names[last] == f.ident@);
        assert forall|x: Seq<char>| before.names.contains(x) implies r.names.contains(x) by {
            let at = choose|at: int| 0 <= at < before.names.len() && before.names[at] == x;
            assert(r.names[at] == x);
        }
        assert forall|k: int| 0 <= k < r.selectors.len() implies r.names.contains(
            #[trigger] r.selectors[k].ident@,
        ) by {
            if k < before.selectors.len() {
                assert(r.selectors[k] == before.selectors[k]);
            }
        }
    }
}

/// Reads the declaration `input` into one description for each variant.
///
/// Fails with the first problem: the declaration is no enumeration; or, going
/// through the variants in their order, one has an inner attribute, a message
/// that does not compile, no message that says what went wrong, unnamed fields,
/// or a cause or location field that is misnamed or there twice.
pub fn parse<'tk>(input: &'tk DeriveInput) -> (r: Result<Vec<Sub<'tk>>, Diagnostic>)
    ensures
        match parsed(*input) {
            Ok(ds) => r matches Ok(subs) && subs@.len() == ds.len() && forall|k: int|
                0 <= k < ds.len() ==> (#[trigger] subs@[k])@ == ds[k] && ds[k].wf(),
            Err(d) => r == Err::<Vec<Sub<'tk>>, Diagnostic>(d),
        },
{
    let variants = match &input.data {
        Data::Enum(variants) => variants,
        Data::Other => {
            return Err(Diagnostic { problem: Problem::OnlyEnum, place: Place::Input });
        },
    };
    let enum_name = input.ident.as_str();
    let mut out: Vec<Sub<'tk>> = Vec::new();
    let mut k: usize = 0;
    while k < variants.len()
        invariant
            k <= variants.len(),
            parsed(*input) == descriptions(enum_name@, variants@, variants@.len() as int),
            out@.len() == k,
            descriptions(enum_name@, variants@, k as int) matches Ok(ds) && out@.len() == ds.len()
                && forall|j: int|
                0 <= j < ds.len() ==> (#[trigger] out@[j])@ == ds[j] && ds[j].wf(),
        decreases variants.len() - k,
    {
        proof {
            lemma_descriptions_failed(enum_name@, variants@, k as int + 1, variants@.len() as int);
        }
        let ghost front = descriptions(enum_name@, variants@, k as int)->Ok_0;
        match describe(enum_name, &variants[k], k) {
            Ok(sub) => {
                let ghost before = out@;
                out.push(sub);
                let ghost now = descriptions(enum_name@, variants@, k as int + 1)->Ok_0;
                assert(now == front.push(sub@));
                assert forall|j: int| 0 <= j < now.len() implies (#[trigger] out@[j])@ == now[j]
                    && now[j].wf() by {
                    if j < k {
                        assert(out@[j] == before[j]);
                    }
                }
            },
            Err(d) => {
                return Err(d);
            },
        }
        k = k + 1;
    }
    Ok(out)
}

} // verus!
