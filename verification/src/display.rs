//! How the error is displayed: the impls of `Display` and `Debug`.

use vstd::prelude::*;
use crate::text::{append, concat, concat_all, join_names, joined, push, text};
use crate::variant::{Described, Message, Sub, Text};
use crate::{Enumeration, ErrorEnum};

verus! {

/// The statement that writes the message `m`.
pub open spec fn written(m: Message) -> Seq<char> {
    "                write!(f, "@ + m.lit + ", "@ + m.handed() + ")?;\n"@
}

/// The statement that writes the location of the variant `v` in brackets.
pub open spec fn location_written(v: Described) -> Seq<char> {
    "                if let "@ + v.enum_name + "::"@ + v.name + " { location, .. } = _arm {\n"@
        + "                    write!(f, \" (at {})\", location)?;\n"@ + "                }\n"@
}

/// The match arm that displays the variant `v`: its messages in their order,
/// then the location in brackets, if the variant has one, then a line break.
///
/// The arm's pattern binds every field of the variant, the cause and the
/// location with the selector fields, so that a message can name any of them.
pub open spec fn arm(v: Described) -> Seq<char> {
    let messages = "            _arm @ "@ + v.enum_name + "::"@ + v.name + " { "@ + (
    if v.all_field_names.len() == 0 {
        ".."@
    } else {
        joined(v.all_field_names, ", "@) + ", .."@
    }) + " } => {\n"@ + concat(Seq::new(v.error_text.len(), |k: int| written(v.error_text[k])));
    (if v.location is Some {
        messages + location_written(v)
    } else {
        messages
    }) + "                ::core::fmt::Display::fmt(\"\\n\", f)?;\n"@ + "            },\n"@
}

/// What a top-level enumeration displays behind its cause: the help that the
/// errors along the chain of causes offer, and nothing between them.
pub open spec fn help_along_chain() -> Seq<char> {
    "        for error in (self as &dyn ::core::error::Error).sources() {\n"@
        + "            if let ::core::option::Option::Some(help) = ::core::error::request_value::<::error::Help>(error) {\n"@
        + "                ::core::fmt::Display::fmt(&help, f)?;\n"@ + "            }\n"@
        + "        }\n"@
}

/// The impls of `Debug` and `Display` for the enumeration `e`. `Debug` displays.
/// `Display` writes the variant's own lines, then `Caused by: ` and the cause,
/// if the error has one, then, for a top-level enumeration, the help along the
/// chain of causes.
pub open spec fn rendering(e: Enumeration) -> Seq<char> {
    let own = "impl ::core::fmt::Debug for "@ + e.enum_name + " {\n"@
        + "    fn fmt(&self, f: &mut ::core::fmt::Formatter<'_>) -> ::core::fmt::Result {\n"@
        + "        ::core::fmt::Display::fmt(self, f)\n"@ + "    }\n"@ + "}\n"@
        + "impl ::core::fmt::Display for "@ + e.enum_name + " {\n"@
        + "    fn fmt(&self, f: &mut ::core::fmt::Formatter<'_>) -> ::core::fmt::Result {\n"@
        + "        #[allow(unused_variables)]\n"@ + "        match self {\n"@ + concat(
        Seq::new(e.variants.len(), |k: int| arm(e.variants[k])),
    )
        + "            __unreachable => if true { return ::core::result::Result::Err(::core::fmt::Error) }\n"@
        + "        }\n"@ + "        if let Some(source) = ::core::error::Error::source(self) {\n"@
        + "            ::core::fmt::Display::fmt(\"Caused by: \", f)?;\n"@
        + "            ::core::fmt::Display::fmt(source, f)?;\n"@ + "        }\n"@;
    (if e.is_top_level {
        own + help_along_chain()
    } else {
        own
    }) + "        Ok(())\n"@ + "    }\n"@ + "}\n"@
}

fn make_written(t: &Text) -> (out: String)
    ensures
        out@ == written(t@),
{
    let mut out = text("                write!(f, ");
    push(&mut out, t.lit.as_str());
    push(&mut out, ", ");
    push(&mut out, t.handed().as_str());
    push(&mut out, ")?;\n");
    out
}

/// Generates the match arm that displays the variant `v`.
pub fn make_arm(v: &Sub<'_>) -> (out: String)
    ensures
        out@ == arm(v@),
{
    let mut out = text("            _arm @ ");
    push(&mut out, v.enum_name);
    push(&mut out, "::");
    push(&mut out, v.name);
    push(&mut out, " { ");
    if v.all_field_names.len() == 0 {
        push(&mut out, "..");
    } else {
        let mut names = join_names(&v.all_field_names, ", ");
        push(&mut names, ", ..");
        push(&mut out, names.as_str());
    }
    push(&mut out, " } => {\n");
    let mut lines: Vec<String> = Vec::new();
    let mut k: usize = 0;
    while k < v.error_text.len()
        invariant
            k <= v.error_text.len(),
            lines.deep_view() == Seq::new(k as nat, |j: int| written(v@.error_text[j])),
        decreases v.error_text.len() - k,
    {
        append(&mut lines, make_written(&v.error_text[k]));
        k = k + 1;
        assert(lines.deep_view() == Seq::new(k as nat, |j: int| written(v@.error_text[j])));
    }
    push(&mut out, concat_all(&lines).as_str());
    if v.location.is_some() {
        let mut at = text("                if let ");
        push(&mut at, v.enum_name);
        push(&mut at, "::");
        push(&mut at, v.name);
        push(&mut at, " { location, .. } = _arm {\n");
        push(&mut at, "                    write!(f, \" (at {})\", location)?;\n");
        push(&mut at, "                }\n");
        push(&mut out, at.as_str());
    }
    push(&mut out, "                ::core::fmt::Display::fmt(\"\\n\", f)?;\n");
    push(&mut out, "            },\n");
    out
}

fn make_help_along_chain() -> (out: String)
    ensures
        out@ == help_along_chain(),
{
    let mut out = text("        for error in (self as &dyn ::core::error::Error).sources() {\n");
    push(
        &mut out,
        "            if let ::core::option::Option::Some(help) = ::core::error::request_value::<::error::Help>(error) {\n",
    );
    push(&mut out, "                ::core::fmt::Display::fmt(&help, f)?;\n");
    push(&mut out, "            }\n");
    push(&mut out, "        }\n");
    out
}

/// Generates the impls of `Debug` and `Display` for the enumeration `e`.
pub fn make_impl(e: &ErrorEnum<'_>) -> (out: String)
    ensures
        out@ == rendering(e@),
{
    let mut arms: Vec<String> = Vec::new();
    let mut k: usize = 0;
    while k < e.variants.len()
        invariant
            k <= e.variants.len(),
            arms.deep_view() == Seq::new(k as nat, |j: int| arm(e@.variants[j])),
        decreases e.variants.len() - k,
    {
        append(&mut arms, make_arm(&e.variants[k]));
        k = k + 1;
        assert(arms.deep_view() == Seq::new(k as nat, |j: int| arm(e@.variants[j])));
    }
    let mut out = text("impl ::core::fmt::Debug for ");
    push(&mut out, e.enum_name);
    push(&mut out, " {\n");
    push(
        &mut out,
        "    fn fmt(&self, f: &mut ::core::fmt::Formatter<'_>) -> ::core::fmt::Result {\n",
    );
    push(&mut out, "        ::core::fmt::Display::fmt(self, f)\n");
    push(&mut out, "    }\n");
    push(&mut out, "}\n");
    push(&mut out, "impl ::core::fmt::Display for ");
    push(&mut out, e.enum_name);
    push(&mut out, " {\n");
    push(
        &mut out,
        "    fn fmt(&self, f: &mut ::core::fmt::Formatter<'_>) -> ::core::fmt::Result {\n",
    );
    push(&mut out, "        #[allow(unused_variables)]\n");
    push(&mut out, "        match self {\n");
    push(&mut out, concat_all(&arms).as_str());
    push(
        &mut out,
        "            __unreachable => if true { return ::core::result::Result::Err(::core::fmt::Error) }\n",
    );
    push(&mut out, "        }\n");
    push(&mut out, "        if let Some(source) = ::core::error::Error::source(self) {\n");
    push(&mut out, "            ::core::fmt::Display::fmt(\"Caused by: \", f)?;\n");
    push(&mut out, "            ::core::fmt::Display::fmt(source, f)?;\n");
    push(&mut out, "        }\n");
    if e.is_top_level {
        push(&mut out, make_help_along_chain().as_str());
    }
    push(&mut out, "        Ok(())\n");
    push(&mut out, "    }\n");
    push(&mut out, "}\n");
    out
}

} // verus!
