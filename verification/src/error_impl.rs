//! What caused the error and what help it offers: the impl of `Error`.

use vstd::prelude::*;
use crate::text::{append, concat, concat_all, join_names, joined, push, text};
use crate::variant::{Described, Message, Sub, Text};
use crate::{Enumeration, ErrorEnum};

verus! {

/// The match arm that hands out the cause of the variant `v`: the cause field,
/// if the variant has one.
pub open spec fn source_arm(v: Described) -> Seq<char> {
    if v.source is Some {
        "            "@ + v.enum_name + "::"@ + v.name
            + " { source, .. } => { ::core::option::Option::Some(source) },\n"@
    } else {
        "            "@ + v.enum_name + "::"@ + v.name + " { .. } => ::core::option::Option::None,\n"@
    }
}

/// The statements that write the help message `m` as one line behind `Help: `.
pub open spec fn help_line(m: Message) -> Seq<char> {
    "                    write!(&mut msg, \"Help: \").unwrap();\n"@
        + "                    writeln!(&mut msg, "@ + m.lit + ", "@ + m.handed() + ").unwrap();\n"@
}

/// The match arm that answers a request for data on the variant `v`: where the
/// variant has help messages, it offers them as one help text; else nothing.
pub open spec fn provide_arm(v: Described) -> Seq<char> {
    if v.help_text.len() > 0 {
        "            "@ + v.enum_name + "::"@ + v.name + " { "@ + joined(v.all_field_names, ", "@)
            + " } => {\n"@ + "                request.provide_value_with::<::error::Help>(|| {\n"@
            + "                    use core::fmt::Write;\n"@
            + "                    let mut msg = ::std::string::String::new();\n"@ + concat(
            Seq::new(v.help_text.len(), |k: int| help_line(v.help_text[k])),
        ) + "                    ::error::Help::new(msg)\n"@ + "                });\n"@
            + "            },\n"@
    } else {
        "            "@ + v.enum_name + "::"@ + v.name + " { .. } => {},\n"@
    }
}

/// The impl of `Error` for the enumeration `e`: the cause of each variant, and
/// the help that each offers.
pub open spec fn chaining(e: Enumeration) -> Seq<char> {
    "impl ::core::error::Error for "@ + e.enum_name + " {\n"@
        + "    fn source(&self) -> ::core::option::Option<&(dyn ::core::error::Error + 'static)> {\n"@
        + "        match self {\n"@ + concat(
        Seq::new(e.variants.len(), |k: int| source_arm(e.variants[k])),
    ) + "            __unreachable => None,\n"@ + "        }\n"@ + "    }\n"@
        + "    fn provide<'a>(&'a self, request: &mut ::core::error::Request<'a>) {\n"@
        + "        #[allow(unused_variables)]\n"@ + "        match self {\n"@ + concat(
        Seq::new(e.variants.len(), |k: int| provide_arm(e.variants[k])),
    ) + "            __unreachable => {}\n"@ + "        }\n"@ + "    }\n"@ + "}\n"@
}

/// Generates the match arm that hands out the cause of the variant `v`.
pub fn make_source_arm(v: &Sub<'_>) -> (out: String)
    ensures
        out@ == source_arm(v@),
{
    let mut out = text("            ");
    push(&mut out, v.enum_name);
    push(&mut out, "::");
    push(&mut out, v.name);
    if v.source.is_some() {
        push(&mut out, " { source, .. } => { ::core::option::Option::Some(source) },\n");
    } else {
        push(&mut out, " { .. } => ::core::option::Option::None,\n");
    }
    out
}

fn make_help_line(t: &Text) -> (out: String)
    ensures
        out@ == help_line(t@),
{
    let mut out = text("                    write!(&mut msg, \"Help: \").unwrap();\n");
    push(&mut out, "                    writeln!(&mut msg, ");
    push(&mut out, t.lit.as_str());
    push(&mut out, ", ");
    push(&mut out, t.handed().as_str());
    push(&mut out, ").unwrap();\n");
    out
}

/// Generates the match arm that answers a request for data on the variant `v`.
pub fn make_provide_arm(v: &Sub<'_>) -> (out: String)
    ensures
        out@ == provide_arm(v@),
{
    let mut out = text("            ");
    push(&mut out, v.enum_name);
    push(&mut out, "::");
    push(&mut out, v.name);
    if v.help_text.len() > 0 {
        let mut lines: Vec<String> = Vec::new();
        let mut k: usize = 0;
        while k < v.help_text.len()
            invariant
                k <= v.help_text.len(),
                lines.deep_view() == Seq::new(k as nat, |j: int| help_line(v@.help_text[j])),
            decreases v.help_text.len() - k,
        {
            append(&mut lines, make_help_line(&v.help_text[k]));
            k = k + 1;
            assert(lines.deep_view() == Seq::new(k as nat, |j: int| help_line(v@.help_text[j])));
        }
        push(&mut out, " { ");
        push(&mut out, join_names(&v.all_field_names, ", ").as_str());
        push(&mut out, " } => {\n");
        push(&mut out, "                request.provide_value_with::<::error::Help>(|| {\n");
        push(&mut out, "                    use core::fmt::Write;\n");
        push(&mut out, "                    let mut msg = ::std::string::String::new();\n");
        push(&mut out, concat_all(&lines).as_str());
        push(&mut out, "                    ::error::Help::new(msg)\n");
        push(&mut out, "                });\n");
        push(&mut out, "            },\n");
    } else {
        push(&mut out, " { .. } => {},\n");
    }
    out
}

/// Generates the impl of `Error` for the enumeration `e`.
pub fn make_impl(e: &ErrorEnum<'_>) -> (out: String)
    ensures
        out@ == chaining(e@),
{
    let mut source_arms: Vec<String> = Vec::new();
    let mut provide_arms: Vec<String> = Vec::new();
    let mut k: usize = 0;
    while k < e.variants.len()
        invariant
            k <= e.variants.len(),
            source_arms.deep_view() == Seq::new(k as nat, |j: int| source_arm(e@.variants[j])),
            provide_arms.deep_view() == Seq::new(k as nat, |j: int| provide_arm(e@.variants[j])),
        decreases e.variants.len() - k,
    {
        append(&mut source_arms, make_source_arm(&e.variants[k]));
        append(&mut provide_arms, make_provide_arm(&e.variants[k]));
        k = k + 1;
        assert(source_arms.deep_view() == Seq::new(
            k as nat,
            |j: int| source_arm(e@.variants[j]),
        ));
        assert(provide_arms.deep_view() == Seq::new(
            k as nat,
            |j: int| provide_arm(e@.variants[j]),
        ));
    }
    let mut out = text("impl ::core::error::Error for ");
    push(&mut out, e.enum_name);
    push(&mut out, " {\n");
    push(
        &mut out,
        "    fn source(&self) -> ::core::option::Option<&(dyn ::core::error::Error + 'static)> {\n",
    );
    push(&mut out, "        match self {\n");
    push(&mut out, concat_all(&source_arms).as_str());
    push(&mut out, "            __unreachable => None,\n");
    push(&mut out, "        }\n");
    push(&mut out, "    }\n");
    push(
        &mut out,
        "    fn provide<'a>(&'a self, request: &mut ::core::error::Request<'a>) {\n",
    );
    push(&mut out, "        #[allow(unused_variables)]\n");
    push(&mut out, "        match self {\n");
    push(&mut out, concat_all(&provide_arms).as_str());
    push(&mut out, "            __unreachable => {}\n");
    push(&mut out, "        }\n");
    push(&mut out, "    }\n");
    push(&mut out, "}\n");
    out
}

} // verus!
