//! What is asked of the token and syntax libraries: whether a text is an
//! identifier or an expression, and how a text is written as a string literal.
//!
//! `proc_macro2` and `syn` are built without their `proc-macro` feature. The
//! lexer and the printer are then those of `proc_macro2` itself wherever the
//! library runs, inside a macro expansion or outside of one, and each answer is
//! a function of the text that is asked about. What is claimed below is claimed
//! of that build: with the feature on, the compiler's lexer and printer answer
//! inside a macro expansion.

use vstd::prelude::*;
use quote::ToTokens;

verus! {

/// The identifier that `syn` reads from `name`, as `proc_macro2` prints it;
/// `None` where `name` is not one identifier that may name a field.
pub uninterp spec fn identifier(name: Seq<char>) -> Option<Seq<char>>;

/// The expression that `syn` reads from `code`, as `proc_macro2` prints its
/// tokens; `None` where `code` is not one expression.
pub uninterp spec fn expression(code: Seq<char>) -> Option<Seq<char>>;

/// The string literal that `proc_macro2` writes for the text `value`.
pub uninterp spec fn string_literal(value: Seq<char>) -> Seq<char>;

/// Calls `syn::parse_str::<syn::Ident>` and prints the identifier.
///
/// Claimed: the result is a function of `name` alone.
#[verifier::external_body]
pub(crate) fn parse_identifier(name: &str) -> (tokens: Option<String>)
    ensures
        tokens.deep_view() == identifier(name@),
{
    match syn::parse_str::<syn::Ident>(name) {
        Ok(ident) => Some(ident.to_string()),
        Err(_) => None,
    }
}

/// Calls `syn::parse_str::<syn::Expr>` and prints the expression's tokens.
///
/// Claimed: the result is a function of `code` alone.
#[verifier::external_body]
pub(crate) fn parse_expression(code: &str) -> (tokens: Option<String>)
    ensures
        tokens.deep_view() == expression(code@),
{
    match syn::parse_str::<syn::Expr>(code) {
        Ok(expr) => Some(expr.to_token_stream().to_string()),
        Err(_) => None,
    }
}

/// Calls `proc_macro2::Literal::string` and prints the literal.
///
/// Claimed: the result is a function of `value` alone.
#[verifier::external_body]
pub(crate) fn write_string_literal(value: &str) -> (lit: String)
    ensures
        lit@ == string_literal(value@),
{
    proc_macro2::Literal::string(value).to_string()
}

} // verus!
