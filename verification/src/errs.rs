//! What can be wrong with a declaration, and where.

use vstd::prelude::*;

verus! {

pub const ONLY_ENUM: &'static str = "only enum errors are supported";

pub const ONLY_NAMED_FIELDS: &'static str = "only enums with named fields are supported";

pub const DUPE_SOURCE: &'static str = "more than one `#[source]` attribute";

pub const DUPE_LOCATION: &'static str = "more than one `#[location]` attribute";

pub const NO_INNER: &'static str = "inner attributes are not supported in this position";

pub const NEED_ERROR_TEXT: &'static str =
    "at least one `#[error = \"msg\"]` attribute is required";

pub const MUST_BE_NAMED_SOURCE: &'static str = "field of `#[source]` must be named `source`";

pub const MUST_BE_NAMED_LOCATION: &'static str =
    "field of `#[location]` must be named `location`";

pub const NO_FORMAT_ARG: &'static str =
    "positional argument in format string, but no arguments were given";

pub const BAD_FORMAT: &'static str = "malformed format string";

pub const BAD_ARGUMENT: &'static str = "cannot parse argument as an expression";

pub const NEED_STRING: &'static str = "expected string literal";

/// A rule that a declaration breaks.
#[derive(Clone, Copy, PartialEq, Eq, Structural)]
pub enum Problem {
    /// The derive stands on a struct or a union.
    OnlyEnum,
    /// A variant has unnamed fields.
    OnlyNamedFields,
    /// Two fields of one variant are marked as the cause.
    DupeSource,
    /// Two fields of one variant are marked as the location.
    DupeLocation,
    /// A variant has an inner attribute.
    NoInner,
    /// A variant has no message.
    NeedErrorText,
    /// The field marked as the cause is not named `source`.
    MustBeNamedSource,
    /// The field marked as the location is not named `location`.
    MustBeNamedLocation,
    /// A placeholder of a message has no name.
    NoFormatArg,
    /// A placeholder of a message is never closed.
    BadFormat,
    /// An argument of a message is neither a field name nor an expression.
    BadArgument,
    /// The value of a message attribute is no string literal.
    NeedString,
}

impl Problem {
    /// The message that reports the problem.
    pub open spec fn text(self) -> Seq<char> {
        match self {
            Problem::OnlyEnum => ONLY_ENUM@,
            Problem::OnlyNamedFields => ONLY_NAMED_FIELDS@,
            Problem::DupeSource => DUPE_SOURCE@,
            Problem::DupeLocation => DUPE_LOCATION@,
            Problem::NoInner => NO_INNER@,
            Problem::NeedErrorText => NEED_ERROR_TEXT@,
            Problem::MustBeNamedSource => MUST_BE_NAMED_SOURCE@,
            Problem::MustBeNamedLocation => MUST_BE_NAMED_LOCATION@,
            Problem::NoFormatArg => NO_FORMAT_ARG@,
            Problem::BadFormat => BAD_FORMAT@,
            Problem::BadArgument => BAD_ARGUMENT@,
            Problem::NeedString => NEED_STRING@,
        }
    }

    /// The message that reports the problem.
    pub fn message(self) -> (m: &'static str)
        ensures
            m@ == self.text(),
    {
        match self {
            Problem::OnlyEnum => ONLY_ENUM,
            Problem::OnlyNamedFields => ONLY_NAMED_FIELDS,
            Problem::DupeSource => DUPE_SOURCE,
            Problem::DupeLocation => DUPE_LOCATION,
            Problem::NoInner => NO_INNER,
            Problem::NeedErrorText => NEED_ERROR_TEXT,
            Problem::MustBeNamedSource => MUST_BE_NAMED_SOURCE,
            Problem::MustBeNamedLocation => MUST_BE_NAMED_LOCATION,
            Problem::NoFormatArg => NO_FORMAT_ARG,
            Problem::BadFormat => BAD_FORMAT,
            Problem::BadArgument => BAD_ARGUMENT,
            Problem::NeedString => NEED_STRING,
        }
    }
}

/// A range of bytes in the text of a message literal.
#[derive(Clone, Copy, PartialEq, Eq, Structural)]
pub struct Span {
    pub start: usize,
    pub end: usize,
}

/// The part of a declaration that a diagnostic points at. Variants, attributes
/// and fields are counted from zero, in the order in which they are declared.
#[derive(Clone, Copy, PartialEq, Eq, Structural)]
pub enum Place {
    /// The whole declaration.
    Input,
    /// A variant.
    Variant { variant: usize },
    /// An attribute of a variant.
    Attribute { variant: usize, attr: usize },
    /// A range in the message literal of an attribute of a variant.
    Literal { variant: usize, attr: usize, span: Span },
    /// A field of a variant.
    Field { variant: usize, field: usize },
    /// The name of a field of a variant.
    FieldName { variant: usize, field: usize },
}

/// A problem and the place where it was found.
#[derive(Clone, Copy, PartialEq, Eq, Structural)]
pub struct Diagnostic {
    pub problem: Problem,
    pub place: Place,
}

} // verus!
