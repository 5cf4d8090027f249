//! What every declaration must hold to be read: the rules on the variants,
//! stated of whole declarations.
//!
//! Each rule says that a declaration which breaks it is not read, whatever else
//! it holds, and which problem is reported where nothing comes before the place
//! at which the rule is broken.

use vstd::prelude::*;
use crate::errs::{Diagnostic, Place, Problem};
use crate::syntax::{Attribute, Data, DeriveInput, Field, Variant};
use crate::variant::{
    described, descriptions, first_inner, is_cause, is_location, lemma_descriptions_failed,
    lemma_roles_failed, named_fields, parsed, roles, texts, with_field, Described,
};

verus! {

/// Reading `input` fails, and `problem` at `place` is what is reported.
pub open spec fn reports(input: DeriveInput, problem: Problem, place: Place) -> bool {
    parsed(input) == Err::<Seq<Described>, Diagnostic>(Diagnostic { problem, place })
}

/// `input` is an enumeration with a variant at `i`.
pub open spec fn has_variant(input: DeriveInput, i: int) -> bool {
    input.data matches Data::Enum(vs) && 0 <= i < vs@.len()
}

/// The variant at `i` of the enumeration `input`.
pub open spec fn variant_at(input: DeriveInput, i: int) -> Variant {
    input.data->Enum_0@[i]
}

/// The named fields of the variant at `i` of the enumeration `input`.
pub open spec fn fields_at(input: DeriveInput, i: int) -> Seq<Field> {
    named_fields(variant_at(input, i).fields)
}

/// `input` is an enumeration with a variant at `i` that has a named field at `j`.
pub open spec fn has_field(input: DeriveInput, i: int, j: int) -> bool {
    has_variant(input, i) && 0 <= j < fields_at(input, i).len()
}

/// The attribute `a` is a message that says what went wrong: `error = ..`.
pub open spec fn is_error_message(a: Attribute) -> bool {
    a.meta is NameValue && a.named("error"@)
}

/// The variants of `input` in front of the one at `i` are read.
pub open spec fn reaches_variant(input: DeriveInput, i: int) -> bool {
    descriptions(input.ident@, input.data->Enum_0@, i) is Ok
}

/// Nothing is wrong with `input` in front of the messages of its variant at
/// `i`, nor with these: the variants before it are read, and it has no inner
/// attribute and no message that does not compile.
pub open spec fn reaches_messages(input: DeriveInput, i: int) -> bool {
    let v = variant_at(input, i);
    &&& reaches_variant(input, i)
    &&& first_inner(v.attrs@, v.attrs@.len() as int) is None
    &&& texts(v.attrs@, i as usize, v.attrs@.len() as int) is Ok
}

/// Nothing is wrong with `input` in front of the fields of its variant at `i`:
/// its messages are reached and good, and one of them says what went wrong.
pub open spec fn reaches_fields(input: DeriveInput, i: int) -> bool {
    let v = variant_at(input, i);
    &&& reaches_messages(input, i)
    &&& texts(v.attrs@, i as usize, v.attrs@.len() as int)->Ok_0.errors.len() > 0
}

/// Nothing is wrong with `input` in front of the field at `j` of its variant at
/// `i`: the fields are reached, and those before `j` have their roles.
pub open spec fn reaches_field(input: DeriveInput, i: int, j: int) -> bool {
    &&& reaches_fields(input, i)
    &&& roles(fields_at(input, i), i as usize, j) is Ok
}

/// Each of the first `n` variants of a list that is read is read.
proof fn lemma_each_described(enum_name: Seq<char>, variants: Seq<Variant>, i: int, n: int)
    requires
        0 <= i < n,
        descriptions(enum_name, variants, n) is Ok,
    ensures
        descriptions(enum_name, variants, i) is Ok,
        described(enum_name, variants[i], i as usize) is Ok,
    decreases n,
{
    if i < n - 1 {
        lemma_each_described(enum_name, variants, i, n - 1);
    }
}

/// A declaration with a variant that cannot be read is not read; where the
/// variants in front of that one are read, its problem is what is reported.
pub proof fn lemma_variant_decides(input: DeriveInput, i: int)
    requires
        has_variant(input, i),
        described(input.ident@, variant_at(input, i), i as usize) is Err,
    ensures
        parsed(input) is Err,
        reaches_variant(input, i) ==> parsed(input)->Err_0 == described(
            input.ident@,
            variant_at(input, i),
            i as usize,
        )->Err_0,
{
    let vs = input.data->Enum_0@;
    let n = vs.len() as int;
    if parsed(input) is Ok {
        lemma_each_described(input.ident@, vs, i, n);
    }
    lemma_descriptions_failed(input.ident@, vs, i + 1, n);
}

/// Without an attribute that says what went wrong, the messages hold none.
proof fn lemma_no_error_messages(attrs: Seq<Attribute>, variant: usize, n: int)
    requires
        0 <= n <= attrs.len(),
        forall|k: int| 0 <= k < attrs.len() ==> !is_error_message(#[trigger] attrs[k]),
        texts(attrs, variant, n) is Ok,
    ensures
        texts(attrs, variant, n)->Ok_0.errors.len() == 0,
    decreases n,
{
    if n > 0 {
        lemma_no_error_messages(attrs, variant, n - 1);
        assert(!is_error_message(attrs[n - 1]));
    }
}

/// A variant must say what went wrong: a declaration with a variant that has no
/// `error = ".."` attribute is not read. Where nothing comes before it, the
/// problem reported is the missing message, at the variant.
pub proof fn lemma_message_required(input: DeriveInput, i: int)
    requires
        has_variant(input, i),
        forall|k: int|
            0 <= k < variant_at(input, i).attrs@.len() ==> !is_error_message(
                #[trigger] variant_at(input, i).attrs@[k],
            ),
    ensures
        parsed(input) is Err,
        reaches_messages(input, i) ==> reports(
            input,
            Problem::NeedErrorText,
            Place::Variant { variant: i as usize },
        ),
{
    let v = variant_at(input, i);
    let n = v.attrs@.len() as int;
    if texts(v.attrs@, i as usize, n) is Ok {
        lemma_no_error_messages(v.attrs@, i as usize, n);
    }
    lemma_variant_decides(input, i);
}

/// The fields of a variant must be named: a declaration with a variant that has
/// unnamed fields is not read. Where nothing comes before its fields, the
/// problem reported is the unnamed fields, at the variant.
pub proof fn lemma_names_required(input: DeriveInput, i: int)
    requires
        has_variant(input, i),
        variant_at(input, i).fields is Unnamed,
    ensures
        parsed(input) is Err,
        reaches_fields(input, i) ==> reports(
            input,
            Problem::OnlyNamedFields,
            Place::Variant { variant: i as usize },
        ),
{
    lemma_variant_decides(input, i);
}

/// Each of the first `n` fields of a list whose roles are found has its role.
proof fn lemma_each_role(fields: Seq<Field>, variant: usize, j: int, n: int)
    requires
        0 <= j < n,
        roles(fields, variant, n) is Ok,
    ensures
        roles(fields, variant, j) is Ok,
        with_field(roles(fields, variant, j)->Ok_0, fields[j], variant, j as usize) is Ok,
    decreases n,
{
    if j < n - 1 {
        lemma_each_role(fields, variant, j, n - 1);
    }
}

/// Behind a field marked as the cause, a cause is known.
proof fn lemma_cause_known(fields: Seq<Field>, variant: usize, a: int, n: int)
    requires
        0 <= a < n,
        is_cause(fields[a]),
        roles(fields, variant, n) is Ok,
    ensures
        roles(fields, variant, n)->Ok_0.source is Some,
    decreases n,
{
    if a < n - 1 {
        lemma_cause_known(fields, variant, a, n - 1);
    }
}

/// Behind a field marked as the location, a location is known.
proof fn lemma_location_known(fields: Seq<Field>, variant: usize, a: int, n: int)
    requires
        0 <= a < n,
        is_location(fields[a]),
        roles(fields, variant, n) is Ok,
    ensures
        roles(fields, variant, n)->Ok_0.location is Some,
    decreases n,
{
    if a < n - 1 {
        lemma_location_known(fields, variant, a, n - 1);
    }
}

/// A declaration with a field that cannot be given its role is not read; where
/// nothing comes before that field, its problem is what is reported.
proof fn lemma_field_decides(input: DeriveInput, i: int, j: int)
    requires
        has_field(input, i, j),
        roles(fields_at(input, i), i as usize, j) is Ok ==> with_field(
            roles(fields_at(input, i), i as usize, j)->Ok_0,
            fields_at(input, i)[j],
            i as usize,
            j as usize,
        ) is Err,
    ensures
        parsed(input) is Err,
        reaches_field(input, i, j) ==> parsed(input)->Err_0 == with_field(
            roles(fields_at(input, i), i as usize, j)->Ok_0,
            fields_at(input, i)[j],
            i as usize,
            j as usize,
        )->Err_0,
{
    let fs = fields_at(input, i);
    let n = fs.len() as int;
    if roles(fs, i as usize, n) is Ok {
        lemma_each_role(fs, i as usize, j, n);
    }
    lemma_roles_failed(fs, i as usize, j + 1, n);
    lemma_variant_decides(input, i);
}

/// The field marked as the cause must be named `source`: a declaration with a
/// field that is marked `source` and named otherwise is not read. Where nothing
/// comes before that field, the problem reported is the name, at the field's
/// name.
pub proof fn lemma_cause_named(input: DeriveInput, i: int, j: int)
    requires
        has_field(input, i, j),
        is_cause(fields_at(input, i)[j]),
        fields_at(input, i)[j].ident@ != "source"@,
    ensures
        parsed(input) is Err,
        reaches_field(input, i, j) ==> reports(
            input,
            Problem::MustBeNamedSource,
            Place::FieldName { variant: i as usize, field: j as usize },
        ),
{
    lemma_field_decides(input, i, j);
}

/// A variant has one cause at most: a declaration with two fields of one variant
/// marked `source` is not read. Where nothing comes before the second of them,
/// and it is named `source`, the problem reported is the second cause, at that
/// field.
pub proof fn lemma_one_cause(input: DeriveInput, i: int, a: int, b: int)
    requires
        has_field(input, i, b),
        0 <= a < b,
        is_cause(fields_at(input, i)[a]),
        is_cause(fields_at(input, i)[b]),
    ensures
        parsed(input) is Err,
        reaches_field(input, i, b) && fields_at(input, i)[b].ident@ == "source"@ ==> reports(
            input,
            Problem::DupeSource,
            Place::Field { variant: i as usize, field: b as usize },
        ),
{
    if roles(fields_at(input, i), i as usize, b) is Ok {
        lemma_cause_known(fields_at(input, i), i as usize, a, b);
    }
    lemma_field_decides(input, i, b);
}

/// The field marked as the location must be named `location`: a declaration
/// with a field that is marked `location`, not `source`, and named otherwise is
/// not read. Where nothing comes before that field, the problem reported is the
/// name, at the field's name.
pub proof fn lemma_location_named(input: DeriveInput, i: int, j: int)
    requires
        has_field(input, i, j),
        is_location(fields_at(input, i)[j]),
        fields_at(input, i)[j].ident@ != "location"@,
    ensures
        parsed(input) is Err,
        reaches_field(input, i, j) ==> reports(
            input,
            Problem::MustBeNamedLocation,
            Place::FieldName { variant: i as usize, field: j as usize },
        ),
{
    lemma_field_decides(input, i, j);
}

/// A variant has one location at most: a declaration with two fields of one
/// variant marked `location`, and not `source`, is not read. Where nothing comes
/// before the second of them, and it is named `location`, the problem reported
/// is the second location, at that field.
pub proof fn lemma_one_location(input: DeriveInput, i: int, a: int, b: int)
    requires
        has_field(input, i, b),
        0 <= a < b,
        is_location(fields_at(input, i)[a]),
        is_location(fields_at(input, i)[b]),
    ensures
        parsed(input) is Err,
        reaches_field(input, i, b) && fields_at(input, i)[b].ident@ == "location"@ ==> reports(
            input,
            Problem::DupeLocation,
            Place::Field { variant: i as usize, field: b as usize },
        ),
{
    if roles(fields_at(input, i), i as usize, b) is Ok {
        lemma_location_known(fields_at(input, i), i as usize, a, b);
    }
    lemma_field_decides(input, i, b);
}

} // verus!
