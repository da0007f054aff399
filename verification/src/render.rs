//! The text of the implementation that is derived for a record or a tagged
//! union. The text is source for the verifier: it states the model of the
//! type and its wire form, and proves the round trip from those of the
//! fields.

use crate::derive::{Data, Derived, Field, Member, Style, Variant};
use crate::utf16::push_char;
use vstd::prelude::*;
use vstd::string::StringExecFns;

verus! {

/// The character of a decimal digit.
pub open spec fn digit(d: nat) -> char {
    ((48 + d) as u8) as char
}

/// `w` followed by the decimal digits of `n`.
pub open spec fn with_digits(w: Seq<char>, n: nat) -> Seq<char>
    decreases n,
{
    if n < 10 {
        w.push(digit(n))
    } else {
        with_digits(w, n / 10).push(digit(n % 10))
    }
}

/// `w` followed by the number `n` in decimal, with a minus sign if it is negative.
pub open spec fn with_number(w: Seq<char>, n: int) -> Seq<char> {
    if n < 0 {
        with_digits(w.push('-'), (-n) as nat)
    } else {
        with_digits(w, n as nat)
    }
}

fn emit_digits(out: &mut String, n: u64)
    ensures
        final(out)@ == with_digits(old(out)@, n as nat),
    decreases n,
{
    if n >= 10 {
        emit_digits(out, n / 10);
    }
    let d: u8 = (n % 10) as u8;
    push_char(out, (48u8 + d) as char);
}

fn emit_number(out: &mut String, n: i32)
    ensures
        final(out)@ == with_number(old(out)@, n as int),
{
    if n < 0 {
        push_char(out, '-');
        emit_digits(out, (-(n as i64)) as u64);
    } else {
        emit_digits(out, n as u64);
    }
}

/// What is written for a field.
#[derive(Debug, Clone, Copy, PartialEq, Eq, Structural)]
pub enum FieldPart {
    /// The type of the field.
    Type,
    /// The type of the model of the field.
    ModelType,
    /// The name that the field is bound to.
    Binding,
    /// The model of what the field is bound to.
    BindingModel,
    /// The model of the field of `self`.
    SelfModel,
    /// A reference to the field of `self`.
    SelfRef,
}

/// `w` followed by the name that a field is bound to: its own name, or
/// `_t_` and its place.
pub open spec fn with_binding(w: Seq<char>, field: Field) -> Seq<char> {
    match field.member {
        Member::Named(name) => w + name@,
        Member::Unnamed(index) => with_digits(w + "_t_"@, index as nat),
    }
}

/// `w` followed by what a field is reached by: its name, or its place.
pub open spec fn with_accessor(w: Seq<char>, field: Field) -> Seq<char> {
    match field.member {
        Member::Named(name) => w + name@,
        Member::Unnamed(index) => with_digits(w, index as nat),
    }
}

/// `w` followed by one part of a field.
pub open spec fn with_item(w: Seq<char>, field: Field, part: FieldPart) -> Seq<char> {
    match part {
        FieldPart::Type => w + field.ty@,
        FieldPart::ModelType => w + "<"@ + field.ty@ + " as ::binder_rust::Parcelable>::Model"@,
        FieldPart::Binding => with_binding(w, field),
        FieldPart::BindingModel => with_binding(w, field) + ".model()"@,
        FieldPart::SelfModel => with_accessor(w + "self."@, field) + ".model()"@,
        FieldPart::SelfRef => with_accessor(w + "&self."@, field),
    }
}

fn emit_binding(out: &mut String, field: &Field)
    ensures
        final(out)@ == with_binding(old(out)@, *field),
{
    match &field.member {
        Member::Named(name) => {
            out.append(name.as_str());
        },
        Member::Unnamed(index) => {
            out.append("_t_");
            emit_digits(out, *index as u64);
        },
    }
}

fn emit_accessor(out: &mut String, field: &Field)
    ensures
        final(out)@ == with_accessor(old(out)@, *field),
{
    match &field.member {
        Member::Named(name) => {
            out.append(name.as_str());
        },
        Member::Unnamed(index) => {
            emit_digits(out, *index as u64);
        },
    }
}

fn emit_item(out: &mut String, field: &Field, part: FieldPart)
    ensures
        final(out)@ == with_item(old(out)@, *field, part),
{
    match part {
        FieldPart::Type => {
            out.append(field.ty.as_str());
        },
        FieldPart::ModelType => {
            out.append("<");
            out.append(field.ty.as_str());
            out.append(" as ::binder_rust::Parcelable>::Model");
        },
        FieldPart::Binding => {
            emit_binding(out, field);
        },
        FieldPart::BindingModel => {
            emit_binding(out, field);
            out.append(".model()");
        },
        FieldPart::SelfModel => {
            out.append("self.");
            emit_accessor(out, field);
            out.append(".model()");
        },
        FieldPart::SelfRef => {
            out.append("&self.");
            emit_accessor(out, field);
        },
    }
}

/// `w` followed by the first `k` fields, each opening a pair: `(`, the
/// part of the field, and a comma.
pub open spec fn with_opened(w: Seq<char>, fields: Seq<Field>, part: FieldPart, k: nat) -> Seq<
    char,
>
    decreases k,
{
    if k == 0 {
        w
    } else {
        with_item(with_opened(w, fields, part, (k - 1) as nat) + "("@, fields[k - 1], part)
            + ", "@
    }
}

/// `w` followed by `k` closing parentheses.
pub open spec fn with_closed(w: Seq<char>, k: nat) -> Seq<char>
    decreases k,
{
    if k == 0 {
        w
    } else {
        with_closed(w, (k - 1) as nat) + ")"@
    }
}

/// `w` followed by the fields nested to the right: no field is `unit`,
/// one field is its part, and more fields are pairs of the first and the rest.
pub open spec fn with_nested(w: Seq<char>, fields: Seq<Field>, part: FieldPart, unit: Seq<char>) -> Seq<
    char,
> {
    if fields.len() == 0 {
        w + unit
    } else {
        with_closed(
            with_item(
                with_opened(w, fields, part, (fields.len() - 1) as nat),
                fields[fields.len() - 1],
                part,
            ),
            (fields.len() - 1) as nat,
        )
    }
}

/// `w` followed by the first `k` fields as a list: where `named` is set
/// the name of the field and a colon, then the part of the field and a comma.
pub open spec fn with_listed(
    w: Seq<char>,
    fields: Seq<Field>,
    part: FieldPart,
    named: bool,
    k: nat,
) -> Seq<char>
    decreases k,
{
    if k == 0 {
        w
    } else if named {
        with_item(
            with_accessor(with_listed(w, fields, part, named, (k - 1) as nat), fields[k - 1]) + ": "@,
            fields[k - 1],
            part,
        ) + ", "@
    } else {
        with_item(with_listed(w, fields, part, named, (k - 1) as nat), fields[k - 1], part) + ", "@
    }
}

/// `w` followed by the fields in the shape of their style: nothing for a
/// unit, a list in parentheses for unnamed fields, a list with names in
/// braces for named fields.
pub open spec fn with_shape(w: Seq<char>, style: Style, fields: Seq<Field>, part: FieldPart) -> Seq<
    char,
> {
    match style {
        Style::Unit => w,
        Style::Struct => with_listed(w + " { "@, fields, part, true, fields.len()) + "}"@,
        _ => with_listed(w + "("@, fields, part, false, fields.len()) + ")"@,
    }
}

fn emit_nested(out: &mut String, fields: &Vec<Field>, part: FieldPart, unit: &str)
    ensures
        final(out)@ == with_nested(old(out)@, fields@, part, unit@),
{
    let n: usize = fields.len();
    if n == 0 {
        out.append(unit);
        return ;
    }
    let mut i: usize = 0;
    while i < n - 1
        invariant
            i <= n - 1,
            n == fields@.len(),
            out@ == with_opened(old(out)@, fields@, part, i as nat),
        decreases n - 1 - i,
    {
        out.append("(");
        emit_item(out, &fields[i], part);
        out.append(", ");
        i += 1;
    }
    emit_item(out, &fields[n - 1], part);
    let ghost inner = out@;
    let mut j: usize = 0;
    while j < n - 1
        invariant
            j <= n - 1,
            out@ == with_closed(inner, j as nat),
        decreases n - 1 - j,
    {
        out.append(")");
        j += 1;
    }
}

fn emit_listed(out: &mut String, fields: &Vec<Field>, part: FieldPart, named: bool)
    ensures
        final(out)@ == with_listed(old(out)@, fields@, part, named, fields@.len()),
{
    let mut i: usize = 0;
    while i < fields.len()
        invariant
            i <= fields@.len(),
            out@ == with_listed(old(out)@, fields@, part, named, i as nat),
        decreases fields@.len() - i,
    {
        if named {
            emit_accessor(out, &fields[i]);
            out.append(": ");
        }
        emit_item(out, &fields[i], part);
        out.append(", ");
        i += 1;
    }
}

fn emit_shape(out: &mut String, style: Style, fields: &Vec<Field>, part: FieldPart)
    ensures
        final(out)@ == with_shape(old(out)@, style, fields@, part),
{
    match style {
        Style::Unit => {},
        Style::Struct => {
            out.append(" { ");
            emit_listed(out, fields, part, true);
            out.append("}");
        },
        _ => {
            out.append("(");
            emit_listed(out, fields, part, false);
            out.append(")");
        },
    }
}

/// What is written for a variant of a tagged union.
#[derive(Debug, Clone, Copy, PartialEq, Eq, Structural)]
pub enum VariantPart {
    /// The variant of the model.
    Declared,
    /// The arm of `model`.
    ModelArm,
    /// The arm of `legal`.
    LegalArm,
    /// The arm of `frame`.
    FrameArm,
    /// The branch of `parse`.
    ParseArm,
    /// The arm of the round trip.
    LemmaArm,
    /// The branch of `deserialize`.
    ReadArm,
    /// The arm of `serialize`.
    WriteArm,
}

/// The tag of the variant at place `index`: the one in the table of tags,
/// or the place itself where the table is too short.
pub open spec fn tag_at(tags: Seq<i32>, index: int) -> i32 {
    if index < tags.len() {
        tags[index]
    } else {
        index as i32
    }
}

/// `w` followed by one part of a variant.
pub open spec fn with_variant(
    w: Seq<char>,
    name: Seq<char>,
    variant: Variant,
    tag: i32,
    part: VariantPart,
) -> Seq<char> {
    match part {
        VariantPart::Declared => with_declared_variant(w, name, variant, tag),
        VariantPart::ModelArm => with_model_arm(w, name, variant, tag),
        VariantPart::LegalArm => with_legal_arm(w, name, variant, tag),
        VariantPart::FrameArm => with_frame_arm(w, name, variant, tag),
        VariantPart::ParseArm => with_parse_arm(w, name, variant, tag),
        VariantPart::LemmaArm => with_lemma_arm(w, name, variant, tag),
        VariantPart::ReadArm => with_read_arm(w, name, variant, tag),
        VariantPart::WriteArm => with_write_arm(w, name, variant, tag),
    }
}

/// `w` followed by one part of each of the first `k` variants.
pub open spec fn with_variants_upto(
    w: Seq<char>,
    name: Seq<char>,
    variants: Seq<Variant>,
    tags: Seq<i32>,
    part: VariantPart,
    k: nat,
) -> Seq<char>
    decreases k,
{
    if k == 0 {
        w
    } else {
        with_variant(
            with_variants_upto(w, name, variants, tags, part, (k - 1) as nat),
            name,
            variants[k - 1],
            tag_at(tags, k - 1),
            part,
        )
    }
}

/// `w` followed by one part of each variant.
pub open spec fn with_variants(
    w: Seq<char>,
    name: Seq<char>,
    variants: Seq<Variant>,
    tags: Seq<i32>,
    part: VariantPart,
) -> Seq<char> {
    with_variants_upto(w, name, variants, tags, part, variants.len())
}

fn emit_variant(out: &mut String, name: &String, variant: &Variant, tag: i32, part: VariantPart)
    ensures
        final(out)@ == with_variant(old(out)@, name@, *variant, tag, part),
{
    match part {
        VariantPart::Declared => emit_declared_variant(out, name, variant, tag),
        VariantPart::ModelArm => emit_model_arm(out, name, variant, tag),
        VariantPart::LegalArm => emit_legal_arm(out, name, variant, tag),
        VariantPart::FrameArm => emit_frame_arm(out, name, variant, tag),
        VariantPart::ParseArm => emit_parse_arm(out, name, variant, tag),
        VariantPart::LemmaArm => emit_lemma_arm(out, name, variant, tag),
        VariantPart::ReadArm => emit_read_arm(out, name, variant, tag),
        VariantPart::WriteArm => emit_write_arm(out, name, variant, tag),
    }
}

fn emit_variants(
    out: &mut String,
    name: &String,
    variants: &Vec<Variant>,
    tags: &Vec<i32>,
    part: VariantPart,
)
    ensures
        final(out)@ == with_variants(old(out)@, name@, variants@, tags@, part),
{
    let mut i: usize = 0;
    while i < variants.len()
        invariant
            i <= variants@.len(),
            out@ == with_variants_upto(old(out)@, name@, variants@, tags@, part, i as nat),
        decreases variants@.len() - i,
    {
        let tag: i32 = if i < tags.len() {
            tags[i]
        } else {
            #[verifier::truncate]
            (i as i32)
        };
        emit_variant(out, name, &variants[i], tag, part);
        i += 1;
    }
}

/// The implementation for a record: its fields travel as their types nested
/// to the right, and everything is handed on to that carrier.
pub open spec fn with_record(w: Seq<char>, name: Seq<char>, style: Style, fields: Seq<Field>) -> Seq<char> {
    let w = w + "impl ::binder_rust::Parcelable for "@;
    let w = w + name;
    let w = w + " {\n    type Model = <"@;
    let w = with_nested(w, fields, FieldPart::Type, "()"@);
    let w = w + " as ::binder_rust::Parcelable>::Model;\n\n    open spec fn model(&self) -> Self::Model {\n        "@;
    let w = with_nested(w, fields, FieldPart::SelfModel, "()"@);
    let w = w + "\n    }\n\n    open spec fn legal(model: Self::Model) -> bool {\n        <"@;
    let w = with_nested(w, fields, FieldPart::Type, "()"@);
    let w = w + " as ::binder_rust::Parcelable>::legal(model)\n    }\n\n    open spec fn frame(model: Self::Model) -> ::binder_rust::parcelable::Frame {\n        <"@;
    let w = with_nested(w, fields, FieldPart::Type, "()"@);
    let w = w + " as ::binder_rust::Parcelable>::frame(model)\n    }\n\n    open spec fn parse(p: ::binder_rust::parcel::ParcelView) -> Result<(Self::Model, nat), ::binder_rust::Error> {\n        <"@;
    let w = with_nested(w, fields, FieldPart::Type, "()"@);
    let w = w + " as ::binder_rust::Parcelable>::parse(p)\n    }\n\n    proof fn lemma_round_trip(model: Self::Model, p: ::binder_rust::parcel::ParcelView) {\n        <"@;
    let w = with_nested(w, fields, FieldPart::Type, "()"@);
    let w = w + " as ::binder_rust::Parcelable>::lemma_round_trip(model, p);\n    }\n\n    fn deserialize(parcel: &mut ::binder_rust::Parcel) -> (r: Result<Self, ::binder_rust::Error>) {\n        match <"@;
    let w = with_nested(w, fields, FieldPart::Type, "()"@);
    let w = w + " as ::binder_rust::Parcelable>::deserialize(parcel) {\n            Ok("@;
    let w = with_nested(w, fields, FieldPart::Binding, "()"@);
    let w = w + ") => Ok("@;
    let w = w + name;
    let w = with_shape(w, style, fields, FieldPart::Binding);
    let w = w + "),\n            Err(e) => Err(e),\n        }\n    }\n\n    fn serialize(&self, parcel: &mut ::binder_rust::Parcel) -> (r: Result<(), ::binder_rust::Error>) {\n        ::binder_rust::parcelable::Sends::send(&"@;
    let w = with_nested(w, fields, FieldPart::SelfRef, "&()"@);
    let w = w + ", parcel)\n    }\n}\n"@;
    w
}

fn emit_record(out: &mut String, name: &String, style: Style, fields: &Vec<Field>)
    ensures
        final(out)@ == with_record(old(out)@, name@, style, fields@),
{
    out.append("impl ::binder_rust::Parcelable for ");
    out.append(name.as_str());
    out.append(" {\n    type Model = <");
    emit_nested(out, fields, FieldPart::Type, "()");
    out.append(" as ::binder_rust::Parcelable>::Model;\n\n    open spec fn model(&self) -> Self::Model {\n        ");
    emit_nested(out, fields, FieldPart::SelfModel, "()");
    out.append("\n    }\n\n    open spec fn legal(model: Self::Model) -> bool {\n        <");
    emit_nested(out, fields, FieldPart::Type, "()");
    out.append(" as ::binder_rust::Parcelable>::legal(model)\n    }\n\n    open spec fn frame(model: Self::Model) -> ::binder_rust::parcelable::Frame {\n        <");
    emit_nested(out, fields, FieldPart::Type, "()");
    out.append(" as ::binder_rust::Parcelable>::frame(model)\n    }\n\n    open spec fn parse(p: ::binder_rust::parcel::ParcelView) -> Result<(Self::Model, nat), ::binder_rust::Error> {\n        <");
    emit_nested(out, fields, FieldPart::Type, "()");
    out.append(" as ::binder_rust::Parcelable>::parse(p)\n    }\n\n    proof fn lemma_round_trip(model: Self::Model, p: ::binder_rust::parcel::ParcelView) {\n        <");
    emit_nested(out, fields, FieldPart::Type, "()");
    out.append(" as ::binder_rust::Parcelable>::lemma_round_trip(model, p);\n    }\n\n    fn deserialize(parcel: &mut ::binder_rust::Parcel) -> (r: Result<Self, ::binder_rust::Error>) {\n        match <");
    emit_nested(out, fields, FieldPart::Type, "()");
    out.append(" as ::binder_rust::Parcelable>::deserialize(parcel) {\n            Ok(");
    emit_nested(out, fields, FieldPart::Binding, "()");
    out.append(") => Ok(");
    out.append(name.as_str());
    emit_shape(out, style, fields, FieldPart::Binding);
    out.append("),\n            Err(e) => Err(e),\n        }\n    }\n\n    fn serialize(&self, parcel: &mut ::binder_rust::Parcel) -> (r: Result<(), ::binder_rust::Error>) {\n        ::binder_rust::parcelable::Sends::send(&");
    emit_nested(out, fields, FieldPart::SelfRef, "&()");
    out.append(", parcel)\n    }\n}\n");
}

/// A variant of the model of a union: the variant with the model of each
/// field in place of the field.
pub open spec fn with_declared_variant(w: Seq<char>, name: Seq<char>, variant: Variant, tag: i32) -> Seq<char> {
    let w = w + "    "@;
    let w = w + variant.ident@;
    let w = with_shape(w, variant.style, variant.fields@, FieldPart::ModelType);
    let w = w + ",\n"@;
    w
}

fn emit_declared_variant(out: &mut String, name: &String, variant: &Variant, tag: i32)
    ensures
        final(out)@ == with_declared_variant(old(out)@, name@, *variant, tag),
{
    out.append("    ");
    out.append(variant.ident.as_str());
    emit_shape(out, variant.style, &variant.fields, FieldPart::ModelType);
    out.append(",\n");
}

/// The arm that gives the model of a variant.
pub open spec fn with_model_arm(w: Seq<char>, name: Seq<char>, variant: Variant, tag: i32) -> Seq<char> {
    let w = w + "            "@;
    let w = w + name;
    let w = w + "::"@;
    let w = w + variant.ident@;
    let w = with_shape(w, variant.style, variant.fields@, FieldPart::Binding);
    let w = w + " => "@;
    let w = w + name;
    let w = w + "Model::"@;
    let w = w + variant.ident@;
    let w = with_shape(w, variant.style, variant.fields@, FieldPart::BindingModel);
    let w = w + ",\n"@;
    w
}

fn emit_model_arm(out: &mut String, name: &String, variant: &Variant, tag: i32)
    ensures
        final(out)@ == with_model_arm(old(out)@, name@, *variant, tag),
{
    out.append("            ");
    out.append(name.as_str());
    out.append("::");
    out.append(variant.ident.as_str());
    emit_shape(out, variant.style, &variant.fields, FieldPart::Binding);
    out.append(" => ");
    out.append(name.as_str());
    out.append("Model::");
    out.append(variant.ident.as_str());
    emit_shape(out, variant.style, &variant.fields, FieldPart::BindingModel);
    out.append(",\n");
}

/// The arm that tells whether a variant can travel: its fields can, as
/// their carrier.
pub open spec fn with_legal_arm(w: Seq<char>, name: Seq<char>, variant: Variant, tag: i32) -> Seq<char> {
    let w = w + "            "@;
    let w = w + name;
    let w = w + "Model::"@;
    let w = w + variant.ident@;
    let w = with_shape(w, variant.style, variant.fields@, FieldPart::Binding);
    let w = w + " => <"@;
    let w = with_nested(w, variant.fields@, FieldPart::Type, "()"@);
    let w = w + " as ::binder_rust::Parcelable>::legal("@;
    let w = with_nested(w, variant.fields@, FieldPart::Binding, "()"@);
    let w = w + "),\n"@;
    w
}

fn emit_legal_arm(out: &mut String, name: &String, variant: &Variant, tag: i32)
    ensures
        final(out)@ == with_legal_arm(old(out)@, name@, *variant, tag),
{
    out.append("            ");
    out.append(name.as_str());
    out.append("Model::");
    out.append(variant.ident.as_str());
    emit_shape(out, variant.style, &variant.fields, FieldPart::Binding);
    out.append(" => <");
    emit_nested(out, &variant.fields, FieldPart::Type, "()");
    out.append(" as ::binder_rust::Parcelable>::legal(");
    emit_nested(out, &variant.fields, FieldPart::Binding, "()");
    out.append("),\n");
}

/// The arm that gives the wire form of a variant: its tag, then its fields
/// as their carrier.
pub open spec fn with_frame_arm(w: Seq<char>, name: Seq<char>, variant: Variant, tag: i32) -> Seq<char> {
    let w = w + "            "@;
    let w = w + name;
    let w = w + "Model::"@;
    let w = w + variant.ident@;
    let w = with_shape(w, variant.style, variant.fields@, FieldPart::Binding);
    let w = w + " => ::binder_rust::parcelable::Frame::plain(::binder_rust::wire::le32(::binder_rust::wire::bits_of_i32(("@;
    let w = with_number(w, tag as int);
    let w = w + " as i32)))).join(<"@;
    let w = with_nested(w, variant.fields@, FieldPart::Type, "()"@);
    let w = w + " as ::binder_rust::Parcelable>::frame("@;
    let w = with_nested(w, variant.fields@, FieldPart::Binding, "()"@);
    let w = w + ")),\n"@;
    w
}

fn emit_frame_arm(out: &mut String, name: &String, variant: &Variant, tag: i32)
    ensures
        final(out)@ == with_frame_arm(old(out)@, name@, *variant, tag),
{
    out.append("            ");
    out.append(name.as_str());
    out.append("Model::");
    out.append(variant.ident.as_str());
    emit_shape(out, variant.style, &variant.fields, FieldPart::Binding);
    out.append(" => ::binder_rust::parcelable::Frame::plain(::binder_rust::wire::le32(::binder_rust::wire::bits_of_i32((");
    emit_number(out, tag);
    out.append(" as i32)))).join(<");
    emit_nested(out, &variant.fields, FieldPart::Type, "()");
    out.append(" as ::binder_rust::Parcelable>::frame(");
    emit_nested(out, &variant.fields, FieldPart::Binding, "()");
    out.append(")),\n");
}

/// The branch that reads a variant where its tag stands at the cursor.
pub open spec fn with_parse_arm(w: Seq<char>, name: Seq<char>, variant: Variant, tag: i32) -> Seq<char> {
    let w = w + "if ::binder_rust::parcel::i32_at(p) == ("@;
    let w = with_number(w, tag as int);
    let w = w + " as i32) {\n            match <"@;
    let w = with_nested(w, variant.fields@, FieldPart::Type, "()"@);
    let w = w + " as ::binder_rust::Parcelable>::parse(p.skip(4)) {\n                Ok(("@;
    let w = with_nested(w, variant.fields@, FieldPart::Binding, "()"@);
    let w = w + ", end)) => Ok(("@;
    let w = w + name;
    let w = w + "Model::"@;
    let w = w + variant.ident@;
    let w = with_shape(w, variant.style, variant.fields@, FieldPart::Binding);
    let w = w + ", end)),\n                Err(e) => Err(e),\n            }\n        } else "@;
    w
}

fn emit_parse_arm(out: &mut String, name: &String, variant: &Variant, tag: i32)
    ensures
        final(out)@ == with_parse_arm(old(out)@, name@, *variant, tag),
{
    out.append("if ::binder_rust::parcel::i32_at(p) == (");
    emit_number(out, tag);
    out.append(" as i32) {\n            match <");
    emit_nested(out, &variant.fields, FieldPart::Type, "()");
    out.append(" as ::binder_rust::Parcelable>::parse(p.skip(4)) {\n                Ok((");
    emit_nested(out, &variant.fields, FieldPart::Binding, "()");
    out.append(", end)) => Ok((");
    out.append(name.as_str());
    out.append("Model::");
    out.append(variant.ident.as_str());
    emit_shape(out, variant.style, &variant.fields, FieldPart::Binding);
    out.append(", end)),\n                Err(e) => Err(e),\n            }\n        } else ");
}

/// The arm that proves the round trip of a variant from that of its tag and
/// that of its carrier.
pub open spec fn with_lemma_arm(w: Seq<char>, name: Seq<char>, variant: Variant, tag: i32) -> Seq<char> {
    let w = w + "            "@;
    let w = w + name;
    let w = w + "Model::"@;
    let w = w + variant.ident@;
    let w = with_shape(w, variant.style, variant.fields@, FieldPart::Binding);
    let w = w + " => {\n                ::binder_rust::wire::lemma_le_round_trip(0, 0, 0, ("@;
    let w = with_number(w, tag as int);
    let w = w + " as i32));\n                ::binder_rust::parcelable::lemma_holds_join(p, ::binder_rust::parcelable::Frame::plain(::binder_rust::wire::le32(::binder_rust::wire::bits_of_i32(("@;
    let w = with_number(w, tag as int);
    let w = w + " as i32)))), <"@;
    let w = with_nested(w, variant.fields@, FieldPart::Type, "()"@);
    let w = w + " as ::binder_rust::Parcelable>::frame("@;
    let w = with_nested(w, variant.fields@, FieldPart::Binding, "()"@);
    let w = w + "));\n                <"@;
    let w = with_nested(w, variant.fields@, FieldPart::Type, "()"@);
    let w = w + " as ::binder_rust::Parcelable>::lemma_round_trip("@;
    let w = with_nested(w, variant.fields@, FieldPart::Binding, "()"@);
    let w = w + ", p.skip(4));\n            },\n"@;
    w
}

fn emit_lemma_arm(out: &mut String, name: &String, variant: &Variant, tag: i32)
    ensures
        final(out)@ == with_lemma_arm(old(out)@, name@, *variant, tag),
{
    out.append("            ");
    out.append(name.as_str());
    out.append("Model::");
    out.append(variant.ident.as_str());
    emit_shape(out, variant.style, &variant.fields, FieldPart::Binding);
    out.append(" => {\n                ::binder_rust::wire::lemma_le_round_trip(0, 0, 0, (");
    emit_number(out, tag);
    out.append(" as i32));\n                ::binder_rust::parcelable::lemma_holds_join(p, ::binder_rust::parcelable::Frame::plain(::binder_rust::wire::le32(::binder_rust::wire::bits_of_i32((");
    emit_number(out, tag);
    out.append(" as i32)))), <");
    emit_nested(out, &variant.fields, FieldPart::Type, "()");
    out.append(" as ::binder_rust::Parcelable>::frame(");
    emit_nested(out, &variant.fields, FieldPart::Binding, "()");
    out.append("));\n                <");
    emit_nested(out, &variant.fields, FieldPart::Type, "()");
    out.append(" as ::binder_rust::Parcelable>::lemma_round_trip(");
    emit_nested(out, &variant.fields, FieldPart::Binding, "()");
    out.append(", p.skip(4));\n            },\n");
}

/// The branch that reads the fields of a variant after its tag was read,
/// and steps back where they cannot be read.
pub open spec fn with_read_arm(w: Seq<char>, name: Seq<char>, variant: Variant, tag: i32) -> Seq<char> {
    let w = w + "if tag == ("@;
    let w = with_number(w, tag as int);
    let w = w + " as i32) {\n            match <"@;
    let w = with_nested(w, variant.fields@, FieldPart::Type, "()"@);
    let w = w + " as ::binder_rust::Parcelable>::deserialize(parcel) {\n                Ok("@;
    let w = with_nested(w, variant.fields@, FieldPart::Binding, "()"@);
    let w = w + ") => Ok("@;
    let w = w + name;
    let w = w + "::"@;
    let w = w + variant.ident@;
    let w = with_shape(w, variant.style, variant.fields@, FieldPart::Binding);
    let w = w + "),\n                Err(e) => {\n                    parcel.set_position(before);\n                    Err(e)\n                },\n            }\n        } else "@;
    w
}

fn emit_read_arm(out: &mut String, name: &String, variant: &Variant, tag: i32)
    ensures
        final(out)@ == with_read_arm(old(out)@, name@, *variant, tag),
{
    out.append("if tag == (");
    emit_number(out, tag);
    out.append(" as i32) {\n            match <");
    emit_nested(out, &variant.fields, FieldPart::Type, "()");
    out.append(" as ::binder_rust::Parcelable>::deserialize(parcel) {\n                Ok(");
    emit_nested(out, &variant.fields, FieldPart::Binding, "()");
    out.append(") => Ok(");
    out.append(name.as_str());
    out.append("::");
    out.append(variant.ident.as_str());
    emit_shape(out, variant.style, &variant.fields, FieldPart::Binding);
    out.append("),\n                Err(e) => {\n                    parcel.set_position(before);\n                    Err(e)\n                },\n            }\n        } else ");
}

/// The arm that writes a variant: its tag, then its fields.
pub open spec fn with_write_arm(w: Seq<char>, name: Seq<char>, variant: Variant, tag: i32) -> Seq<char> {
    let w = w + "            "@;
    let w = w + name;
    let w = w + "::"@;
    let w = w + variant.ident@;
    let w = with_shape(w, variant.style, variant.fields@, FieldPart::Binding);
    let w = w + " => ::binder_rust::parcelable::Sends::send(&(::binder_rust::parcelable::Tag(("@;
    let w = with_number(w, tag as int);
    let w = w + " as i32)), "@;
    let w = with_nested(w, variant.fields@, FieldPart::Binding, "&()"@);
    let w = w + "), parcel),\n"@;
    w
}

fn emit_write_arm(out: &mut String, name: &String, variant: &Variant, tag: i32)
    ensures
        final(out)@ == with_write_arm(old(out)@, name@, *variant, tag),
{
    out.append("            ");
    out.append(name.as_str());
    out.append("::");
    out.append(variant.ident.as_str());
    emit_shape(out, variant.style, &variant.fields, FieldPart::Binding);
    out.append(" => ::binder_rust::parcelable::Sends::send(&(::binder_rust::parcelable::Tag((");
    emit_number(out, tag);
    out.append(" as i32)), ");
    emit_nested(out, &variant.fields, FieldPart::Binding, "&()");
    out.append("), parcel),\n");
}

/// The model and the implementation for a tagged union: a variant travels
/// as its tag followed by its fields, and is read back by its tag.
pub open spec fn with_union(w: Seq<char>, name: Seq<char>, variants: Seq<Variant>, tags: Seq<i32>) -> Seq<char> {
    let w = w + "pub enum "@;
    let w = w + name;
    let w = w + "Model {\n"@;
    let w = with_variants(w, name, variants, tags, VariantPart::Declared);
    let w = w + "}\n\nimpl ::binder_rust::Parcelable for "@;
    let w = w + name;
    let w = w + " {\n    type Model = "@;
    let w = w + name;
    let w = w + "Model;\n\n    open spec fn model(&self) -> Self::Model {\n        match self {\n"@;
    let w = with_variants(w, name, variants, tags, VariantPart::ModelArm);
    let w = w + "        }\n    }\n\n    open spec fn legal(model: Self::Model) -> bool {\n        match model {\n"@;
    let w = with_variants(w, name, variants, tags, VariantPart::LegalArm);
    let w = w + "        }\n    }\n\n    open spec fn frame(model: Self::Model) -> ::binder_rust::parcelable::Frame {\n        match model {\n"@;
    let w = with_variants(w, name, variants, tags, VariantPart::FrameArm);
    let w = w + "        }\n    }\n\n    open spec fn parse(p: ::binder_rust::parcel::ParcelView) -> Result<(Self::Model, nat), ::binder_rust::Error> {\n        if !p.has(4) {\n            Err(::binder_rust::Error::DeserializationError)\n        } else "@;
    let w = with_variants(w, name, variants, tags, VariantPart::ParseArm);
    let w = w + "{\n            Err(::binder_rust::Error::BadEnumValue)\n        }\n    }\n\n    proof fn lemma_round_trip(model: Self::Model, p: ::binder_rust::parcel::ParcelView) {\n        match model {\n"@;
    let w = with_variants(w, name, variants, tags, VariantPart::LemmaArm);
    let w = w + "        }\n    }\n\n    fn deserialize(parcel: &mut ::binder_rust::Parcel) -> (r: Result<Self, ::binder_rust::Error>) {\n        let before: u64 = parcel.position();\n        let tag: i32 = match parcel.read_i32() {\n            Ok(tag) => tag,\n            Err(e) => {\n                return Err(e);\n            },\n        };\n        "@;
    let w = with_variants(w, name, variants, tags, VariantPart::ReadArm);
    let w = w + "{\n            parcel.set_position(before);\n            Err(::binder_rust::Error::BadEnumValue)\n        }\n    }\n\n    fn serialize(&self, parcel: &mut ::binder_rust::Parcel) -> (r: Result<(), ::binder_rust::Error>) {\n        match self {\n"@;
    let w = with_variants(w, name, variants, tags, VariantPart::WriteArm);
    let w = w + "        }\n    }\n}\n"@;
    w
}

fn emit_union(out: &mut String, name: &String, variants: &Vec<Variant>, tags: &Vec<i32>)
    ensures
        final(out)@ == with_union(old(out)@, name@, variants@, tags@),
{
    out.append("pub enum ");
    out.append(name.as_str());
    out.append("Model {\n");
    emit_variants(out, name, variants, tags, VariantPart::Declared);
    out.append("}\n\nimpl ::binder_rust::Parcelable for ");
    out.append(name.as_str());
    out.append(" {\n    type Model = ");
    out.append(name.as_str());
    out.append("Model;\n\n    open spec fn model(&self) -> Self::Model {\n        match self {\n");
    emit_variants(out, name, variants, tags, VariantPart::ModelArm);
    out.append("        }\n    }\n\n    open spec fn legal(model: Self::Model) -> bool {\n        match model {\n");
    emit_variants(out, name, variants, tags, VariantPart::LegalArm);
    out.append("        }\n    }\n\n    open spec fn frame(model: Self::Model) -> ::binder_rust::parcelable::Frame {\n        match model {\n");
    emit_variants(out, name, variants, tags, VariantPart::FrameArm);
    out.append("        }\n    }\n\n    open spec fn parse(p: ::binder_rust::parcel::ParcelView) -> Result<(Self::Model, nat), ::binder_rust::Error> {\n        if !p.has(4) {\n            Err(::binder_rust::Error::DeserializationError)\n        } else ");
    emit_variants(out, name, variants, tags, VariantPart::ParseArm);
    out.append("{\n            Err(::binder_rust::Error::BadEnumValue)\n        }\n    }\n\n    proof fn lemma_round_trip(model: Self::Model, p: ::binder_rust::parcel::ParcelView) {\n        match model {\n");
    emit_variants(out, name, variants, tags, VariantPart::LemmaArm);
    out.append("        }\n    }\n\n    fn deserialize(parcel: &mut ::binder_rust::Parcel) -> (r: Result<Self, ::binder_rust::Error>) {\n        let before: u64 = parcel.position();\n        let tag: i32 = match parcel.read_i32() {\n            Ok(tag) => tag,\n            Err(e) => {\n                return Err(e);\n            },\n        };\n        ");
    emit_variants(out, name, variants, tags, VariantPart::ReadArm);
    out.append("{\n            parcel.set_position(before);\n            Err(::binder_rust::Error::BadEnumValue)\n        }\n    }\n\n    fn serialize(&self, parcel: &mut ::binder_rust::Parcel) -> (r: Result<(), ::binder_rust::Error>) {\n        match self {\n");
    emit_variants(out, name, variants, tags, VariantPart::WriteArm);
    out.append("        }\n    }\n}\n");
}

/// The text of the implementation that is derived: for a record see
/// [`with_record`], for a tagged union see [`with_union`].
pub open spec fn rendered(derived: Derived) -> Seq<char> {
    match derived.container.data {
        Data::Enum(variants) => with_union(
            Seq::empty(),
            derived.container.ident@,
            variants@,
            derived.tags@,
        ),
        Data::Struct(style, fields) => with_record(
            Seq::empty(),
            derived.container.ident@,
            style,
            fields@,
        ),
    }
}

/// Render the implementation that is derived for a record or a tagged union.
pub fn render(derived: &Derived) -> (text: String)
    ensures
        text@ == rendered(*derived),
{
    let mut out = String::new();
    match &derived.container.data {
        Data::Enum(variants) => {
            emit_union(&mut out, &derived.container.ident, variants, &derived.tags);
        },
        Data::Struct(style, fields) => {
            emit_record(&mut out, &derived.container.ident, *style, fields);
        },
    }
    out
}

} // verus!
