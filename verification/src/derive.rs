//! Deriving the wire form of user types: from the declaration of a record
//! or a tagged union to the description that a generator of serializers
//! works from, and the tags that tell the variants of a union apart.

use crate::error::Error;
use crate::parcel::{i32_at, lemma_put_peek, wrote, Parcel, ParcelView};
use crate::wire::{bits_of_i32, le32, lemma_le_round_trip};
use vstd::prelude::*;

verus! {

/// The value of a name-value item of an attribute.
#[derive(Debug)]
pub enum MetaValue {
    /// An integer literal.
    Int(i32),
    /// An integer literal that no i32 can hold.
    Overflow,
    /// Any other literal.
    Other,
}

/// One item in the list of an attribute.
#[derive(Debug)]
pub enum MetaItem {
    /// `name = value`.
    NameValue { name: String, value: MetaValue },
    /// Any other form.
    Other,
}

/// What stands behind the path of an attribute.
#[derive(Debug)]
pub enum Meta {
    /// A list of items in parentheses.
    List(Vec<MetaItem>),
    /// Any other well-formed form.
    Other,
    /// Nothing that an attribute may hold.
    Malformed,
}

/// An attribute on a variant.
#[derive(Debug)]
pub struct Attribute {
    pub path: String,
    pub meta: Meta,
}

/// A field as it is declared: its name, if it has one, and its type.
#[derive(Debug)]
pub struct FieldDecl {
    pub ident: Option<String>,
    pub ty: String,
}

/// The fields of a record or of a variant, as they are declared.
#[derive(Debug)]
pub enum FieldsDecl {
    /// Fields with names, in braces.
    Named(Vec<FieldDecl>),
    /// Fields without names, in parentheses.
    Unnamed(Vec<FieldDecl>),
    /// No fields.
    Unit,
}

/// A variant of a tagged union, as it is declared.
#[derive(Debug)]
pub struct VariantDecl {
    pub ident: String,
    pub attrs: Vec<Attribute>,
    pub fields: FieldsDecl,
}

/// The body of a declaration.
#[derive(Debug)]
pub enum DataDecl {
    /// A tagged union with its variants.
    Enum(Vec<VariantDecl>),
    /// A record with its fields.
    Struct(FieldsDecl),
    /// An untagged union.
    Union,
}

/// The declaration of a type that is to travel in parcels.
#[derive(Debug)]
pub struct DeriveInput {
    pub ident: String,
    pub data: DataDecl,
}

/// Why a declaration cannot be derived from.
#[derive(Debug, Clone, Copy, PartialEq, Eq, Structural)]
pub enum DeriveError {
    /// The declaration is an untagged union.
    UnsupportedUnion,
    /// A `parcelable` attribute is not well-formed.
    MalformedAttribute,
    /// A `parcelable` attribute is not a list in parentheses.
    ExpectedList,
    /// A discriminator is an integer that no i32 can hold.
    DiscriminatorOverflow,
    /// A `parcelable` attribute holds an item other than `discriminator = ..`.
    UnexpectedAttribute,
    /// Two variants have the same discriminator.
    DuplicateDiscriminator,
    /// The union has more variants than discriminators can count.
    TooManyVariants,
}

/// How the fields of a record or of a variant are laid out.
#[derive(Debug, Copy, Clone, PartialEq, Eq, Structural)]
pub enum Style {
    /// Named fields.
    Struct,
    /// Many unnamed fields.
    Tuple,
    /// One unnamed field.
    Newtype,
    /// No fields.
    Unit,
}

/// How a field is reached: by its name, or by its place.
#[derive(Debug)]
pub enum Member {
    Named(String),
    Unnamed(usize),
}

/// A field of a record or of a variant.
#[derive(Debug)]
pub struct Field {
    pub member: Member,
    pub ty: String,
}

/// What the attributes of a variant say.
#[derive(Debug, Clone, Copy, PartialEq, Eq, Structural)]
pub struct VariantAttribute {
    pub discriminator: Option<i32>,
}

/// A variant of a tagged union.
#[derive(Debug)]
pub struct Variant {
    pub ident: String,
    pub attrs: VariantAttribute,
    pub style: Style,
    pub fields: Vec<Field>,
}

/// The fields of a record, or the variants of a tagged union.
#[derive(Debug)]
pub enum Data {
    Enum(Vec<Variant>),
    Struct(Style, Vec<Field>),
}

/// A record or a tagged union, in the form that a generator works from.
#[derive(Debug)]
pub struct Container {
    pub ident: String,
    pub data: Data,
}

/// A container together with the tag of each of its variants.
#[derive(Debug)]
pub struct Derived {
    pub container: Container,
    pub tags: Vec<i32>,
}

/// The declared fields of a field list.
pub open spec fn declared(fields: FieldsDecl) -> Seq<FieldDecl> {
    match fields {
        FieldsDecl::Named(list) => list@,
        FieldsDecl::Unnamed(list) => list@,
        FieldsDecl::Unit => Seq::empty(),
    }
}

/// The layout of a field list: named fields are a struct, one unnamed
/// field is a newtype, any other number of unnamed fields is a tuple, and
/// no field list is a unit.
pub open spec fn style_of(fields: FieldsDecl) -> Style {
    match fields {
        FieldsDecl::Named(_) => Style::Struct,
        FieldsDecl::Unnamed(list) => if list@.len() == 1 {
            Style::Newtype
        } else {
            Style::Tuple
        },
        FieldsDecl::Unit => Style::Unit,
    }
}

/// The field that the declaration `decl` at place `index` makes: it is
/// reached by its name if it has one, and by its place otherwise.
pub open spec fn field_of(decl: FieldDecl, index: int) -> Field {
    Field {
        member: match decl.ident {
            Some(name) => Member::Named(name),
            None => Member::Unnamed(index as usize),
        },
        ty: decl.ty,
    }
}

/// The fields that a list of declarations makes.
pub open spec fn fields_of(decls: Seq<FieldDecl>) -> Seq<Field> {
    Seq::new(decls.len(), |i: int| field_of(decls[i], i))
}

/// What the items of one attribute say, given what was said before: a
/// `discriminator` with an integer sets it, one with an integer that is
/// too large is an error, one with another literal says nothing, and any
/// other item is not expected.
pub open spec fn items_say(items: Seq<MetaItem>, said: Option<i32>) -> Result<
    Option<i32>,
    DeriveError,
>
    decreases items.len(),
{
    if items.len() == 0 {
        Ok(said)
    } else {
        match items_say(items.drop_last(), said) {
            Err(e) => Err(e),
            Ok(so_far) => match items.last() {
                MetaItem::NameValue { name, value } => if name@ == "discriminator"@ {
                    match value {
                        MetaValue::Int(number) => Ok(Some(number)),
                        MetaValue::Overflow => Err(DeriveError::DiscriminatorOverflow),
                        MetaValue::Other => Ok(so_far),
                    }
                } else {
                    Err(DeriveError::UnexpectedAttribute)
                },
                MetaItem::Other => Err(DeriveError::UnexpectedAttribute),
            },
        }
    }
}

/// What a run of attributes says about the discriminator: attributes
/// other than `parcelable` say nothing, a `parcelable` attribute must be a
/// well-formed list, and of several discriminators the last one counts.
pub open spec fn attributes_say(attrs: Seq<Attribute>) -> Result<Option<i32>, DeriveError>
    decreases attrs.len(),
{
    if attrs.len() == 0 {
        Ok(None)
    } else {
        match attributes_say(attrs.drop_last()) {
            Err(e) => Err(e),
            Ok(so_far) => if attrs.last().path@ != "parcelable"@ {
                Ok(so_far)
            } else {
                match attrs.last().meta {
                    Meta::List(items) => items_say(items@, so_far),
                    Meta::Other => Err(DeriveError::ExpectedList),
                    Meta::Malformed => Err(DeriveError::MalformedAttribute),
                }
            },
        }
    }
}

/// The variant `variant` is what the declaration `decl` makes.
pub open spec fn variant_matches(variant: Variant, decl: VariantDecl) -> bool {
    &&& variant.ident == decl.ident
    &&& attributes_say(decl.attrs@) == Ok::<Option<i32>, DeriveError>(
        variant.attrs.discriminator,
    )
    &&& variant.style == style_of(decl.fields)
    &&& variant.fields@ == fields_of(declared(decl.fields))
}

/// The variants are what the declarations make, one for one.
pub open spec fn variants_match(variants: Seq<Variant>, decls: Seq<VariantDecl>) -> bool {
    &&& variants.len() == decls.len()
    &&& forall|i: int| 0 <= i < decls.len() ==> variant_matches(#[trigger] variants[i], decls[i])
}

/// The first declaration whose attributes are not in order, if there is one.
pub open spec fn first_bad_variant(decls: Seq<VariantDecl>) -> Option<DeriveError>
    decreases decls.len(),
{
    if decls.len() == 0 {
        None
    } else {
        match first_bad_variant(decls.drop_last()) {
            Some(e) => Some(e),
            None => match attributes_say(decls.last().attrs@) {
                Err(e) => Some(e),
                Ok(_) => None,
            },
        }
    }
}

/// The container is what the declaration makes.
pub open spec fn container_matches(container: Container, input: DeriveInput) -> bool {
    &&& container.ident == input.ident
    &&& match input.data {
        DataDecl::Enum(decls) => container.data matches Data::Enum(variants) && variants_match(
            variants@,
            decls@,
        ),
        DataDecl::Struct(fields) => container.data matches Data::Struct(style, list) && style
            == style_of(fields) && list@ == fields_of(declared(fields)),
        DataDecl::Union => false,
    }
}

/// Why the declaration cannot be made into a container, if it cannot.
pub open spec fn rejection(input: DeriveInput) -> Option<DeriveError> {
    match input.data {
        DataDecl::Enum(decls) => first_bad_variant(decls@),
        DataDecl::Struct(_) => None,
        DataDecl::Union => Some(DeriveError::UnsupportedUnion),
    }
}

/// The tag of the variant at place `index`: the discriminator that was
/// declared for it, or else its place.
pub open spec fn tag_of(variants: Seq<Variant>, index: int) -> i32 {
    match variants[index].attrs.discriminator {
        Some(number) => number,
        None => index as i32,
    }
}

/// The tags of the variants, in order.
pub open spec fn tags_of(variants: Seq<Variant>) -> Seq<i32> {
    Seq::new(variants.len(), |i: int| tag_of(variants, i))
}

/// No tag occurs twice.
pub open spec fn distinct(tags: Seq<i32>) -> bool {
    forall|i: int, j: int| 0 <= i < j < tags.len() ==> tags[i] != tags[j]
}

/// The place of the first variant with tag `tag`, if there is one.
pub open spec fn place_of(tags: Seq<i32>, tag: i32) -> Option<int>
    decreases tags.len(),
{
    if tags.len() == 0 {
        None
    } else {
        match place_of(tags.drop_last(), tag) {
            Some(place) => Some(place),
            None => if tags.last() == tag {
                Some(tags.len() - 1)
            } else {
                None
            },
        }
    }
}

/// Among distinct tags, each tag is found at its own place.
pub proof fn lemma_place_of_tag(tags: Seq<i32>, index: int)
    requires
        distinct(tags),
        0 <= index < tags.len(),
    ensures
        place_of(tags, tags[index]) == Some(index),
    decreases tags.len(),
{
    let init = tags.drop_last();
    if index < tags.len() - 1 {
        lemma_place_of_tag(init, index);
    } else {
        lemma_place_of_absent(init, tags[index]);
    }
}

/// A tag that no variant has is found nowhere.
pub proof fn lemma_place_of_absent(tags: Seq<i32>, tag: i32)
    requires
        forall|i: int| 0 <= i < tags.len() ==> tags[i] != tag,
    ensures
        place_of(tags, tag) is None,
    decreases tags.len(),
{
    if tags.len() > 0 {
        lemma_place_of_absent(tags.drop_last(), tag);
    }
}

/// A tag that is found is the tag of the variant at that place.
pub proof fn lemma_place_of_found(tags: Seq<i32>, tag: i32)
    ensures
        place_of(tags, tag) matches Some(place) ==> 0 <= place < tags.len() && tags[place] == tag,
    decreases tags.len(),
{
    if tags.len() > 0 {
        lemma_place_of_found(tags.drop_last(), tag);
    }
}

/// Whether two strings hold the same characters.
fn same_text(a: &String, b: &str) -> (same: bool)
    ensures
        same == (a@ == b@),
{
    let other = b.to_owned();
    *a == other
}

/// The items of an attribute that speak of parcels: none for an attribute
/// with another path, the items of the list for a `parcelable` attribute,
/// and an error where such an attribute is no list or not well-formed.
pub fn get_meta_items(attr: &Attribute) -> (r: Result<Option<&Vec<MetaItem>>, DeriveError>)
    ensures
        r == (if attr.path@ != "parcelable"@ {
            Ok(None)
        } else {
            match attr.meta {
                Meta::List(items) => Ok(Some(&items)),
                Meta::Other => Err(DeriveError::ExpectedList),
                Meta::Malformed => Err(DeriveError::MalformedAttribute),
            }
        }),
{
    if !same_text(&attr.path, "parcelable") {
        return Ok(None);
    }
    match &attr.meta {
        Meta::List(items) => Ok(Some(items)),
        Meta::Other => Err(DeriveError::ExpectedList),
        Meta::Malformed => Err(DeriveError::MalformedAttribute),
    }
}

/// What the attributes of a variant say about its discriminator.
#[verifier::loop_isolation(false)]
pub fn variant_attributes(attrs: &Vec<Attribute>) -> (r: Result<VariantAttribute, DeriveError>)
    ensures
        match attributes_say(attrs@) {
            Ok(discriminator) => r == Ok::<VariantAttribute, DeriveError>(
                VariantAttribute { discriminator },
            ),
            Err(e) => r == Err::<VariantAttribute, DeriveError>(e),
        },
{
    let mut discriminator: Option<i32> = None;
    let mut i: usize = 0;
    while i < attrs.len()
        invariant
            i <= attrs.len(),
            attributes_say(attrs@.take(i as int)) == Ok::<Option<i32>, DeriveError>(discriminator),
        decreases attrs.len() - i,
    {
        proof {
            assert(attrs@.take(i + 1).drop_last() =~= attrs@.take(i as int));
        }
        let ghost so_far = discriminator;
        match get_meta_items(&attrs[i]) {
            Err(e) => {
                proof {
                    lemma_attributes_error(attrs@, i + 1);
                }
                return Err(e);
            },
            Ok(None) => {},
            Ok(Some(items)) => {
                let mut j: usize = 0;
                while j < items.len()
                    invariant
                        j <= items.len(),
                        items_say(items@.take(j as int), so_far) == Ok::<Option<i32>, DeriveError>(
                            discriminator,
                        ),
                    decreases items.len() - j,
                {
                    proof {
                        assert(items@.take(j + 1).drop_last() =~= items@.take(j as int));
                    }
                    match &items[j] {
                        MetaItem::NameValue { name, value } => {
                            if same_text(name, "discriminator") {
                                match value {
                                    MetaValue::Int(number) => {
                                        discriminator = Some(*number);
                                    },
                                    MetaValue::Overflow => {
                                        proof {
                                            lemma_items_error(items@, so_far, j + 1);
                                            lemma_attributes_error(attrs@, i + 1);
                                        }
                                        return Err(DeriveError::DiscriminatorOverflow);
                                    },
                                    MetaValue::Other => {},
                                }
                            } else {
                                proof {
                                    lemma_items_error(items@, so_far, j + 1);
                                    lemma_attributes_error(attrs@, i + 1);
                                }
                                return Err(DeriveError::UnexpectedAttribute);
                            }
                        },
                        MetaItem::Other => {
                            proof {
                                lemma_items_error(items@, so_far, j + 1);
                                lemma_attributes_error(attrs@, i + 1);
                            }
                            return Err(DeriveError::UnexpectedAttribute);
                        },
                    }
                    j += 1;
                }
                proof {
                    assert(items@.take(items@.len() as int) =~= items@);
                }
            },
        }
        i += 1;
    }
    proof {
        assert(attrs@.take(attrs@.len() as int) =~= attrs@);
    }
    Ok(VariantAttribute { discriminator })
}

/// Once the items of an attribute are not in order, more items do not mend it.
pub proof fn lemma_items_error(items: Seq<MetaItem>, said: Option<i32>, k: int)
    requires
        0 <= k <= items.len(),
        items_say(items.take(k), said) is Err,
    ensures
        items_say(items, said) == items_say(items.take(k), said),
    decreases items.len() - k,
{
    if k < items.len() {
        assert(items.take(k + 1).drop_last() =~= items.take(k));
        lemma_items_error(items, said, k + 1);
    } else {
        assert(items.take(k) =~= items);
    }
}

/// Once the attributes of a variant are not in order, more attributes do not mend it.
pub proof fn lemma_attributes_error(attrs: Seq<Attribute>, k: int)
    requires
        0 <= k <= attrs.len(),
        attributes_say(attrs.take(k)) is Err,
    ensures
        attributes_say(attrs) == attributes_say(attrs.take(k)),
    decreases attrs.len() - k,
{
    if k < attrs.len() {
        assert(attrs.take(k + 1).drop_last() =~= attrs.take(k));
        lemma_attributes_error(attrs, k + 1);
    } else {
        assert(attrs.take(k) =~= attrs);
    }
}

/// The fields that a list of declarations makes.
pub fn fields_from_ast(fields: &Vec<FieldDecl>) -> (r: Vec<Field>)
    ensures
        r@ == fields_of(fields@),
{
    let mut list: Vec<Field> = Vec::new();
    let mut i: usize = 0;
    while i < fields.len()
        invariant
            i <= fields.len(),
            list@ =~= fields_of(fields@.take(i as int)),
        decreases fields.len() - i,
    {
        let member = match &fields[i].ident {
            Some(name) => Member::Named(name.clone()),
            None => Member::Unnamed(i),
        };
        list.push(Field { member, ty: fields[i].ty.clone() });
        i += 1;
    }
    proof {
        assert(fields@.take(fields@.len() as int) =~= fields@);
    }
    list
}

/// The layout and the fields that a field list makes.
pub fn struct_from_ast(fields: &FieldsDecl) -> (r: (Style, Vec<Field>))
    ensures
        r.0 == style_of(*fields),
        r.1@ == fields_of(declared(*fields)),
{
    match fields {
        FieldsDecl::Named(list) => (Style::Struct, fields_from_ast(list)),
        FieldsDecl::Unnamed(list) => if list.len() == 1 {
            (Style::Newtype, fields_from_ast(list))
        } else {
            (Style::Tuple, fields_from_ast(list))
        },
        FieldsDecl::Unit => {
            let none: Vec<Field> = Vec::new();
            assert(none@ =~= fields_of(Seq::empty()));
            (Style::Unit, none)
        },
    }
}

/// The variants that the declared variants make, or the error of the
/// first declaration whose attributes are not in order.
pub fn enum_from_ast(variants: &Vec<VariantDecl>) -> (r: Result<Vec<Variant>, DeriveError>)
    ensures
        match first_bad_variant(variants@) {
            Some(e) => r == Err::<Vec<Variant>, DeriveError>(e),
            None => r is Ok && variants_match(r->Ok_0@, variants@),
        },
{
    let mut list: Vec<Variant> = Vec::new();
    let mut i: usize = 0;
    while i < variants.len()
        invariant
            i <= variants.len(),
            first_bad_variant(variants@.take(i as int)) is None,
            variants_match(list@, variants@.take(i as int)),
        decreases variants.len() - i,
    {
        proof {
            assert(variants@.take(i + 1).drop_last() =~= variants@.take(i as int));
        }
        let attrs = match variant_attributes(&variants[i].attrs) {
            Ok(attrs) => attrs,
            Err(e) => {
                proof {
                    lemma_variants_error(variants@, i + 1);
                }
                return Err(e);
            },
        };
        let (style, fields) = struct_from_ast(&variants[i].fields);
        list.push(Variant { ident: variants[i].ident.clone(), attrs, style, fields });
        i += 1;
    }
    proof {
        assert(variants@.take(variants@.len() as int) =~= variants@);
    }
    Ok(list)
}

/// Once a declared variant is not in order, more variants do not mend it.
pub proof fn lemma_variants_error(decls: Seq<VariantDecl>, k: int)
    requires
        0 <= k <= decls.len(),
        first_bad_variant(decls.take(k)) is Some,
    ensures
        first_bad_variant(decls) == first_bad_variant(decls.take(k)),
    decreases decls.len() - k,
{
    if k < decls.len() {
        assert(decls.take(k + 1).drop_last() =~= decls.take(k));
        lemma_variants_error(decls, k + 1);
    } else {
        assert(decls.take(k) =~= decls);
    }
}

impl Container {
    /// The container that a declaration makes. An untagged union makes
    /// none, and neither does a variant whose attributes are not in order.
    pub fn from_ast(item: &DeriveInput) -> (r: Result<Container, DeriveError>)
        ensures
            match rejection(*item) {
                Some(e) => r == Err::<Container, DeriveError>(e),
                None => r is Ok && container_matches(r->Ok_0, *item),
            },
    {
        let data = match &item.data {
            DataDecl::Enum(variants) => match enum_from_ast(variants) {
                Ok(list) => Data::Enum(list),
                Err(e) => {
                    return Err(e);
                },
            },
            DataDecl::Struct(fields) => {
                let (style, list) = struct_from_ast(fields);
                Data::Struct(style, list)
            },
            DataDecl::Union => {
                return Err(DeriveError::UnsupportedUnion);
            },
        };
        Ok(Container { ident: item.ident.clone(), data })
    }

    /// The variants of the container: those of a tagged union, none of a record.
    pub open spec fn variants(self) -> Seq<Variant> {
        match self.data {
            Data::Enum(variants) => variants@,
            Data::Struct(_, _) => Seq::empty(),
        }
    }
}

impl Derived {
    /// The tags are those of the variants, and no two are the same.
    pub open spec fn wf(self) -> bool {
        &&& self.tags@ == tags_of(self.container.variants())
        &&& self.tags@.len() <= i32::MAX
        &&& distinct(self.tags@)
    }

    /// Write the tag of the variant at place `variant`, as an i32. The four
    /// bytes that this writes are the little-endian bytes of the
    /// discriminator that was declared for the variant, or else of its
    /// place. A place beyond the last variant is a bad enum value, and
    /// without room for the tag the write fails with an i/o error; either
    /// way the parcel is then as before.
    pub fn write_tag(&self, parcel: &mut Parcel, variant: usize) -> (r: Result<(), Error>)
        ensures
            variant < self.tags@.len() ==> wrote(
                old(parcel)@,
                final(parcel)@,
                r,
                le32(bits_of_i32(self.tags@[variant as int])),
            ),
            variant >= self.tags@.len() ==> r == Err::<(), Error>(Error::BadEnumValue) && final(parcel)@ == old(parcel)@,
            r is Ok && self.wf() ==> final(parcel)@.at(old(parcel)@.data.len()).peek(4) == le32(
                bits_of_i32(
                    match self.container.variants()[variant as int].attrs.discriminator {
                        Some(declared) => declared,
                        None => variant as i32,
                    },
                ),
            ),
    {
        if variant >= self.tags.len() {
            return Err(Error::BadEnumValue);
        }
        proof {
            lemma_put_peek(parcel@, le32(bits_of_i32(self.tags@[variant as int])));
        }
        parcel.write_i32(self.tags[variant])
    }

    /// Read a tag and tell the place of the variant that it selects; a
    /// tag that no variant has is a bad enum value, and leaves the parcel
    /// as it was.
    #[verifier::loop_isolation(false)]
    pub fn read_tag(&self, parcel: &mut Parcel) -> (r: Result<usize, Error>)
        ensures
            !old(parcel)@.has(4) ==> r == Err::<usize, Error>(Error::DeserializationError)
                && final(parcel)@ == old(parcel)@,
            old(parcel)@.has(4) ==> match place_of(self.tags@, i32_at(old(parcel)@)) {
                Some(place) => r == Ok::<usize, Error>(place as usize) && 0 <= place
                    < self.tags@.len() && self.tags@[place] == i32_at(old(parcel)@) && final(parcel)@ == old(parcel)@.skip(4),
                None => r == Err::<usize, Error>(Error::BadEnumValue) && final(parcel)@ == old(parcel)@,
            },
    {
        let before: u64 = parcel.position();
        let tag: i32 = match parcel.read_i32() {
            Ok(tag) => tag,
            Err(e) => {
                return Err(e);
            },
        };
        proof {
            lemma_place_of_found(self.tags@, tag);
        }
        let mut i: usize = 0;
        while i < self.tags.len()
            invariant
                i <= self.tags@.len(),
                place_of(self.tags@.take(i as int), tag) is None,
            decreases self.tags@.len() - i,
        {
            proof {
                assert(self.tags@.take(i + 1).drop_last() =~= self.tags@.take(i as int));
            }
            if self.tags[i] == tag {
                proof {
                    lemma_place_of_prefix(self.tags@, tag, i + 1);
                }
                return Ok(i);
            }
            i += 1;
        }
        proof {
            assert(self.tags@.take(self.tags@.len() as int) =~= self.tags@);
        }
        parcel.set_position(before);
        Err(Error::BadEnumValue)
    }
}

/// A tag that is found among the first variants is found at the same place among all.
pub proof fn lemma_place_of_prefix(tags: Seq<i32>, tag: i32, k: int)
    requires
        0 <= k <= tags.len(),
        place_of(tags.take(k), tag) is Some,
    ensures
        place_of(tags, tag) == place_of(tags.take(k), tag),
    decreases tags.len() - k,
{
    if k < tags.len() {
        assert(tags.take(k + 1).drop_last() =~= tags.take(k));
        lemma_place_of_prefix(tags, tag, k + 1);
    } else {
        assert(tags.take(k) =~= tags);
    }
}

/// The tag that the declared variant at place `index` gets: the
/// discriminator that its attributes declare, or else its place.
pub open spec fn declared_tag(decls: Seq<VariantDecl>, index: int) -> i32 {
    match attributes_say(decls[index].attrs@) {
        Ok(Some(number)) => number,
        _ => index as i32,
    }
}

/// The tags that the declared variants get, in order.
pub open spec fn declared_tags(decls: Seq<VariantDecl>) -> Seq<i32> {
    Seq::new(decls.len(), |i: int| declared_tag(decls, i))
}

/// Reading a tag that was written selects the variant it was written for:
/// among distinct tags, the tag of a variant, written to a parcel and read
/// from the place where the write began, is found at the place of that variant.
pub proof fn lemma_tag_round_trip(tags: Seq<i32>, variant: int, p: ParcelView)
    requires
        distinct(tags),
        0 <= variant < tags.len(),
    ensures
        p.put(le32(bits_of_i32(tags[variant]))).at(p.data.len()).has(4),
        place_of(tags, i32_at(p.put(le32(bits_of_i32(tags[variant]))).at(p.data.len())))
            == Some(variant),
{
    lemma_put_peek(p, le32(bits_of_i32(tags[variant])));
    lemma_le_round_trip(0, 0, 0, tags[variant]);
    lemma_place_of_tag(tags, variant);
}

/// Why nothing can be derived from the declaration, if nothing can: it
/// makes no container, or it has more variants than an i32 can count, or
/// two of its variants get the same tag.
pub open spec fn refusal(input: DeriveInput) -> Option<DeriveError> {
    match rejection(input) {
        Some(e) => Some(e),
        None => match input.data {
            DataDecl::Enum(decls) => if decls@.len() > i32::MAX {
                Some(DeriveError::TooManyVariants)
            } else if !distinct(declared_tags(decls@)) {
                Some(DeriveError::DuplicateDiscriminator)
            } else {
                None
            },
            _ => None,
        },
    }
}

/// Derive the description that serializers are generated from: the
/// container of the declaration, and the tag of each variant.
#[verifier::loop_isolation(false)]
pub fn parcelable_derive(input: &DeriveInput) -> (r: Result<Derived, DeriveError>)
    ensures
        match refusal(*input) {
            Some(e) => r == Err::<Derived, DeriveError>(e),
            None => r is Ok && container_matches(r->Ok_0.container, *input) && r->Ok_0.wf(),
        },
{
    let container = match Container::from_ast(input) {
        Ok(container) => container,
        Err(e) => {
            return Err(e);
        },
    };
    let mut tags: Vec<i32> = Vec::new();
    match &container.data {
        Data::Enum(variants) => {
            let ghost decls = input.data->Enum_0@;
            proof {
                assert(tags_of(variants@) =~= declared_tags(decls));
            }
            if variants.len() > i32::MAX as usize {
                return Err(DeriveError::TooManyVariants);
            }
            let mut i: usize = 0;
            while i < variants.len()
                invariant
                    i <= variants.len() <= i32::MAX,
                    tags@ =~= tags_of(variants@).take(i as int),
                    distinct(tags@),
                decreases variants.len() - i,
            {
                let tag: i32 = match variants[i].attrs.discriminator {
                    Some(number) => number,
                    None => i as i32,
                };
                let mut j: usize = 0;
                while j < tags.len()
                    invariant
                        j <= tags.len(),
                        forall|k: int| 0 <= k < j ==> tags@[k] != tag,
                    decreases tags.len() - j,
                {
                    if tags[j] == tag {
                        proof {
                            assert(declared_tags(decls)[j as int] == declared_tags(decls)[i as int]);
                        }
                        return Err(DeriveError::DuplicateDiscriminator);
                    }
                    j += 1;
                }
                tags.push(tag);
                i += 1;
            }
            proof {
                assert(tags_of(variants@).take(variants@.len() as int) =~= tags_of(variants@));
            }
        },
        Data::Struct(_, _) => {
            proof {
                assert(tags@ =~= tags_of(container.variants()));
            }
        },
    }
    Ok(Derived { container, tags })
}

} // verus!
