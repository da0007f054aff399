use binder_rust::derive::{
    enum_from_ast, fields_from_ast, get_meta_items, struct_from_ast, variant_attributes,
    Attribute, Data, DataDecl, DeriveError, DeriveInput, FieldDecl, FieldsDecl, Member, Meta,
    MetaItem, MetaValue, Style, VariantAttribute, VariantDecl,
};
use binder_rust::{parcelable_derive, Container, Error, Parcel, Parcelable};

fn named(name: &str, ty: &str) -> FieldDecl {
    FieldDecl { ident: Some(name.to_string()), ty: ty.to_string() }
}

fn unnamed(ty: &str) -> FieldDecl {
    FieldDecl { ident: None, ty: ty.to_string() }
}

fn discriminator(value: i32) -> Attribute {
    Attribute {
        path: "parcelable".to_string(),
        meta: Meta::List(vec![MetaItem::NameValue {
            name: "discriminator".to_string(),
            value: MetaValue::Int(value),
        }]),
    }
}

fn variant(name: &str, attrs: Vec<Attribute>, fields: FieldsDecl) -> VariantDecl {
    VariantDecl { ident: name.to_string(), attrs, fields }
}

fn union_a_b() -> DeriveInput {
    DeriveInput {
        ident: "Sample".to_string(),
        data: DataDecl::Enum(vec![
            variant("A", vec![discriminator(0)], FieldsDecl::Unit),
            variant("B", vec![discriminator(5)], FieldsDecl::Unnamed(vec![unnamed("u32")])),
        ]),
    }
}

#[test]
fn tagged_union_with_declared_discriminator() {
    let derived = parcelable_derive(&union_a_b()).unwrap();
    assert_eq!(derived.tags, vec![0, 5]);
    // B(0x11)
    let mut parcel = Parcel::empty();
    derived.write_tag(&mut parcel, 1).unwrap();
    0x11u32.serialize(&mut parcel).unwrap();
    assert_eq!(parcel.to_slice(), &[0x05, 0x00, 0x00, 0x00, 0x11, 0x00, 0x00, 0x00]);
    parcel.set_position(0);
    assert_eq!(derived.read_tag(&mut parcel), Ok(1));
    assert_eq!(u32::deserialize(&mut parcel), Ok(0x11));
    // A
    let mut unit = Parcel::empty();
    derived.write_tag(&mut unit, 0).unwrap();
    assert_eq!(unit.to_slice(), &[0, 0, 0, 0]);
    unit.set_position(0);
    assert_eq!(derived.read_tag(&mut unit), Ok(0));
}

#[test]
fn tags_without_declaration_are_the_places() {
    let input = DeriveInput {
        ident: "Plain".to_string(),
        data: DataDecl::Enum(vec![
            variant("First", vec![], FieldsDecl::Unit),
            variant("Second", vec![discriminator(-7)], FieldsDecl::Unit),
            variant("Third", vec![], FieldsDecl::Named(vec![named("x", "i32")])),
        ]),
    };
    let derived = parcelable_derive(&input).unwrap();
    assert_eq!(derived.tags, vec![0, -7, 2]);
    let mut parcel = Parcel::empty();
    derived.write_tag(&mut parcel, 2).unwrap();
    derived.write_tag(&mut parcel, 1).unwrap();
    assert_eq!(parcel.to_slice(), &[2, 0, 0, 0, 0xF9, 0xFF, 0xFF, 0xFF]);
    parcel.set_position(0);
    assert_eq!(derived.read_tag(&mut parcel), Ok(2));
    assert_eq!(derived.read_tag(&mut parcel), Ok(1));
}

#[test]
fn unknown_tag_is_a_bad_enum_value() {
    let derived = parcelable_derive(&union_a_b()).unwrap();
    let mut parcel = Parcel::from_slice(&[1, 0, 0, 0]);
    assert_eq!(derived.read_tag(&mut parcel), Err(Error::BadEnumValue));
    assert_eq!(parcel.position(), 0);
    let mut short = Parcel::from_slice(&[5, 0]);
    assert_eq!(derived.read_tag(&mut short), Err(Error::DeserializationError));
    let mut out = Parcel::empty();
    assert_eq!(derived.write_tag(&mut out, 2), Err(Error::BadEnumValue));
    assert!(out.is_empty());
}

#[test]
fn colliding_discriminators_are_refused() {
    let input = DeriveInput {
        ident: "Clash".to_string(),
        data: DataDecl::Enum(vec![
            variant("A", vec![discriminator(1)], FieldsDecl::Unit),
            variant("B", vec![], FieldsDecl::Unit),
        ]),
    };
    assert_eq!(parcelable_derive(&input).map(|d| d.tags), Err(DeriveError::DuplicateDiscriminator));
    let declared_twice = DeriveInput {
        ident: "Clash".to_string(),
        data: DataDecl::Enum(vec![
            variant("A", vec![discriminator(9)], FieldsDecl::Unit),
            variant("B", vec![discriminator(9)], FieldsDecl::Unit),
        ]),
    };
    assert_eq!(
        parcelable_derive(&declared_twice).map(|d| d.tags),
        Err(DeriveError::DuplicateDiscriminator)
    );
}

#[test]
fn untagged_unions_are_refused() {
    let input = DeriveInput { ident: "U".to_string(), data: DataDecl::Union };
    assert_eq!(Container::from_ast(&input).map(|c| c.ident), Err(DeriveError::UnsupportedUnion));
    assert_eq!(parcelable_derive(&input).map(|d| d.tags), Err(DeriveError::UnsupportedUnion));
}

#[test]
fn styles_of_field_lists() {
    let (style, fields) = struct_from_ast(&FieldsDecl::Named(vec![named("a", "u8"), named("b", "String")]));
    assert_eq!(style, Style::Struct);
    assert_eq!(fields.len(), 2);
    assert!(matches!(&fields[0].member, Member::Named(n) if n == "a"));
    assert!(matches!(&fields[1].member, Member::Named(n) if n == "b"));
    assert_eq!(fields[1].ty, "String");

    let (style, fields) = struct_from_ast(&FieldsDecl::Unnamed(vec![unnamed("u8")]));
    assert_eq!(style, Style::Newtype);
    assert!(matches!(fields[0].member, Member::Unnamed(0)));

    let (style, fields) = struct_from_ast(&FieldsDecl::Unnamed(vec![unnamed("u8"), unnamed("i64")]));
    assert_eq!(style, Style::Tuple);
    assert!(matches!(fields[0].member, Member::Unnamed(0)));
    assert!(matches!(fields[1].member, Member::Unnamed(1)));
    assert_eq!(fields[1].ty, "i64");

    let (style, fields) = struct_from_ast(&FieldsDecl::Unnamed(vec![]));
    assert_eq!(style, Style::Tuple);
    assert!(fields.is_empty());

    let (style, fields) = struct_from_ast(&FieldsDecl::Unit);
    assert_eq!(style, Style::Unit);
    assert!(fields.is_empty());

    assert_eq!(fields_from_ast(&vec![named("x", "u8"), unnamed("u16")]).len(), 2);
}

#[test]
fn container_of_a_record() {
    let input = DeriveInput {
        ident: "Point".to_string(),
        data: DataDecl::Struct(FieldsDecl::Named(vec![named("x", "i32"), named("y", "i32")])),
    };
    let container = Container::from_ast(&input).unwrap();
    assert_eq!(container.ident, "Point");
    match &container.data {
        Data::Struct(style, fields) => {
            assert_eq!(*style, Style::Struct);
            assert_eq!(fields.len(), 2);
        }
        Data::Enum(_) => panic!("a record is no union"),
    }
    let derived = parcelable_derive(&input).unwrap();
    assert!(derived.tags.is_empty());
}

#[test]
fn container_of_a_union() {
    let container = Container::from_ast(&union_a_b()).unwrap();
    assert_eq!(container.ident, "Sample");
    match &container.data {
        Data::Enum(variants) => {
            assert_eq!(variants.len(), 2);
            assert_eq!(variants[0]. ident, "A");
            assert_eq!(variants[0].style, Style::Unit);
            assert_eq!(variants[0].attrs, VariantAttribute { discriminator: Some(0) });
            assert_eq!(variants[1].ident, "B");
            assert_eq!(variants[1].style, Style::Newtype);
            assert_eq!(variants[1].attrs.discriminator, Some(5));
            assert_eq!(variants[1].fields.len(), 1);
        }
        Data::Struct(_, _) => panic!("a union is no record"),
    }
    let variants = enum_from_ast(&vec![variant("Only", vec![], FieldsDecl::Unit)]).unwrap();
    assert_eq!(variants[0].attrs.discriminator, None);
}

#[test]
fn attributes_of_variants() {
    let other = Attribute { path: "doc".to_string(), meta: Meta::Other };
    assert_eq!(variant_attributes(&vec![]), Ok(VariantAttribute { discriminator: None }));
    assert_eq!(
        variant_attributes(&vec![other, discriminator(3), discriminator(4)]),
        Ok(VariantAttribute { discriminator: Some(4) })
    );
    let not_a_number = Attribute {
        path: "parcelable".to_string(),
        meta: Meta::List(vec![MetaItem::NameValue {
            name: "discriminator".to_string(),
            value: MetaValue::Other,
        }]),
    };
    assert_eq!(
        variant_attributes(&vec![discriminator(3), not_a_number]),
        Ok(VariantAttribute { discriminator: Some(3) })
    );
    let no_list = Attribute { path: "parcelable".to_string(), meta: Meta::Other };
    assert_eq!(variant_attributes(&vec![no_list]), Err(DeriveError::ExpectedList));
    let unexpected = Attribute {
        path: "parcelable".to_string(),
        meta: Meta::List(vec![MetaItem::NameValue {
            name: "rename".to_string(),
            value: MetaValue::Int(1),
        }]),
    };
    assert_eq!(variant_attributes(&vec![unexpected]), Err(DeriveError::UnexpectedAttribute));
    let bare = Attribute { path: "parcelable".to_string(), meta: Meta::List(vec![MetaItem::Other]) };
    assert_eq!(variant_attributes(&vec![bare]), Err(DeriveError::UnexpectedAttribute));
    let malformed = Attribute { path: "parcelable".to_string(), meta: Meta::Malformed };
    assert_eq!(variant_attributes(&vec![malformed]), Err(DeriveError::MalformedAttribute));
    let elsewhere = Attribute { path: "other".to_string(), meta: Meta::Malformed };
    assert_eq!(variant_attributes(&vec![elsewhere]), Ok(VariantAttribute { discriminator: None }));
    let too_large = Attribute {
        path: "parcelable".to_string(),
        meta: Meta::List(vec![MetaItem::NameValue {
            name: "discriminator".to_string(),
            value: MetaValue::Overflow,
        }]),
    };
    assert_eq!(variant_attributes(&vec![too_large]), Err(DeriveError::DiscriminatorOverflow));
}

#[test]
fn meta_items_of_attributes() {
    let other = Attribute { path: "doc".to_string(), meta: Meta::List(vec![MetaItem::Other]) };
    assert!(matches!(get_meta_items(&other), Ok(None)));
    let ours = discriminator(1);
    assert!(matches!(get_meta_items(&ours), Ok(Some(items)) if items.len() == 1));
    let no_list = Attribute { path: "parcelable".to_string(), meta: Meta::Other };
    assert!(matches!(get_meta_items(&no_list), Err(DeriveError::ExpectedList)));
}

#[test]
fn a_variant_with_bad_attributes_makes_no_container() {
    let input = DeriveInput {
        ident: "Bad".to_string(),
        data: DataDecl::Enum(vec![
            variant("A", vec![], FieldsDecl::Unit),
            variant(
                "B",
                vec![Attribute { path: "parcelable".to_string(), meta: Meta::Other }],
                FieldsDecl::Unit,
            ),
        ]),
    };
    assert_eq!(Container::from_ast(&input).map(|c| c.ident), Err(DeriveError::ExpectedList));
    assert_eq!(parcelable_derive(&input).map(|d| d.tags), Err(DeriveError::ExpectedList));
}
