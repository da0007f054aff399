use binder_rust::derive::{
    Attribute, DataDecl, DeriveInput, FieldDecl, FieldsDecl, Meta, MetaItem, MetaValue, VariantDecl,
};
use binder_rust::parcelable_derive;
use binder_rust::render::render;

fn checksum(text: &str) -> u32 {
    text.bytes().fold(0u32, |h, b| h.wrapping_mul(31).wrapping_add(b as u32))
}

fn field(name: Option<&str>, ty: &str) -> FieldDecl {
    FieldDecl { ident: name.map(|n| n.to_string()), ty: ty.to_string() }
}

fn tagged(value: i32) -> Vec<Attribute> {
    vec![Attribute {
        path: "parcelable".to_string(),
        meta: Meta::List(vec![MetaItem::NameValue {
            name: "discriminator".to_string(),
            value: MetaValue::Int(value),
        }]),
    }]
}

fn sample_union() -> DeriveInput {
    DeriveInput {
        ident: "Sample".to_string(),
        data: DataDecl::Enum(vec![
            VariantDecl { ident: "A".to_string(), attrs: tagged(0), fields: FieldsDecl::Unit },
            VariantDecl {
                ident: "B".to_string(),
                attrs: tagged(5),
                fields: FieldsDecl::Unnamed(vec![field(None, "u32")]),
            },
            VariantDecl {
                ident: "C".to_string(),
                attrs: vec![],
                fields: FieldsDecl::Named(vec![field(Some("x"), "u8"), field(Some("y"), "String")]),
            },
            VariantDecl {
                ident: "D".to_string(),
                attrs: tagged(-7),
                fields: FieldsDecl::Unnamed(vec![
                    field(None, "u8"),
                    field(None, "i64"),
                    field(None, "Vec<u8>"),
                ]),
            },
            VariantDecl {
                ident: "E".to_string(),
                attrs: vec![],
                fields: FieldsDecl::Unnamed(vec![]),
            },
        ]),
    }
}

#[test]
fn record_with_one_field_is_rendered_as_its_field() {
    let input = DeriveInput {
        ident: "Single".to_string(),
        data: DataDecl::Struct(FieldsDecl::Named(vec![field(Some("a"), "i32")])),
    };
    let text = render(&parcelable_derive(&input).unwrap());
    assert!(text.starts_with("impl ::binder_rust::Parcelable for Single {\n"));
    assert!(text.contains("    type Model = <i32 as ::binder_rust::Parcelable>::Model;\n"));
    assert!(text.contains("        self.a.model()\n"));
    assert!(text.contains("        match <i32 as ::binder_rust::Parcelable>::deserialize(parcel) {\n"));
    assert!(text.contains("            Ok(a) => Ok(Single { a: a, }),\n"));
    assert!(text.ends_with("        ::binder_rust::parcelable::Sends::send(&&self.a, parcel)\n    }\n}\n"));
    assert_eq!(text.len(), 1226);
    assert_eq!(checksum(&text), 358468268);
}

#[test]
fn record_fields_travel_nested_to_the_right() {
    let input = DeriveInput {
        ident: "Record".to_string(),
        data: DataDecl::Struct(FieldsDecl::Named(vec![
            field(Some("a"), "i32"),
            field(Some("b"), "String"),
            field(Some("c"), "Option<u8>"),
        ])),
    };
    let text = render(&parcelable_derive(&input).unwrap());
    assert!(text.contains(
        "type Model = <(i32, (String, Option<u8>)) as ::binder_rust::Parcelable>::Model;"
    ));
    assert!(text.contains("(self.a.model(), (self.b.model(), self.c.model()))"));
    assert!(text.contains("Ok((a, (b, c))) => Ok(Record { a: a, b: b, c: c, }),"));
    assert!(text.contains("Sends::send(&(&self.a, (&self.b, &self.c)), parcel)"));
}

#[test]
fn records_without_names_and_without_fields() {
    let pair = DeriveInput {
        ident: "Pair".to_string(),
        data: DataDecl::Struct(FieldsDecl::Unnamed(vec![field(None, "u16"), field(None, "bool")])),
    };
    let text = render(&parcelable_derive(&pair).unwrap());
    assert!(text.contains("(self.0.model(), self.1.model())"));
    assert!(text.contains("Ok((_t_0, _t_1)) => Ok(Pair(_t_0, _t_1, )),"));
    assert!(text.contains("Sends::send(&(&self.0, &self.1), parcel)"));

    let wrapper = DeriveInput {
        ident: "Wrapper".to_string(),
        data: DataDecl::Struct(FieldsDecl::Unnamed(vec![field(None, "u16")])),
    };
    let text = render(&parcelable_derive(&wrapper).unwrap());
    assert!(text.contains("type Model = <u16 as ::binder_rust::Parcelable>::Model;"));
    assert!(text.contains("Ok(_t_0) => Ok(Wrapper(_t_0, )),"));
    assert!(text.contains("Sends::send(&&self.0, parcel)"));

    let nothing = DeriveInput { ident: "Nothing".to_string(), data: DataDecl::Struct(FieldsDecl::Unit) };
    let text = render(&parcelable_derive(&nothing).unwrap());
    assert!(text.contains("type Model = <() as ::binder_rust::Parcelable>::Model;"));
    assert!(text.contains("Ok(()) => Ok(Nothing),"));
    assert!(text.contains("Sends::send(&&(), parcel)"));
}

#[test]
fn union_is_rendered_with_its_tags() {
    let text = render(&parcelable_derive(&sample_union()).unwrap());
    assert!(text.starts_with("pub enum SampleModel {\n    A,\n    B(<u32 as ::binder_rust::Parcelable>::Model, ),\n"));
    assert!(text.contains("    C { x: <u8 as ::binder_rust::Parcelable>::Model, y: <String as ::binder_rust::Parcelable>::Model, },\n"));
    assert!(text.contains("impl ::binder_rust::Parcelable for Sample {\n    type Model = SampleModel;\n"));
    assert!(text.contains("Sample::C { x: x, y: y, } => SampleModel::C { x: x.model(), y: y.model(), },"));
    assert!(text.contains("if ::binder_rust::parcel::i32_at(p) == (5 as i32) {"));
    assert!(text.contains("if tag == (-7 as i32) {"));
    assert!(text.contains("Ok((_t_0, (_t_1, _t_2))) => Ok(Sample::D(_t_0, _t_1, _t_2, )),"));
    assert!(text.contains(
        "Sends::send(&(::binder_rust::parcelable::Tag((2 as i32)), (x, y)), parcel),"
    ));
    assert!(text.contains(
        "Sends::send(&(::binder_rust::parcelable::Tag((0 as i32)), &()), parcel),"
    ));
    assert!(text.contains("Sends::send(&(::binder_rust::parcelable::Tag((4 as i32)), &()), parcel),"));
    assert!(text.contains("Err(::binder_rust::Error::BadEnumValue)"));
    assert_eq!(text.len(), 9496);
    assert_eq!(checksum(&text), 1922806891);
}

#[test]
fn rendered_text_is_tokens() {
    // every opening bracket has its partner
    for input in [sample_union()] {
        let text = render(&parcelable_derive(&input).unwrap());
        let mut depth: Vec<char> = Vec::new();
        for c in text.chars() {
            match c {
                '(' | '{' | '[' => depth.push(c),
                ')' => assert_eq!(depth.pop(), Some('(')),
                '}' => assert_eq!(depth.pop(), Some('{')),
                ']' => assert_eq!(depth.pop(), Some('[')),
                _ => {}
            }
        }
        assert!(depth.is_empty());
    }
}
