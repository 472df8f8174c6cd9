use voidmc::attrs::{
    is_vec_u8, parse_field_attrs, parse_repr_type, parse_type_attrs, parse_variant_attrs, Attr,
    AttrError, FieldAttrs, GenericArg, Meta, MetaValue, PathSegment, SegmentArgs, TypeAttrs,
    TypeExpr, VariantAttrs,
};

fn bare(path: &str) -> Meta {
    Meta {
        path: path.to_string(),
        value: MetaValue::Bare,
    }
}

fn assigned(path: &str, text: &str, int_digits: Option<&str>) -> Meta {
    Meta {
        path: path.to_string(),
        value: MetaValue::Assigned {
            text: text.to_string(),
            int_digits: int_digits.map(|d| d.to_string()),
        },
    }
}

fn attr(path: &str, items: Vec<Meta>) -> Attr {
    Attr {
        path: path.to_string(),
        items: Some(items),
    }
}

#[test]
fn no_attributes_read_as_the_defaults() {
    assert_eq!(parse_type_attrs(&[]), Ok(TypeAttrs::default()));
    assert_eq!(parse_variant_attrs(&[]), Ok(VariantAttrs::default()));
    assert_eq!(parse_field_attrs(&[]), Ok(FieldAttrs::default()));
    assert_eq!(parse_repr_type(&[]), Ok(None));
}

#[test]
fn type_flags_are_read_from_codec_attributes_only() {
    let attrs = vec![
        attr("derive", vec![bare("Debug")]),
        attr("codec", vec![bare("tagged")]),
        attr("codec", vec![bare("varint32")]),
    ];
    assert_eq!(
        parse_type_attrs(&attrs),
        Ok(TypeAttrs {
            tagged: true,
            varint32: true,
            varint64: false
        })
    );
}

#[test]
fn an_unknown_type_item_is_refused() {
    let attrs = vec![attr("codec", vec![bare("tagged"), bare("json")])];
    assert_eq!(parse_type_attrs(&attrs), Err(AttrError::UnknownType));
    assert_eq!(
        AttrError::UnknownType.message(),
        "unknown type codec attribute"
    );
}

#[test]
fn a_flag_with_a_value_is_refused() {
    let attrs = vec![attr("codec", vec![assigned("varint64", "1", Some("1"))])];
    assert_eq!(parse_type_attrs(&attrs), Err(AttrError::ExpectedComma));
}

#[test]
fn a_codec_attribute_without_a_list_is_refused() {
    let attrs = vec![Attr {
        path: "codec".to_string(),
        items: None,
    }];
    assert_eq!(parse_type_attrs(&attrs), Err(AttrError::Malformed));
    let other = vec![Attr {
        path: "doc".to_string(),
        items: None,
    }];
    assert_eq!(parse_type_attrs(&other), Ok(TypeAttrs::default()));
}

#[test]
fn packet_ids_are_bytes() {
    let ok = vec![attr("codec", vec![assigned("packet_id", "0x2a", Some("42"))])];
    assert_eq!(
        parse_variant_attrs(&ok),
        Ok(VariantAttrs {
            packet_id: Some(42)
        })
    );
    let too_big = vec![attr("codec", vec![assigned("packet_id", "256", Some("256"))])];
    assert_eq!(parse_variant_attrs(&too_big), Err(AttrError::BadInteger));
    let not_int = vec![attr("codec", vec![assigned("packet_id", "ID", None)])];
    assert_eq!(parse_variant_attrs(&not_int), Err(AttrError::BadInteger));
    let missing = vec![attr("codec", vec![bare("packet_id")])];
    assert_eq!(parse_variant_attrs(&missing), Err(AttrError::ExpectedEq));
    let unknown = vec![attr("codec", vec![bare("tagged")])];
    assert_eq!(parse_variant_attrs(&unknown), Err(AttrError::UnknownVariant));
}

#[test]
fn the_last_packet_id_wins() {
    let attrs = vec![attr(
        "codec",
        vec![
            assigned("packet_id", "1", Some("1")),
            assigned("packet_id", "7", Some("7")),
        ],
    )];
    assert_eq!(
        parse_variant_attrs(&attrs),
        Ok(VariantAttrs { packet_id: Some(7) })
    );
}

#[test]
fn field_attributes_collect_flags_and_the_length_expression() {
    let attrs = vec![
        attr("codec", vec![bare("varint32"), bare("json")]),
        attr("codec", vec![assigned("fixed_length", "base * multiplier", None)]),
        attr("codec", vec![bare("remaining")]),
    ];
    assert_eq!(
        parse_field_attrs(&attrs),
        Ok(FieldAttrs {
            varint32: true,
            varint64: false,
            json: true,
            fixed_length: Some("base * multiplier".to_string()),
            remaining: true,
        })
    );
    let missing = vec![attr("codec", vec![bare("fixed_length")])];
    assert_eq!(parse_field_attrs(&missing), Err(AttrError::ExpectedEq));
    let unknown = vec![attr("codec", vec![bare("tagged")])];
    assert_eq!(parse_field_attrs(&unknown), Err(AttrError::UnknownField));
}

#[test]
fn the_first_repr_attribute_names_the_discriminant() {
    let attrs = vec![
        attr("derive", vec![bare("Clone")]),
        attr("repr", vec![bare("i32")]),
        attr("repr", vec![bare("C")]),
    ];
    assert_eq!(parse_repr_type(&attrs), Ok(Some("i32".to_string())));
    let c = vec![attr("repr", vec![bare("C")])];
    assert_eq!(parse_repr_type(&c), Err(AttrError::UnsupportedRepr));
    assert_eq!(
        AttrError::UnsupportedRepr.message(),
        "unsupported repr type for codec"
    );
    let two = vec![attr("repr", vec![bare("u8"), bare("u16")])];
    assert_eq!(parse_repr_type(&two), Ok(Some("u16".to_string())));
}

fn ty(name: &str, args: SegmentArgs) -> TypeExpr {
    TypeExpr::Path(vec![PathSegment {
        ident: name.to_string(),
        args,
    }])
}

#[test]
fn only_a_plain_vec_of_u8_counts_as_bytes() {
    let bytes = ty(
        "Vec",
        SegmentArgs::Angle(vec![GenericArg::Type(ty("u8", SegmentArgs::Plain))]),
    );
    assert!(is_vec_u8(&bytes));
    let shorts = ty(
        "Vec",
        SegmentArgs::Angle(vec![GenericArg::Type(ty("u16", SegmentArgs::Plain))]),
    );
    assert!(!is_vec_u8(&shorts));
    let qualified = TypeExpr::Path(vec![
        PathSegment {
            ident: "std".to_string(),
            args: SegmentArgs::Plain,
        },
        PathSegment {
            ident: "Vec".to_string(),
            args: SegmentArgs::Angle(vec![GenericArg::Type(ty("u8", SegmentArgs::Plain))]),
        },
    ]);
    assert!(!is_vec_u8(&qualified));
    let two_args = ty(
        "Vec",
        SegmentArgs::Angle(vec![
            GenericArg::Type(ty("u8", SegmentArgs::Plain)),
            GenericArg::Other,
        ]),
    );
    assert!(!is_vec_u8(&two_args));
    assert!(!is_vec_u8(&ty("Vec", SegmentArgs::Plain)));
    assert!(!is_vec_u8(&TypeExpr::Other));
}

#[test]
fn vari32_is_read_as_varint32() {
    let attrs = vec![attr("codec", vec![bare("vari32")])];
    assert_eq!(
        parse_field_attrs(&attrs),
        Ok(FieldAttrs {
            varint32: true,
            ..FieldAttrs::default()
        })
    );
}
