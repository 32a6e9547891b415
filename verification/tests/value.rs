use serde_intermediate::Intermediate;

#[test]
fn builders_append_where_they_fit() {
    let seq = Intermediate::seq().item(1.into()).item(2.into());
    assert_eq!(
        seq,
        Intermediate::Sequence(vec![Intermediate::I32(1), Intermediate::I32(2)])
    );
    assert_eq!(Intermediate::Unit.item(1.into()), Intermediate::Unit);
    assert_eq!(
        Intermediate::map().field("a", 1.into()),
        Intermediate::Mapping(vec![])
    );
    assert_eq!(
        Intermediate::struct_type().property(1.into(), 2.into()),
        Intermediate::Struct(vec![])
    );
    assert_eq!(
        Intermediate::tuple_variant("T").item(true.into()),
        Intermediate::TupleVariant("T".to_owned(), vec![Intermediate::Bool(true)])
    );
    assert_eq!(
        Intermediate::struct_variant("S").field("a", 'x'.into()),
        Intermediate::StructVariant(
            "S".to_owned(),
            vec![("a".to_owned(), Intermediate::Char('x'))]
        )
    );
    assert_eq!(Intermediate::unit_struct(), Intermediate::UnitStruct);
    assert_eq!(
        Intermediate::unit_variant("U"),
        Intermediate::UnitVariant("U".to_owned())
    );
    assert_eq!(
        Intermediate::newtype_struct(1u8.into()),
        Intermediate::NewTypeStruct(Box::new(Intermediate::U8(1)))
    );
    assert_eq!(Intermediate::from(7usize), Intermediate::U64(7));
    assert_eq!(Intermediate::from(-7isize), Intermediate::I64(-7));
    assert_eq!(Intermediate::from(()), Intermediate::Unit);
    assert_eq!(
        Intermediate::from(Some(Intermediate::Unit)),
        Intermediate::Option(Some(Box::new(Intermediate::Unit)))
    );
    assert_eq!(
        Intermediate::from(Err::<Intermediate, Intermediate>(Intermediate::Unit)),
        Intermediate::newtype_variant("Err", Intermediate::Unit)
    );
}

#[test]
fn projections_give_the_payload_of_their_case() {
    let text = Intermediate::from("hi");
    assert_eq!(text.as_str(), Some("hi"));
    assert_eq!(text.as_bool(), None);
    assert_eq!(Intermediate::Unit.as_unit(), Some(()));
    assert_eq!(text.as_unit(), None);
    assert_eq!(Intermediate::I16(-2).as_i16(), Some(-2));
    assert_eq!(Intermediate::I16(-2).as_i32(), None);
    assert_eq!(Intermediate::F64(1.5f64.to_bits()).as_f64().map(f64::from_bits), Some(1.5));
    assert_eq!(Intermediate::Bytes(vec![1]).as_bytes(), Some(&[1u8][..]));
    let tuple = Intermediate::tuple().item(1.into());
    assert_eq!(tuple.as_tuple().unwrap().len(), 1);
    assert!(tuple.as_seq().is_none());
    assert!(tuple.as_tuple_struct().is_none());
    let variant = Intermediate::newtype_variant("N", 1.into());
    assert_eq!(variant.as_new_type_variant(), Some(("N", &Intermediate::I32(1))));
    assert!(variant.as_new_type_struct().is_none());
    let option = Intermediate::Option(Some(Box::new(Intermediate::Unit)));
    assert_eq!(option.as_option(), Some(&Intermediate::Unit));
    assert_eq!(Intermediate::Option(None).as_option(), None);
    let fields = Intermediate::struct_variant("S").field("a", 1.into());
    let (name, content) = fields.as_struct_variant().unwrap();
    assert_eq!(name, "S");
    assert_eq!(content.len(), 1);
    assert!(fields.as_struct().is_none());
    assert!(fields.as_map().is_none());
    assert_eq!(Intermediate::unit_variant("U").as_unit_variant(), Some("U"));
    assert!(Intermediate::tuple_variant("T").as_tuple_variant().is_some());
}

#[test]
fn equality_is_structural_and_ordered() {
    let a = Intermediate::map()
        .property(1.into(), 2.into())
        .property(3.into(), 4.into());
    let b = Intermediate::map()
        .property(3.into(), 4.into())
        .property(1.into(), 2.into());
    assert_ne!(a, b);
    assert_eq!(a, a.clone());
    assert_ne!(
        Intermediate::Sequence(vec![]),
        Intermediate::Tuple(vec![])
    );
    assert_ne!(Intermediate::U8(1), Intermediate::U16(1));
    assert_ne!(
        Intermediate::F32(0.0f32.to_bits()),
        Intermediate::F32((-0.0f32).to_bits())
    );
}
