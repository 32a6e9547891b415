use serde_intermediate::schema::{
    Schema, SchemaId, SchemaIdContainer, SchemaIdTree, SchemaIntermediate, SchemaPackage,
    SchemaType, SchemaTypeArrayOrSlice, SchemaTypeEnum, SchemaTypeEnumVariant, SchemaTypeInstance,
    SchemaTypeStruct, SchemaTypeTuple,
};

fn path(segments: &[&str], args: Vec<SchemaIdTree>) -> SchemaIdTree {
    SchemaIdTree::Path {
        path: segments.iter().map(|s| (*s).to_owned()).collect(),
        args,
    }
}

fn named(name: &str) -> SchemaIdTree {
    path(&[name], vec![])
}

fn local(name: &str) -> SchemaIdTree {
    path(&["schema", name], vec![])
}

fn instance(tree: SchemaIdTree) -> SchemaTypeInstance {
    SchemaTypeInstance::new(SchemaIdContainer::new_tree(tree))
}

fn id_of(tree: SchemaIdTree, prefer_tree: bool) -> SchemaIdContainer {
    if prefer_tree {
        SchemaIdContainer::new_tree(tree)
    } else {
        SchemaIdContainer::new_id(SchemaIdContainer::new_tree(tree).into_id())
    }
}

struct UnitStruct;
struct NewTypeStruct;
struct TupleStruct;
struct Enum;
struct Struct;

impl SchemaIntermediate for UnitStruct {
    fn schema(package: &mut SchemaPackage) -> SchemaIdContainer {
        let id = id_of(local("UnitStruct"), package.prefer_tree_id);
        let content = SchemaTypeStruct::default();
        package.with(
            id.clone(),
            Schema::new(SchemaType::new_struct(content)).description("Unit struct."),
        );
        id
    }
}

impl SchemaIntermediate for NewTypeStruct {
    fn schema(package: &mut SchemaPackage) -> SchemaIdContainer {
        let id = id_of(local("NewTypeStruct"), package.prefer_tree_id);
        let mut content = SchemaTypeTuple::default();
        content = content.item(
            SchemaTypeInstance::new(id_of(named("bool"), package.prefer_tree_id))
                .description("Bool value."),
        );
        package.with(
            id.clone(),
            Schema::new(SchemaType::new_tuple_struct(content)).description("New type struct."),
        );
        id
    }
}

impl SchemaIntermediate for TupleStruct {
    fn schema(package: &mut SchemaPackage) -> SchemaIdContainer {
        let id = id_of(local("TupleStruct"), package.prefer_tree_id);
        let mut content = SchemaTypeTuple::default();
        content = content.item(SchemaTypeInstance::new(id_of(
            named("bool"),
            package.prefer_tree_id,
        )));
        content = content.item(SchemaTypeInstance::new(id_of(
            named("usize"),
            package.prefer_tree_id,
        )));
        package.with(
            id.clone(),
            Schema::new(SchemaType::new_tuple_struct(content)).description("Tuple struct."),
        );
        id
    }
}

impl SchemaIntermediate for Enum {
    fn schema(package: &mut SchemaPackage) -> SchemaIdContainer {
        let prefer = package.prefer_tree_id;
        let id = id_of(local("Enum"), prefer);
        let mut content = SchemaTypeEnum::default();
        content = content.variant("Unit", SchemaTypeEnumVariant::Empty);
        let unit = UnitStruct::schema(package);
        content = content.variant(
            "NewType",
            SchemaTypeEnumVariant::Tuple(
                SchemaTypeTuple::default().item(SchemaTypeInstance::new(unit)),
            ),
        );
        content = content.variant(
            "Tuple",
            SchemaTypeEnumVariant::Tuple(
                SchemaTypeTuple::default()
                    .item(SchemaTypeInstance::new(id_of(named("bool"), prefer)))
                    .item(SchemaTypeInstance::new(id_of(named("usize"), prefer))),
            ),
        );
        content = content.variant(
            "Struct",
            SchemaTypeEnumVariant::Struct(
                SchemaTypeStruct::default()
                    .field("scalar", SchemaTypeInstance::new(id_of(named("f32"), prefer)))
                    .field("text", SchemaTypeInstance::new(id_of(string_id(), prefer))),
            ),
        );
        package.with(
            id.clone(),
            Schema::new(SchemaType::new_enum(content)).description("Enum."),
        );
        id
    }
}

fn string_id() -> SchemaIdTree {
    path(&["alloc", "string", "String"], vec![])
}

fn vec_of(item: SchemaIdTree) -> SchemaIdTree {
    path(&["alloc", "vec", "Vec"], vec![item])
}

fn set_of(item: SchemaIdTree) -> SchemaIdTree {
    path(&["std", "collections", "hash", "set", "HashSet"], vec![item])
}

fn map_of(key: SchemaIdTree, value: SchemaIdTree) -> SchemaIdTree {
    path(
        &["std", "collections", "hash", "map", "HashMap"],
        vec![key, value],
    )
}

fn option_of(item: SchemaIdTree) -> SchemaIdTree {
    path(&["core", "option", "Option"], vec![item])
}

fn scalar_fields() -> Vec<(&'static str, SchemaIdTree)> {
    vec![
        ("bool_value", named("bool")),
        ("i8_value", named("i8")),
        ("i16_value", named("i16")),
        ("i32_value", named("i32")),
        ("i64_value", named("i64")),
        ("i128_value", named("i128")),
        ("u8_value", named("u8")),
        ("u16_value", named("u16")),
        ("u32_value", named("u32")),
        ("u64_value", named("u64")),
        ("u128_value", named("u128")),
        ("f32_value", named("f32")),
        ("f64_value", named("f64")),
        ("char_value", named("char")),
        ("string_value", string_id()),
        (
            "tuple",
            SchemaIdTree::Tuple(vec![named("bool"), named("usize")]),
        ),
        ("bytes", vec_of(named("u8"))),
        ("option", option_of(local("UnitStruct"))),
        ("list", vec_of(named("usize"))),
        ("set", set_of(named("usize"))),
        ("string_map", map_of(string_id(), named("usize"))),
        ("integer_map", map_of(named("usize"), named("usize"))),
    ]
}

impl SchemaIntermediate for Struct {
    fn schema(package: &mut SchemaPackage) -> SchemaIdContainer {
        let prefer = package.prefer_tree_id;
        let id = id_of(local("Struct"), prefer);
        let mut content = SchemaTypeStruct::default();
        for (name, tree) in scalar_fields() {
            if name == "option" {
                UnitStruct::schema(package);
            }
            content = content.field(name, SchemaTypeInstance::new(id_of(tree, prefer)));
        }
        content = content.field("enum_value", SchemaTypeInstance::new(Enum::schema(package)));
        content = content.field(
            "new_type_struct",
            SchemaTypeInstance::new(NewTypeStruct::schema(package)),
        );
        content = content.field(
            "tuple_struct",
            SchemaTypeInstance::new(TupleStruct::schema(package)),
        );
        package.with(
            id.clone(),
            Schema::new(SchemaType::new_struct(content)).description("Struct."),
        );
        id
    }
}

fn expected_enum() -> Schema {
    Schema::new(SchemaType::new_enum(
        SchemaTypeEnum::default()
            .variant("Unit", SchemaTypeEnumVariant::Empty)
            .variant(
                "NewType",
                SchemaTypeEnumVariant::new_tuple(
                    SchemaTypeTuple::default().item(instance(local("UnitStruct"))),
                ),
            )
            .variant(
                "Tuple",
                SchemaTypeEnumVariant::new_tuple(
                    SchemaTypeTuple::default()
                        .item(instance(named("bool")))
                        .item(instance(named("usize"))),
                ),
            )
            .variant(
                "Struct",
                SchemaTypeEnumVariant::new_struct(
                    SchemaTypeStruct::default()
                        .field("text", instance(string_id()))
                        .field("scalar", instance(named("f32"))),
                ),
            ),
    ))
    .description("Enum.")
}

#[test]
fn test_schema() {
    let mut provided = SchemaPackage::default().prefer_tree_id(true);
    UnitStruct::schema(&mut provided);
    let mut expected = SchemaPackage::default().prefer_tree_id(true);
    expected.with(
        SchemaIdContainer::new_tree(local("UnitStruct")),
        Schema::new(SchemaType::new_struct(SchemaTypeStruct::default()))
            .description("Unit struct."),
    );
    assert_eq!(provided, expected);

    let mut provided = SchemaPackage::default().prefer_tree_id(true);
    NewTypeStruct::schema(&mut provided);
    let mut expected = SchemaPackage::default().prefer_tree_id(true);
    expected.with(
        SchemaIdContainer::new_tree(local("NewTypeStruct")),
        Schema::new(SchemaType::new_tuple_struct(
            SchemaTypeTuple::default().item(instance(named("bool")).description("Bool value.")),
        ))
        .description("New type struct."),
    );
    assert_eq!(provided, expected);

    let mut provided = SchemaPackage::default().prefer_tree_id(true);
    TupleStruct::schema(&mut provided);
    let mut expected = SchemaPackage::default().prefer_tree_id(true);
    expected.with(
        SchemaIdContainer::new_tree(local("TupleStruct")),
        Schema::new(SchemaType::new_tuple_struct(
            SchemaTypeTuple::default()
                .item(instance(named("bool")))
                .item(instance(named("usize"))),
        ))
        .description("Tuple struct."),
    );
    assert_eq!(provided, expected);

    let mut expected = SchemaPackage::default().prefer_tree_id(true);
    expected.with(
        SchemaIdContainer::new_tree(local("UnitStruct")),
        Schema::new(SchemaType::new_struct(SchemaTypeStruct::default()))
            .description("Unit struct."),
    );
    expected.with(SchemaIdContainer::new_tree(local("Enum")), expected_enum());
    let mut provided = SchemaPackage::default().prefer_tree_id(true);
    Enum::schema(&mut provided);
    assert_eq!(provided, expected);

    let mut expected = SchemaPackage::default().prefer_tree_id(true);
    expected.with(
        SchemaIdContainer::new_tree(local("UnitStruct")),
        Schema::new(SchemaType::new_struct(SchemaTypeStruct::default()))
            .description("Unit struct."),
    );
    expected.with(SchemaIdContainer::new_tree(local("Enum")), expected_enum());
    expected.with(
        SchemaIdContainer::new_tree(local("NewTypeStruct")),
        Schema::new(SchemaType::new_tuple_struct(
            SchemaTypeTuple::default().item(instance(named("bool")).description("Bool value.")),
        ))
        .description("New type struct."),
    );
    expected.with(
        SchemaIdContainer::new_tree(local("TupleStruct")),
        Schema::new(SchemaType::new_tuple_struct(
            SchemaTypeTuple::default()
                .item(instance(named("bool")))
                .item(instance(named("usize"))),
        ))
        .description("Tuple struct."),
    );
    expected.with(
        SchemaIdContainer::new_tree(local("Struct")),
        Schema::new(SchemaType::new_struct(
            SchemaTypeStruct::default()
                .field("bool_value", instance(named("bool")))
                .field("i8_value", instance(named("i8")))
                .field("i16_value", instance(named("i16")))
                .field("i32_value", instance(named("i32")))
                .field("i64_value", instance(named("i64")))
                .field("i128_value", instance(named("i128")))
                .field("u8_value", instance(named("u8")))
                .field("u16_value", instance(named("u16")))
                .field("u32_value", instance(named("u32")))
                .field("u64_value", instance(named("u64")))
                .field("u128_value", instance(named("u128")))
                .field("f32_value", instance(named("f32")))
                .field("f64_value", instance(named("f64")))
                .field("char_value", instance(named("char")))
                .field("string_value", instance(string_id()))
                .field(
                    "tuple",
                    instance(SchemaIdTree::Tuple(vec![named("bool"), named("usize")])),
                )
                .field("bytes", instance(vec_of(named("u8"))))
                .field("option", instance(option_of(local("UnitStruct"))))
                .field("list", instance(vec_of(named("usize"))))
                .field("set", instance(set_of(named("usize"))))
                .field("string_map", instance(map_of(string_id(), named("usize"))))
                .field("integer_map", instance(map_of(named("usize"), named("usize"))))
                .field("enum_value", instance(local("Enum")))
                .field("new_type_struct", instance(local("NewTypeStruct")))
                .field("tuple_struct", instance(local("TupleStruct"))),
        ))
        .description("Struct."),
    );
    let mut provided = SchemaPackage::default().prefer_tree_id(true);
    Struct::schema(&mut provided);
    assert_eq!(provided, expected);
}

#[test]
fn tree_text() {
    let tree = map_of(string_id(), SchemaIdTree::Tuple(vec![named("bool"), named("usize")]));
    assert_eq!(
        tree.render(),
        "std::collections::hash::map::HashMap<alloc::string::String, (bool, usize)>"
    );
    assert_eq!(SchemaIdTree::Tuple(vec![]).render(), "()");
    assert_eq!(tree.as_path_name(), Some("HashMap"));
    assert_eq!(tree.as_path_args().unwrap().len(), 2);
    assert!(tree.as_tuple().is_none());
    let id = SchemaIdContainer::new_tree(named("bool")).into_id();
    assert_eq!(id.id(), "bool");
    assert_eq!(id, SchemaId::new("bool"));
}

#[test]
fn keyed_entries_are_replaced_in_place() {
    let fields = SchemaTypeStruct::default()
        .field("a", instance(named("bool")))
        .field("b", instance(named("u8")))
        .field("a", instance(named("u16")));
    assert_eq!(fields.0.len(), 2);
    assert_eq!(fields.0[0].0, "a");
    assert_eq!(fields.0[0].1, instance(named("u16")));
    let array = SchemaTypeArrayOrSlice::new(instance(named("u8")), 4);
    assert_eq!(array.count, 4);
    assert_eq!(
        SchemaType::new_array(array.clone()),
        SchemaType::Array(array.clone())
    );
    assert_ne!(SchemaType::new_slice(array.clone()), SchemaType::Array(array));
    let mut package = SchemaPackage::with_capacity(2);
    let id = SchemaIdContainer::new_id(SchemaId::new("x"));
    package.with(
        id.clone(),
        Schema::new(SchemaType::new_tuple(SchemaTypeTuple::default())),
    );
    package.with(
        id.clone(),
        Schema::new(SchemaType::new_struct(SchemaTypeStruct::default())),
    );
    assert_eq!(package.schemas.len(), 1);
    assert_eq!(package.find(&id), Some(0));
    assert_eq!(id.as_id(), Some(&SchemaId::new("x")));
    assert!(id.as_tree().is_none());
}

#[test]
fn identifiers_are_read_as_trees() {
    let id = SchemaId::new("std::collections::hash::map::HashMap<alloc::string::String, usize>");
    assert_eq!(id.tree(), Some(map_of(string_id(), named("usize"))));
    let id = SchemaId::new(" ( bool ,alloc::vec::Vec< (u8,u16) > ) ");
    assert_eq!(
        id.tree(),
        Some(SchemaIdTree::Tuple(vec![
            named("bool"),
            vec_of(SchemaIdTree::Tuple(vec![named("u8"), named("u16")]))
        ]))
    );
    assert_eq!(SchemaId::new("()").tree(), Some(SchemaIdTree::Tuple(vec![])));
    assert_eq!(SchemaId::new("a::b_1").tree(), Some(path(&["a", "b_1"], vec![])));
    for text in ["", "a::", "::a", "a<>", "(a", "a>", "a b", "[u8; 4]", "&str", "a<b,>", "a:b"] {
        assert_eq!(SchemaId::new(text).tree(), None, "{:?}", text);
    }
    let tree = map_of(string_id(), option_of(local("UnitStruct")));
    assert_eq!(SchemaId::from_tree(&tree).tree(), Some(tree.clone()));
    assert_eq!(
        SchemaIdContainer::new_id(SchemaId::from_tree(&tree)).try_into_tree(),
        Some(tree.clone())
    );
    assert_eq!(
        SchemaIdContainer::new_tree(tree.clone()).try_into_tree(),
        Some(tree)
    );
    assert_eq!(
        SchemaIdContainer::new_id(SchemaId::new("?")).try_into_tree(),
        None
    );
}

#[test]
fn keyed_descriptions_are_compared_without_order() {
    let a = SchemaTypeStruct::default()
        .field("x", instance(named("u8")))
        .field("y", instance(named("u16")));
    let b = SchemaTypeStruct::default()
        .field("y", instance(named("u16")))
        .field("x", instance(named("u8")));
    let c = SchemaTypeStruct::default()
        .field("y", instance(named("u16")))
        .field("x", instance(named("u32")));
    assert_eq!(a, b);
    assert_ne!(a, c);
    assert_ne!(a, SchemaTypeStruct::default().field("x", instance(named("u8"))));
    let tuple_a = SchemaTypeTuple::default()
        .item(instance(named("u8")))
        .item(instance(named("u16")));
    let tuple_b = SchemaTypeTuple::default()
        .item(instance(named("u16")))
        .item(instance(named("u8")));
    assert_ne!(tuple_a, tuple_b);
    let variants_a = SchemaTypeEnum::default()
        .variant("A", SchemaTypeEnumVariant::Empty)
        .variant("B", SchemaTypeEnumVariant::new_struct(a.clone()));
    let variants_b = SchemaTypeEnum::default()
        .variant("B", SchemaTypeEnumVariant::new_struct(b.clone()))
        .variant("A", SchemaTypeEnumVariant::Empty);
    assert_eq!(variants_a, variants_b);
    let mut first = SchemaPackage::default();
    first.with(
        SchemaIdContainer::new_tree(named("a")),
        Schema::new(SchemaType::new_struct(a.clone())),
    );
    first.with(
        SchemaIdContainer::new_tree(named("b")),
        Schema::new(SchemaType::new_enum(variants_a)),
    );
    let mut second = SchemaPackage::default();
    second.with(
        SchemaIdContainer::new_tree(named("b")),
        Schema::new(SchemaType::new_enum(variants_b)),
    );
    second.with(
        SchemaIdContainer::new_tree(named("a")),
        Schema::new(SchemaType::new_struct(b)),
    );
    assert_eq!(first, second);
    assert_ne!(first, second.clone().prefer_tree_id(true));
    assert_ne!(
        Schema::new(SchemaType::new_struct(a.clone())),
        Schema::new(SchemaType::new_struct(a)).description("text")
    );
}

#[test]
fn spaces_stand_around_trees_only() {
    assert_eq!(SchemaId::new("( )").tree(), Some(SchemaIdTree::Tuple(vec![])));
    assert_eq!(
        SchemaId::new("a <b , c::d >").tree(),
        Some(path(&["a"], vec![named("b"), path(&["c", "d"], vec![])]))
    );
    for text in ["a ::b", "a:: b", "a< >", "( , )", "a,b", "a<b> c"] {
        assert_eq!(SchemaId::new(text).tree(), None, "{:?}", text);
    }
}
