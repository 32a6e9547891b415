use serde_intermediate::versioning::{Change, DiffOptimizationHint, DiffOptions};
use serde_intermediate::versioning::grid::{build_edit_graph, grid_is_within_limits, EdgeKind};
use serde_intermediate::{Error, Intermediate};

fn texts(items: &[&str]) -> Intermediate {
    let mut result = Intermediate::seq();
    for item in items {
        result = result.item((*item).into());
    }
    result
}

#[test]
fn test_seq_diff() {
    let value = texts(&["a", "b", "c"]);
    let provided = Change::sequence_difference(
        value.as_seq().unwrap(),
        value.as_seq().unwrap(),
        &Default::default(),
    );
    assert_eq!(provided, vec![]);

    let prev = texts(&["a", "b", "c", "d"]);
    let next = texts(&["e", "f", "g", "h", "c", "d"]);
    let provided = Change::sequence_difference(
        prev.as_seq().unwrap(),
        next.as_seq().unwrap(),
        &Default::default(),
    );
    let expected = vec![
        (0, Change::Added("e".into())),
        (1, Change::Added("f".into())),
        (2, Change::Changed("g".into())),
        (3, Change::Changed("h".into())),
    ];
    assert_eq!(provided, expected);

    let prev = texts(&["a", "b", "c", "d"]);
    let next = texts(&["e", "a", "b", "c", "f"]);
    let provided = Change::sequence_difference(
        prev.as_seq().unwrap(),
        next.as_seq().unwrap(),
        &Default::default(),
    );
    let expected = vec![
        (0, Change::Added("e".into())),
        (4, Change::Changed("f".into())),
    ];
    assert_eq!(provided, expected);
}

#[test]
fn difference_of_equal_trees_is_same() {
    let a = texts(&["a", "b"]);
    let options = DiffOptions::default().optimization_hint(DiffOptimizationHint::SizeValue(0));
    assert_eq!(Change::difference(&a, &a, &options), Change::Same);
    assert_eq!(Change::Same.patch(&a).unwrap(), Some(a));
}

fn number(v: usize) -> Intermediate {
    Intermediate::U64(v as u64)
}

fn wrapper(v: bool) -> Intermediate {
    Intermediate::struct_type().field("v", v.into())
}

fn range(start: i32, end: i32) -> Intermediate {
    Intermediate::struct_type()
        .field("start", start.into())
        .field("end", end.into())
}

fn foo(map: &[(&str, usize)], list: &[&str]) -> Intermediate {
    let mut entries = Intermediate::map();
    for (k, v) in map {
        entries = entries.property((*k).into(), number(*v));
    }
    Intermediate::struct_type()
        .field("map", entries)
        .field("list", texts(list))
}

fn check_round(prev: &Intermediate, next: &Intermediate) {
    let diff = Change::difference(prev, next, &Default::default());
    let patched = diff.patch(prev).unwrap().unwrap();
    assert_eq!(&patched, next);
    let mut source = prev.clone();
    source.patch_change(&diff);
    assert_eq!(&source, next);
}

#[test]
fn test_versioning() {
    let prev = Intermediate::Option(None);
    let next = Intermediate::Option(Some(Box::new(number(42))));
    check_round(&prev, &next);

    let prev = Intermediate::Option(Some(Box::new(wrapper(false))));
    let next = Intermediate::Option(Some(Box::new(wrapper(true))));
    check_round(&prev, &next);

    let prev = Intermediate::newtype_variant("Ok", number(42));
    let next = Intermediate::newtype_variant("Err", true.into());
    check_round(&prev, &next);

    let prev = Intermediate::newtype_variant("Ok", wrapper(false));
    let next = Intermediate::newtype_variant("Ok", wrapper(true));
    check_round(&prev, &next);

    check_round(&false.into(), &true.into());

    check_round(&range(0, 5), &range(5, 10));

    let prev = Intermediate::seq().item(foo(&[("answer", 0)], &["hello"]));
    let next = Intermediate::seq().item(foo(&[("answer", 42)], &["hello"]));
    check_round(&prev, &next);

    let prev = foo(&[("answer", 42)], &["hello"]);
    let next = foo(&[("answer", 0)], &["hello", "world"]);
    check_round(&prev, &next);

    let source = Intermediate::default();
    let change = Change::Same;
    let patched = change
        .patch(&source)
        .expect("Could not patch source")
        .unwrap();
    assert_eq!(patched, source);

    let source = Intermediate::default();
    let change = Change::Removed;
    let patched = change.patch(&source).expect("Could not patch source");
    assert_eq!(patched, None);

    let mut source = Intermediate::seq()
        .item(1.into())
        .item(2.into())
        .item(3.into());
    let expected = Intermediate::seq().item(1.into()).item(2.into());
    let change = Change::partial_seq()
        .partial_seq_item(1, Change::Removed)
        .partial_seq_item(1, Change::Changed(2.into()));
    let patched = change
        .patch(&source)
        .expect("Could not patch source")
        .unwrap();
    assert_eq!(patched, expected);
    source.patch_change(&change);
    assert_eq!(source, expected);

    let mut source = Intermediate::tuple().item(1.into()).item("hello".into());
    let expected = Intermediate::tuple().item(1.into()).item("world".into());
    let change = Change::PartialSeq(vec![
        (0, Change::Same),
        (1, Change::Changed("world".into())),
    ]);
    let patched = change
        .patch(&source)
        .expect("Could not patch source")
        .unwrap();
    assert_eq!(patched, expected);
    source.patch_change(&change);
    assert_eq!(source, expected);

    let mut source = Intermediate::struct_type().field("hey", "hello".into());
    let expected = Intermediate::struct_type().field("hi", "hello".into());
    let change = Change::PartialStruct(vec![
        ("hey".to_owned(), Change::Removed),
        ("hi".to_owned(), Change::Added("hello".into())),
    ]);
    let patched = change
        .patch(&source)
        .expect("Could not patch source")
        .unwrap();
    assert_eq!(patched, expected);
    source.patch_change(&change);
    assert_eq!(source, expected);

    let prev = Intermediate::struct_type()
        .field("bool_value", true.into())
        .field("i8_value", (-1i8).into())
        .field("i32_value", (-3i32).into())
        .field("i128_value", (-5i128).into())
        .field("f32_value", Intermediate::F32(1.1f32.to_bits()))
        .field(
            "bytes",
            texts(&[]).item(14u8.into()).item(15u8.into()).item(16u8.into()),
        )
        .field("list", Intermediate::seq().item(number(20)).item(number(21)).item(number(23)))
        .field(
            "string_map",
            Intermediate::map()
                .property("a".into(), number(24))
                .property("b".into(), number(25)),
        )
        .field(
            "enum_value",
            Intermediate::struct_variant("Struct")
                .field("scalar", Intermediate::F32(3.1f32.to_bits()))
                .field("text", "world".into()),
        )
        .field(
            "tuple_struct",
            Intermediate::tuple_struct().item(false.into()).item(number(32)),
        );
    let next = Intermediate::struct_type()
        .field("bool_value", false.into())
        .field("i8_value", 1i8.into())
        .field("i32_value", 3i32.into())
        .field("i128_value", 5i128.into())
        .field("f32_value", Intermediate::F32(1.1f32.to_bits()))
        .field(
            "bytes",
            texts(&[]).item(14u8.into()).item(18u8.into()).item(17u8.into()),
        )
        .field(
            "list",
            Intermediate::seq()
                .item(number(20))
                .item(number(21))
                .item(number(23))
                .item(number(21))
                .item(number(23)),
        )
        .field("string_map", Intermediate::map().property("c".into(), number(24)))
        .field(
            "enum_value",
            Intermediate::struct_variant("Struct")
                .field("scalar", Intermediate::F32(3.1f32.to_bits()))
                .field("text", "erm".into()),
        )
        .field(
            "tuple_struct",
            Intermediate::tuple_struct().item(false.into()).item(number(42)),
        );
    check_round(&prev, &next);
    for hint in [
        DiffOptimizationHint::Default,
        DiffOptimizationHint::SizeSource,
        DiffOptimizationHint::SizeTarget,
        DiffOptimizationHint::SizeValue(100),
        DiffOptimizationHint::SizePercentage(50),
    ] {
        let diff = Change::difference(
            &prev,
            &next,
            &DiffOptions::default().optimization_hint(hint),
        );
        let patched = diff.patch(&prev).expect("Could not patch source").unwrap();
        assert_eq!(patched, next);
    }

    let base = foo(&[("a", 1), ("b", 2)], &["hello", "world"]);
    let patch_a = foo(&[("a", 1)], &["hello", "foo"]);
    let patch_b = foo(&[("a", 42), ("b", 2)], &["foo"]);
    let change_a = Change::difference(&base, &patch_a, &Default::default());
    let change_b = Change::difference(&base, &patch_b, &Default::default());
    assert_eq!(change_a.patch(&base).unwrap().unwrap(), patch_a);
    assert_eq!(change_b.patch(&base).unwrap().unwrap(), patch_b);
    let expected = foo(&[("a", 42)], &["foo"]);
    {
        let patched = change_a.patch(&base).unwrap().unwrap();
        let patched = change_b.patch(&patched).unwrap().unwrap();
        assert_eq!(patched, expected);
    }
    {
        let patched = change_b.patch(&base).unwrap().unwrap();
        let patched = change_a.patch(&patched).unwrap().unwrap();
        assert_eq!(patched, expected);
    }
}

#[test]
fn keyed_diff_holds_no_same_entry() {
    let prev = foo(&[("a", 1), ("b", 2), ("c", 3)], &["x"]);
    let next = foo(&[("a", 1), ("b", 5), ("d", 4)], &["x"]);
    let diff = Change::difference(&prev, &next, &Default::default());
    let expected = Change::partial_struct().partial_struct_item(
        "map",
        Change::partial_map()
            .partial_map_item("d".into(), Change::Added(number(4)))
            .partial_map_item("c".into(), Change::Removed)
            .partial_map_item("b".into(), Change::Changed(number(5))),
    );
    assert_eq!(diff, expected);
}

#[test]
fn variants_with_other_names_are_replaced() {
    let prev = Intermediate::struct_variant("A").field("x", 1.into());
    let next = Intermediate::struct_variant("B").field("x", 2.into());
    let diff = Change::difference(&prev, &next, &Default::default());
    assert_eq!(diff, Change::Changed(next.clone()));
    let prev = Intermediate::newtype_variant("A", 1.into());
    let next = Intermediate::newtype_variant("B", 1.into());
    assert_eq!(
        Change::difference(&prev, &next, &Default::default()),
        Change::Changed(next)
    );
    let prev = Intermediate::tuple_variant("A").item(1.into());
    let next = Intermediate::tuple_variant("A").item(2.into());
    assert_eq!(
        Change::difference(&prev, &next, &Default::default()),
        Change::Changed(next)
    );
    assert_eq!(
        Change::difference(&1u8.into(), &1u16.into(), &Default::default()),
        Change::Changed(1u16.into())
    );
}

#[test]
fn empty_lists_are_aligned_without_search() {
    let none = texts(&[]);
    let some = texts(&["a", "b"]);
    assert_eq!(
        Change::sequence_difference(
            none.as_seq().unwrap(),
            some.as_seq().unwrap(),
            &Default::default()
        ),
        vec![
            (0, Change::Added("a".into())),
            (1, Change::Added("b".into()))
        ]
    );
    assert_eq!(
        Change::sequence_difference(
            some.as_seq().unwrap(),
            none.as_seq().unwrap(),
            &Default::default()
        ),
        vec![(0, Change::Removed), (0, Change::Removed)]
    );
    check_round(&none, &some);
    check_round(&some, &none);
}

#[test]
fn nested_items_are_changed_partially() {
    let prev = Intermediate::seq().item(texts(&["a", "b"])).item(1.into());
    let next = Intermediate::seq().item(texts(&["a", "c"])).item(1.into());
    let diff = Change::difference(&prev, &next, &Default::default());
    let expected = Change::partial_seq().partial_seq_item(
        0,
        Change::partial_seq().partial_seq_item(1, Change::Changed("c".into())),
    );
    assert_eq!(diff, expected);
    assert_eq!(diff.patch(&prev).unwrap().unwrap(), next);
}

#[test]
fn patch_refuses_what_does_not_fit() {
    let value = Intermediate::U8(1);
    assert!(matches!(
        Change::Added(value.clone()).patch(&value),
        Err(Error::CannotAdd(v)) if v == value
    ));
    assert!(matches!(
        Change::partial_change(Change::Same).patch(&value),
        Err(Error::NotPartial(v)) if v == value
    ));
    let option = Intermediate::Option(Some(Box::new(value.clone())));
    assert!(matches!(
        Change::partial_change(Change::Removed).patch(&option),
        Err(Error::NotPartial(v)) if v == option
    ));
    assert!(matches!(
        Change::partial_seq().patch(&value),
        Err(Error::NotSeq(v)) if v == value
    ));
    assert!(matches!(
        Change::partial_map().patch(&value),
        Err(Error::NotMap(v)) if v == value
    ));
    assert!(matches!(
        Change::partial_struct().patch(&value),
        Err(Error::NotStruct(v)) if v == value
    ));
    let nested = Intermediate::seq().item(value.clone());
    assert!(matches!(
        Change::partial_seq()
            .partial_seq_item(0, Change::partial_map())
            .patch(&nested),
        Err(Error::NotMap(v)) if v == value
    ));
    assert_eq!(
        Error::NotSeq(value.clone()).message(),
        "value is not a sequence"
    );
    assert_eq!(Error::Message("m".to_owned()).message(), "m");
    assert_eq!(Error::ExpectedTupleVariant.message(), "expected tuple variant");
}

#[test]
fn edits_outside_the_list_are_passed_over() {
    let source = texts(&["a"]);
    let change = Change::partial_seq()
        .partial_seq_item(3, Change::Removed)
        .partial_seq_item(3, Change::Added("x".into()))
        .partial_seq_item(3, Change::Changed("y".into()))
        .partial_seq_item(1, Change::Added("b".into()));
    assert_eq!(change.patch(&source).unwrap().unwrap(), texts(&["a", "b"]));
    let fields = Intermediate::struct_type().field("a", 1.into());
    let change = Change::partial_struct()
        .partial_struct_item("b", Change::Removed)
        .partial_struct_item("c", Change::Changed(2.into()))
        .partial_struct_item("a", Change::Added(3.into()));
    assert_eq!(
        change.patch(&fields).unwrap().unwrap(),
        Intermediate::struct_type().field("a", 3.into())
    );
}

#[test]
fn builders_replace_keyed_edits() {
    let change = Change::partial_map()
        .partial_map_item("a".into(), Change::Removed)
        .partial_map_item("b".into(), Change::Same)
        .partial_map_item("a".into(), Change::Changed(1.into()));
    assert_eq!(
        change,
        Change::PartialMap(vec![
            ("a".into(), Change::Changed(1.into())),
            ("b".into(), Change::Same)
        ])
    );
    assert_eq!(Change::same(), Change::Same);
    assert_eq!(Change::removed(), Change::Removed);
    assert_eq!(Change::changed(1.into()), Change::Changed(1.into()));
    assert_eq!(Change::added(1.into()), Change::Added(1.into()));
    assert!(Change::same().is_same());
    assert!(!Change::removed().is_same());
    assert_eq!(
        Change::same().partial_seq_item(0, Change::Removed),
        Change::Same
    );
}

#[test]
fn sizes_and_optimization() {
    let node = std::mem::size_of::<Intermediate>();
    let change_node = std::mem::size_of::<Change>();
    assert_eq!(Intermediate::String("abc".to_owned()).total_bytesize(), node + 3);
    assert_eq!(Intermediate::Bytes(vec![1, 2]).total_bytesize(), node + 2);
    assert_eq!(
        Intermediate::struct_variant("ab")
            .field("cde", Intermediate::Unit)
            .total_bytesize(),
        node + 2 + 3 + node
    );
    assert_eq!(
        Intermediate::map()
            .property(1u8.into(), "xy".into())
            .total_bytesize(),
        node + node + node + 2
    );
    assert_eq!(Change::Same.total_bytesize(), change_node);
    assert_eq!(
        Change::Changed("abc".into()).total_bytesize(),
        change_node + node + 3
    );
    assert_eq!(
        Change::partial_seq()
            .partial_seq_item(0, Change::Removed)
            .total_bytesize(),
        change_node + std::mem::size_of::<usize>() + change_node
    );
    assert_eq!(
        Change::partial_struct()
            .partial_struct_item("ab", Change::Removed)
            .total_bytesize(),
        change_node + 2 + change_node
    );

    let prev = texts(&["a", "b", "c"]);
    let next = texts(&["a", "b", "d"]);
    let plain = Change::difference(&prev, &next, &Default::default());
    assert_eq!(
        plain,
        Change::partial_seq().partial_seq_item(2, Change::Changed("d".into()))
    );
    let replaced = Change::Changed(next.clone());
    for hint in [
        DiffOptimizationHint::SizeValue(0),
        DiffOptimizationHint::SizePercentage(0),
    ] {
        let options = DiffOptions::default().optimization_hint(hint);
        assert_eq!(Change::difference(&prev, &next, &options), replaced);
    }
    let options =
        DiffOptions::default().optimization_hint(DiffOptimizationHint::SizeValue(usize::MAX));
    assert_eq!(Change::difference(&prev, &next, &options), plain);
    let options = DiffOptions::default().optimization_hint(DiffOptimizationHint::SizeTarget);
    let optimized = Change::difference(&prev, &next, &options);
    assert!(optimized.total_bytesize() <= replaced.total_bytesize());
    assert_eq!(
        Change::Same.optimize(&prev, &next, DiffOptimizationHint::SizeValue(0)),
        replaced
    );
    assert_eq!(
        serde_intermediate::versioning::optimize::scale_percent(1001, 50),
        500
    );
    assert_eq!(
        serde_intermediate::versioning::optimize::scale_percent(usize::MAX, 200),
        usize::MAX
    );
}

#[test]
fn edit_script_follows_the_path() {
    let prev = texts(&["a", "b"]);
    let next = texts(&["a", "c"]);
    let prev = prev.as_seq().unwrap();
    let next = next.as_seq().unwrap();
    assert!(grid_is_within_limits(prev.len(), next.len()));
    assert!(!grid_is_within_limits(70_000, 70_000));
    let graph = build_edit_graph(prev, next);
    assert_eq!(graph.node_count(), 9);
    assert_eq!(graph.edge_count(), 6 + 6 + 4);
    let options = DiffOptions::default();
    let script = Change::edit_script(&graph, prev, next, &options, &[0, 4, 8]);
    assert_eq!(script, vec![(1, Change::Changed("c".into()))]);
    let script = Change::edit_script(&graph, prev, next, &options, &[0, 1, 2, 5, 8]);
    assert_eq!(
        script,
        vec![
            (0, Change::Removed),
            (0, Change::Removed),
            (0, Change::Added("a".into())),
            (1, Change::Added("c".into()))
        ]
    );
    let step = Change::edit_step(&graph, prev, next, &options, 4, 5, 1);
    assert_eq!(step, (Some((1, Change::Removed)), 1));
    assert_eq!(EdgeKind::Added.cost(), 8);
    assert_eq!(EdgeKind::Removed.cost(), 9);
    assert_eq!(EdgeKind::Unchanged.cost(), 10);
    assert_eq!(EdgeKind::Changed.cost(), 11);
    assert_eq!(EdgeKind::from_cost(10), Some(EdgeKind::Unchanged));
    assert_eq!(EdgeKind::from_cost(12), None);
}
