use pretty_tree::text::{decimal_text, key_line};
use pretty_tree::{
    branch_builder, branch_of, field, string, value, PrettyBranch, PrettyFragment, PrettyTree,
    PrettyValue,
};

#[test]
fn key_with_a_leaf_is_one_line() {
    let tree = PrettyTree::key_value("count", PrettyTree::value(&3));
    assert_eq!(tree.render(), "count: 3");
    assert!(matches!(tree, PrettyTree::Value(_)));
}

#[test]
fn key_with_a_quoted_leaf_is_one_line_with_quotes() {
    let tree = PrettyTree::key_value("name", string("Ada"));
    assert_eq!(tree.render(), "name: \"Ada\"");
    let tree = PrettyTree::keyed("name", string("A\"da"));
    assert_eq!(tree.render(), "name: \"A\\\"da\"");
}

#[test]
fn key_with_any_other_tree_is_a_branch_of_one() {
    let inner = PrettyTree::branch_of("inner", vec![PrettyTree::leaf("x")]);
    let tree = PrettyTree::key_value("outer", inner);
    assert_eq!(tree.render(), "outer\n╰╼\u{2009}inner\n   ╰╼\u{2009}x");
    let tree = PrettyTree::key_value("nothing", PrettyTree::empty());
    assert_eq!(tree.render(), "nothing\n");
    let tree = PrettyTree::key_value("some", PrettyTree::fragment(vec![PrettyTree::leaf("a")]));
    assert_eq!(tree.render(), "some\n╰╼\u{2009}a");
}

#[test]
fn key_line_joins_with_colon_and_space() {
    assert_eq!(key_line("count", "3"), "count: 3");
    assert_eq!(key_line("", ""), ": ");
}

#[test]
fn field_is_a_key_with_a_borrowed_value() {
    assert_eq!(field("flag", &true).render(), "flag: true");
    assert_eq!(field("size", &12u32).render(), "size: 12");
    assert_eq!(field("name", &"x").render(), "name: \"x\"");
}

#[test]
fn leaf_constructors() {
    assert_eq!(PrettyTree::value("plain").render(), "plain");
    assert_eq!(PrettyTree::value(&42).render(), "42");
    assert_eq!(PrettyTree::value(&-7i64).render(), "-7");
    assert_eq!(PrettyTree::leaf("as is").render(), "as is");
    assert_eq!(PrettyTree::str("quoted").render(), "\"quoted\"");
    assert_eq!(PrettyTree::str("a\tb").render(), "\"a\\tb\"");
    assert_eq!(PrettyTree::string("quoted").render(), "\"quoted\"");
    assert_eq!(PrettyTree::string(&5).render(), "\"5\"");
    assert_eq!(value("plain").render(), "plain");
    assert_eq!(value(&1.to_string()).render(), "1");
    assert_eq!(string("late").render(), "\"late\"");
    assert!(matches!(string("late"), PrettyTree::String(_)));
    assert!(matches!(PrettyTree::str("early"), PrettyTree::Value(_)));
}

#[test]
fn values_on_their_own() {
    assert_eq!(PrettyTree::some_value(PrettyValue::from_str("v")).render(), "v");
    assert_eq!(PrettyTree::some_value(PrettyValue::from_string(&17)).render(), "17");
    assert_eq!(PrettyTree::some_value(PrettyValue::from_string("w")).render(), "w");
    assert_eq!(PrettyTree::some_value(PrettyValue::from_str("v").clone()).render(), "v");
}

#[test]
fn children_given_one_by_one_are_children_given_together() {
    let a = PrettyTree::leaf("A");
    let b = PrettyTree::branch_of("B", vec![PrettyTree::leaf("b")]);
    let one_by_one = PrettyBranch::new("x").with_child(a.clone()).with_child(b.clone());
    let together = PrettyTree::branch_of("x", vec![a, b]);
    assert_eq!(PrettyTree::some_branch(one_by_one).render(), together.render());
    assert_eq!(together.render(), "x\n├╼\u{2009}A\n╰╼\u{2009}B\n   ╰╼\u{2009}b");
}

#[test]
fn builder_leaves_the_branch_it_starts_from_as_it_is() {
    let base = branch_builder("base").with_child(PrettyTree::leaf("shared"));
    let left = base.with_child(PrettyTree::leaf("left"));
    let right = base.with_child_ref(&PrettyTree::leaf("right"));
    assert_eq!(base.format(&Default::default()), "base\n╰╼\u{2009}shared");
    assert_eq!(left.format(&Default::default()), "base\n├╼\u{2009}shared\n╰╼\u{2009}left");
    assert_eq!(right.format(&Default::default()), "base\n├╼\u{2009}shared\n╰╼\u{2009}right");
    assert_eq!(base.children.len(), 1);
    assert_eq!(base.label, "base");
}

#[test]
fn fields_of_a_branch() {
    let branch = PrettyBranch::new("point")
        .with_field("x", 1u32)
        .with_field_ref("y", &2u32)
        .with_field("tags", PrettyTree::branch_of("list", vec!["a", "b"]));
    let expected = [
        "point",
        "├╼\u{2009}x: 1",
        "├╼\u{2009}y: 2",
        "╰╼\u{2009}tags",
        "   ╰╼\u{2009}list",
        "      ├╼\u{2009}\"a\"",
        "      ╰╼\u{2009}\"b\"",
    ]
    .join("\n");
    assert_eq!(PrettyTree::some_branch(branch).render(), expected);
}

#[test]
fn several_children_at_once() {
    let base = PrettyBranch::new("n").with_child(0u8);
    let owned = base.with_children(vec![1u8, 2u8]);
    let slice = base.with_children_slice(&[1u8, 2u8]);
    let one = 1u8;
    let two = 2u8;
    let borrowed = base.with_children_iter(vec![&one, &two]);
    let expected = "n\n├╼\u{2009}0\n├╼\u{2009}1\n╰╼\u{2009}2";
    assert_eq!(owned.format(&Default::default()), expected);
    assert_eq!(slice.format(&Default::default()), expected);
    assert_eq!(borrowed.format(&Default::default()), expected);
    assert_eq!(base.with_children(Vec::<u8>::new()).format(&Default::default()), "n\n╰╼\u{2009}0");
    assert_eq!(base.format(&Default::default()), "n\n╰╼\u{2009}0");
}

#[test]
fn branches_and_fragments_from_values() {
    let branch = PrettyBranch::from_iter("Array", vec![true, false]);
    assert_eq!(branch.label, "Array");
    assert_eq!(
        PrettyTree::some_branch(branch).render(),
        "Array\n├╼\u{2009}true\n╰╼\u{2009}false"
    );
    let numbered = PrettyBranch::from_iter(&7, Vec::<bool>::new());
    assert_eq!(numbered.label, "7");
    let fragment = PrettyFragment::from_iter(vec![1u32, 2u32]);
    assert_eq!(fragment.nodes.len(), 2);
    assert_eq!(PrettyTree::some_fragment(fragment).render(), "├╼\u{2009}1\n╰╼\u{2009}2");
    assert_eq!(PrettyTree::fragment(vec![9usize]).render(), "9");
    assert_eq!(branch_of("b", vec![(), ()]).render(), "b\n├╼\u{2009}()\n╰╼\u{2009}()");
    assert_eq!(PrettyTree::branch_of("b", Vec::<u8>::new()).render(), "b");
}

#[test]
fn clone_is_drawn_as_what_it_copies() {
    let tree = PrettyTree::branch_of(
        "a",
        vec![
            PrettyTree::fragment(vec![PrettyTree::leaf("b"), string("c")]),
            PrettyTree::empty(),
        ],
    );
    assert_eq!(tree.clone().render(), tree.render());
    assert_eq!(format!("{:?}", tree.clone()), format!("{:?}", tree));
}

#[test]
fn decimal_digits() {
    assert_eq!(decimal_text(0), "0");
    assert_eq!(decimal_text(7), "7");
    assert_eq!(decimal_text(10), "10");
    assert_eq!(decimal_text(1234567890), "1234567890");
    assert_eq!(decimal_text(u64::MAX), "18446744073709551615");
    assert_eq!(decimal_text(u64::MAX), u64::MAX.to_string());
}
