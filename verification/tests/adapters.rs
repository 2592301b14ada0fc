use pretty_tree::{PrettyBranch, PrettyTree, ToPrettyTree};

struct Point {
    x: u32,
    y: u32,
}

impl ToPrettyTree for Point {
    fn to_pretty_tree(&self) -> PrettyTree {
        PrettyTree::some_branch(
            PrettyBranch::new("Point").with_field("x", self.x).with_field("y", self.y),
        )
    }
}

#[test]
fn unit_and_truth_values() {
    assert_eq!(().to_pretty_tree().render(), "()");
    assert_eq!(true.to_pretty_tree().render(), "true");
    assert_eq!(false.to_pretty_tree().render(), "false");
}

#[test]
fn numbers_in_decimal() {
    assert_eq!(0usize.to_pretty_tree().render(), "0");
    assert_eq!(usize::MAX.to_pretty_tree().render(), usize::MAX.to_string());
    assert_eq!(255u8.to_pretty_tree().render(), "255");
    assert_eq!(9u8.to_pretty_tree().render(), "9");
    assert_eq!(4294967295u32.to_pretty_tree().render(), "4294967295");
    assert_eq!(100u32.to_pretty_tree().render(), "100");
}

#[test]
fn strings_are_quoted() {
    assert_eq!("text".to_pretty_tree().render(), "\"text\"");
    assert_eq!(String::from("te\\xt").to_pretty_tree().render(), "\"te\\\\xt\"");
    assert!(matches!("text".to_pretty_tree(), PrettyTree::Value(_)));
}

#[test]
fn borrowed_value_is_the_value() {
    let n = 5u32;
    assert_eq!((&n).to_pretty_tree().render(), "5");
    assert_eq!((&&n).to_pretty_tree().render(), "5");
}

#[test]
fn optional_values() {
    assert_eq!(Some(3u8).to_pretty_tree().render(), "3");
    assert_eq!(None::<u8>.to_pretty_tree().render(), "None");
    assert_eq!(Some(Some("x")).to_pretty_tree().render(), "\"x\"");
}

#[test]
fn trees_and_branches_turn_into_themselves() {
    let branch = PrettyBranch::new("b").with_child(1u8);
    assert_eq!(branch.to_pretty_tree().render(), "b\n╰╼\u{2009}1");
    let tree = PrettyTree::some_branch(branch);
    assert_eq!(tree.to_pretty_tree().render(), tree.render());
}

#[test]
fn a_type_of_its_own() {
    let tree = PrettyTree::branch_of("points", vec![Point { x: 1, y: 2 }, Point { x: 3, y: 4 }]);
    let expected = [
        "points",
        "├╼\u{2009}Point",
        "│  ├╼\u{2009}x: 1",
        "│  ╰╼\u{2009}y: 2",
        "╰╼\u{2009}Point",
        "   ├╼\u{2009}x: 3",
        "   ╰╼\u{2009}y: 4",
    ]
    .join("\n");
    assert_eq!(tree.render(), expected);
}

#[test]
fn vector_of_none_is_one_leaf_with_brackets() {
    let tree = pretty_tree::interface::vec_to_pretty_tree::<u8>("u8", &[]);
    assert_eq!(tree.render(), "Vec<u8>: []");
    assert!(matches!(tree, PrettyTree::Value(_)));
    assert!(!tree.render().contains('\n'));
}

#[test]
fn vector_of_some_is_a_branch_of_its_items() {
    let tree = pretty_tree::interface::vec_to_pretty_tree("u8", &[1u8, 2u8]);
    assert_eq!(tree.render(), "Vec<u8>\n├╼\u{2009}1\n╰╼\u{2009}2");
    let tree = pretty_tree::interface::vec_to_pretty_tree("bool", &[true]);
    assert_eq!(tree.render(), "Vec<bool>\n╰╼\u{2009}true");
}

#[test]
fn tuples_under_the_names_of_their_first_two_types() {
    let pair = pretty_tree::interface::pair_to_pretty_tree("u8", "&str", &(1u8, "x"));
    assert_eq!(pair.render(), "(u8, &str)\n├╼\u{2009}1\n╰╼\u{2009}\"x\"");
    let triple = pretty_tree::interface::triple_to_pretty_tree("u8", "bool", &(1u8, true, ()));
    assert_eq!(triple.render(), "(u8, bool)\n├╼\u{2009}1\n├╼\u{2009}true\n╰╼\u{2009}()");
}

#[test]
fn map_is_a_branch_for_each_entry() {
    let entries = vec![("one", 1u32), ("two", 2u32)];
    let tree = pretty_tree::interface::map_to_pretty_tree("Map", &entries);
    let expected = [
        "Map",
        "├╼\u{2009}one",
        "│  ╰╼\u{2009}1",
        "╰╼\u{2009}two",
        "   ╰╼\u{2009}2",
    ]
    .join("\n");
    assert_eq!(tree.render(), expected);
    let none: Vec<(u8, u8)> = vec![];
    assert_eq!(pretty_tree::interface::map_to_pretty_tree("Map", &none).render(), "Map");
}
