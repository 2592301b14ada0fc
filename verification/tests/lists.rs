use pretty_tree::{Formatter, FormatterStyle, PrettyTree, TreeColumn};

fn leaf(text: &str) -> PrettyTree {
    PrettyTree::leaf(text)
}

fn plain() -> Formatter {
    Formatter::new(FormatterStyle::default())
}

fn compact() -> Formatter {
    Formatter::new(FormatterStyle::default().compact_mode(true))
}

#[test]
fn empty_list_without_label_is_a_pair_of_brackets() {
    assert_eq!(plain().list(None, &vec![]), "[]");
    assert_eq!(compact().list(None, &vec![]), "[]");
    let deep = plain().with_column(TreeColumn::DownAndRight);
    assert_eq!(deep.list(None, &vec![]), "[]");
}

#[test]
fn empty_list_under_a_label_is_the_label() {
    assert_eq!(plain().list(Some("Vec<u8>"), &vec![]), "Vec<u8>");
}

#[test]
fn compact_empty_list_under_a_label_is_nothing() {
    assert_eq!(compact().list(Some("Vec<u8>"), &vec![]), "");
    let deep = compact().with_column(TreeColumn::DownAndRight);
    assert_eq!(deep.list(Some("Vec<u8>"), &vec![]), "");
}

#[test]
fn list_of_one_without_label_is_its_node() {
    let deep = plain().with_column(TreeColumn::DownAndRight);
    assert_eq!(plain().list(None, &vec![leaf("x")]), "x");
    assert_eq!(deep.list(None, &vec![leaf("x")]), "├╼\u{2009}x");
}

#[test]
fn list_of_one_under_a_label_keeps_the_label() {
    assert_eq!(plain().list(Some("l"), &vec![leaf("x")]), "l\n╰╼\u{2009}x");
}

#[test]
fn compact_list_of_one_leaves_the_label_out() {
    assert_eq!(compact().list(Some("L"), &vec![PrettyTree::value("a")]), "╰╼\u{2009}a");
    let inner = PrettyTree::branch_of("b", vec![leaf("c"), leaf("d")]);
    assert_eq!(
        compact().list(Some("L"), &vec![inner]),
        "╰╼\u{2009}b\n   ├╼\u{2009}c\n   ╰╼\u{2009}d"
    );
}

#[test]
fn compact_list_is_the_plain_list_without_its_first_line() {
    for items in [
        vec![leaf("a")],
        vec![leaf("a"), leaf("b")],
        vec![PrettyTree::branch_of("n", vec![leaf("x")]), leaf("b"), leaf("c")],
    ] {
        let with_label = plain().list(Some("label"), &items);
        let without = compact().list(Some("label"), &items);
        assert_eq!(with_label, format!("label\n{}", without));
    }
}

#[test]
fn list_of_several_without_label_opens_with_a_rounded_corner() {
    let items = vec![leaf("a"), leaf("b"), leaf("c")];
    assert_eq!(plain().list(None, &items), "╭╼\u{2009}a\n├╼\u{2009}b\n╰╼\u{2009}c");
    assert_eq!(compact().list(None, &items), "╭╼\u{2009}a\n├╼\u{2009}b\n╰╼\u{2009}c");
    let two = vec![leaf("a"), leaf("b")];
    assert_eq!(plain().list(None, &two), "╭╼\u{2009}a\n╰╼\u{2009}b");
}

#[test]
fn list_of_several_under_a_label_is_drawn_as_a_branch() {
    let items = vec![leaf("a"), leaf("b"), leaf("c")];
    assert_eq!(
        plain().list(Some("l"), &items),
        "l\n├╼\u{2009}a\n├╼\u{2009}b\n╰╼\u{2009}c"
    );
    assert_eq!(plain().list(Some("l"), &items), plain().branch("l", &items));
}

#[test]
fn compact_list_of_several_leaves_the_label_out() {
    let items = vec![leaf("a"), leaf("b"), leaf("c")];
    assert_eq!(compact().list(Some("l"), &items), "├╼\u{2009}a\n├╼\u{2009}b\n╰╼\u{2009}c");
    assert_eq!(compact().branch("l", &items), "l\n├╼\u{2009}a\n├╼\u{2009}b\n╰╼\u{2009}c");
}

#[test]
fn rounded_corner_settles_as_it_is() {
    let items = vec![PrettyTree::branch_of("a", vec![leaf("x"), leaf("y")]), leaf("b")];
    let expected = [
        "╭╼\u{2009}a",
        "╭  ├╼\u{2009}x",
        "╭  ╰╼\u{2009}y",
        "╰╼\u{2009}b",
    ]
    .join("\n");
    assert_eq!(plain().list(None, &items), expected);
}
