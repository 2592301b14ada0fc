use pretty_tree::{Formatter, FormatterStyle, PrettyTree};

#[test]
fn colour_that_the_process_switches_off_leaves_the_plain_text() {
    colored::control::set_override(false);
    let tree = PrettyTree::branch_of(
        "a",
        vec![PrettyTree::leaf("b"), PrettyTree::branch_of("c", vec![PrettyTree::leaf("d")])],
    );
    let colorful = Formatter::new(FormatterStyle::default().use_color(true));
    assert_eq!(tree.format(&colorful), tree.render());
    assert_eq!(FormatterStyle::default().use_color(true).color(2, "x"), "x");
    assert_eq!(colorful.down_and_right().leading(), "├╼\u{2009}");
}
