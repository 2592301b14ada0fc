use pretty_tree::formatter::Stroke;
use pretty_tree::{Formatter, FormatterStyle, TreeColumn};

fn plan(place: &Formatter) -> Vec<(String, Option<usize>)> {
    place.leading_strokes().into_iter().map(|stroke| (stroke.text, stroke.depth)).collect()
}

fn piece(text: &str, depth: Option<usize>) -> (String, Option<usize>) {
    (text.to_string(), depth)
}

#[test]
fn root_has_no_leading_stroke() {
    assert_eq!(plan(&Formatter::default()), vec![]);
}

#[test]
fn one_column_ties_the_connector_to_the_first_colour() {
    let place = Formatter::default().with_column(TreeColumn::DownAndRight);
    assert_eq!(plan(&place), vec![piece("├", Some(0)), piece("╼\u{2009}", Some(0))]);
}

#[test]
fn glyphs_take_their_own_depth_and_the_connector_the_last() {
    let place = Formatter::default()
        .with_column(TreeColumn::VerticalBar)
        .with_column(TreeColumn::Empty)
        .with_column(TreeColumn::DownThenRight);
    assert_eq!(
        plan(&place),
        vec![
            piece("│", Some(0)),
            piece("  ", None),
            piece(" ", Some(1)),
            piece("  ", None),
            piece("╰", Some(2)),
            piece("╼\u{2009}", Some(2)),
        ]
    );
    let two = Formatter::default().down_and_right().down_then_right();
    assert_eq!(
        plan(&two),
        vec![
            piece("│", Some(0)),
            piece("  ", None),
            piece("╰", Some(1)),
            piece("╼\u{2009}", Some(1)),
        ]
    );
}

#[test]
fn text_takes_the_depth_of_its_place() {
    let root = Formatter::default();
    let stroke = root.text_stroke("x");
    assert_eq!((stroke.text.as_str(), stroke.depth), ("x", Some(0)));
    let deep = root.down_and_right().down_and_right().down_then_right();
    let stroke = deep.text_stroke("value");
    assert_eq!((stroke.text.as_str(), stroke.depth), ("value", Some(3)));
}

#[test]
fn strokes_painted_without_colour_are_their_texts() {
    let style = FormatterStyle::default();
    let strokes = vec![
        Stroke { text: "a".to_string(), depth: Some(1) },
        Stroke { text: "  ".to_string(), depth: None },
        Stroke { text: "b".to_string(), depth: Some(7) },
    ];
    assert_eq!(style.paint(&strokes[0]), "a");
    assert_eq!(style.paint_all(&strokes), "a  b");
    assert_eq!(style.paint_all(&vec![]), "");
    let place = Formatter::default().down_and_right().down_then_right();
    assert_eq!(style.paint_all(&place.leading_strokes()), place.leading());
}

#[test]
fn strokes_painted_with_colour_take_the_colour_of_their_depth() {
    colored::control::set_override(true);
    let style = FormatterStyle::default().use_color(true);
    let gap = Stroke { text: "  ".to_string(), depth: None };
    assert_eq!(style.paint(&gap), "  ");
    let second = Stroke { text: "x".to_string(), depth: Some(1) };
    assert_eq!(style.paint(&second), style.color(1, "x"));
    assert_ne!(style.paint(&second), "x");
    assert_eq!(
        style.paint_all(&vec![second, gap]),
        format!("{}  ", style.color(1, "x"))
    );
}
