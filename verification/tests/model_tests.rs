use cubeviz::entity::{Attributes, AttributeValue, Color, Face, Primitive};
use cubeviz::parser::{commentable_spaces, identifier, parse, spaces};

#[test]
fn face_new_renders_nine_squares() {
    let w = Color::White;
    let data = [[w, w, w], [w, w, w], [w, w, w]];
    let f = Face::new(data, None, Attributes::new());
    let d = f.tosvg();
    assert_eq!(d.prims.len(), 9);
    assert_eq!(d.viewbox.width, 44);
    assert_eq!(d.viewbox.height, 44);
}

#[test]
fn face_new_with_strips_renders_twenty_one() {
    let w = Color::White;
    let y = Color::Yellow;
    let data = [[w, w, w], [w, w, w], [w, w, w]];
    let side = [[y, y, y], [y, y, y], [y, y, y], [y, y, y]];
    let f = Face::new(data, Some(side), Attributes::new());
    let d = f.tosvg();
    assert_eq!(d.prims.len(), 21);
    assert_eq!(d.viewbox.left, -10);
    assert_eq!(d.viewbox.width, 60);
}

#[test]
fn strip_viewbox_growth_is_exact() {
    let w = Color::White;
    let data = [[w, w, w], [w, w, w], [w, w, w]];
    let side = [[w, w, w], [w, w, w], [w, w, w], [w, w, w]];
    let plain = Face::new(data, None, Attributes::new()).tosvg();
    let with_strips = Face::new(data, Some(side), Attributes::new()).tosvg();
    assert_eq!(with_strips.viewbox.width, plain.viewbox.width + 16);
    assert_eq!(with_strips.viewbox.height, plain.viewbox.height + 16);
}

#[test]
fn label_viewbox_growth_is_exact() {
    let plain = parse("Face { W W W W W W W W W }").unwrap().tosvg();
    let labelled = parse("Face { label=\"t\" W W W W W W W W W }").unwrap().tosvg();
    assert_eq!(labelled.viewbox.height, plain.viewbox.height + 10);
    assert_eq!(labelled.viewbox.width, plain.viewbox.width);
}

#[test]
fn cube_from_assembles_net_rows() {
    let lines: Vec<Vec<Color>> = vec![
        vec![Color::White; 3],
        vec![Color::White; 3],
        vec![Color::White; 3],
        vec![Color::Red; 12],
        vec![Color::Red; 12],
        vec![Color::Red; 12],
        vec![Color::Yellow; 3],
        vec![Color::Yellow; 3],
        vec![Color::Yellow; 3],
    ];
    let cube = cubeviz::entity::Cube::from(lines, Attributes::new());
    let d = cube.tosvg();
    assert_eq!(d.prims.len(), 54);
    // up block sits at (44, 0) and is white
    match &d.prims[36] {
        Primitive::FilledRect { x, y, fill, .. } => {
            assert_eq!((*x, *y), (44, 0));
            assert_eq!(*fill, Color::White);
        },
        Primitive::Label { .. } => panic!("expected a rectangle"),
    }
    // down block sits at (44, 88) and is yellow
    match &d.prims[45] {
        Primitive::FilledRect { x, y, fill, .. } => {
            assert_eq!((*x, *y), (44, 88));
            assert_eq!(*fill, Color::Yellow);
        },
        Primitive::Label { .. } => panic!("expected a rectangle"),
    }
}

#[test]
fn attributes_last_write_wins() {
    let mut attrs = Attributes::new();
    attrs.insert(String::from("label"), AttributeValue::Str(String::from("a")));
    attrs.insert(String::from("other"), AttributeValue::Str(String::from("x")));
    attrs.insert(String::from("label"), AttributeValue::Str(String::from("b")));
    match attrs.get("label") {
        Some(AttributeValue::Str(s)) => assert_eq!(s, "b"),
        None => panic!("label must be present"),
    }
    match attrs.get("other") {
        Some(AttributeValue::Str(s)) => assert_eq!(s, "x"),
        None => panic!("other must be present"),
    }
    assert!(attrs.get("missing").is_none());
}

#[test]
fn color_hex_codes() {
    assert_eq!(Color::White.rgb(), "#f9f9f9");
    assert_eq!(Color::Yellow.rgb(), "#ee4");
    assert_eq!(Color::Red.rgb(), "#f77");
    assert_eq!(Color::Orange.rgb(), "#fa4");
    assert_eq!(Color::Blue.rgb(), "#77f");
    assert_eq!(Color::Green.rgb(), "#7f7");
    assert_eq!(Color::Mask.rgb(), "#c5c5c5");
}

#[test]
fn spaces_consumes_whitespace_run() {
    let t: Vec<char> = "  \n\tx".chars().collect();
    assert_eq!(spaces(&t, 0), 4);
    assert_eq!(spaces(&t, 4), 4);
}

#[test]
fn commentable_spaces_skips_comments() {
    let t: Vec<char> = " // note\n  x".chars().collect();
    assert_eq!(commentable_spaces(&t, 0), 11);
    let u: Vec<char> = "// a\n// b\nx".chars().collect();
    assert_eq!(commentable_spaces(&u, 0), 10);
}

#[test]
fn identifier_recognition() {
    let t: Vec<char> = "label=1".chars().collect();
    match identifier(&t, 0) {
        Some((e, name)) => {
            assert_eq!(e, 5);
            assert_eq!(name, "label");
        },
        None => panic!("identifier expected"),
    }
    let u: Vec<char> = "#x9 ".chars().collect();
    match identifier(&u, 0) {
        Some((e, name)) => {
            assert_eq!(e, 3);
            assert_eq!(name, "#x9");
        },
        None => panic!("identifier expected"),
    }
    let v: Vec<char> = "1abc".chars().collect();
    assert!(identifier(&v, 0).is_none());
}
