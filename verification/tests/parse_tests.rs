use cubeviz::entity::{Color, CubeViz, Primitive};
use cubeviz::parser::{parse, ParseError};

fn rect_fill(p: &Primitive) -> Color {
    match p {
        Primitive::FilledRect { fill, .. } => *fill,
        Primitive::Label { .. } => panic!("expected a rectangle"),
    }
}

fn rect_pos(p: &Primitive) -> (i64, i64) {
    match p {
        Primitive::FilledRect { x, y, .. } => (*x, *y),
        Primitive::Label { .. } => panic!("expected a rectangle"),
    }
}

#[test]
fn face_nine_white_round_trip() {
    let cv = parse("Face { W W W W W W W W W }").unwrap();
    let d = cv.tosvg();
    assert_eq!(d.viewbox.left, -2);
    assert_eq!(d.viewbox.top, -2);
    assert_eq!(d.viewbox.width, 44);
    assert_eq!(d.viewbox.height, 44);
    assert_eq!(d.prims.len(), 9);
    for p in &d.prims {
        assert_eq!(rect_fill(p), Color::White);
        assert_eq!(rect_fill(p).rgb(), "#f9f9f9");
    }
}

#[test]
fn face_grid_is_row_major() {
    let cv = parse("Face { W Y R O B G W Y R }").unwrap();
    let d = cv.tosvg();
    let expected = [
        Color::White,
        Color::Yellow,
        Color::Red,
        Color::Orange,
        Color::Blue,
        Color::Green,
        Color::White,
        Color::Yellow,
        Color::Red,
    ];
    assert_eq!(d.prims.len(), 9);
    for k in 0..9 {
        assert_eq!(rect_fill(&d.prims[k]), expected[k]);
        let (x, y) = rect_pos(&d.prims[k]);
        assert_eq!(x, 14 * (k as i64 % 3));
        assert_eq!(y, 14 * (k as i64 / 3));
    }
}

#[test]
fn face_with_label() {
    let cv = parse("Face { label=\"Up\" W W W W W W W W W }").unwrap();
    let d = cv.tosvg();
    assert_eq!(d.prims.len(), 10);
    match &d.prims[9] {
        Primitive::Label { x, y, text, font_size } => {
            assert_eq!(text, "Up");
            assert_eq!(*x, 20);
            assert_eq!(*y, 50);
            assert_eq!(*font_size, 8);
        },
        Primitive::FilledRect { .. } => panic!("expected the label"),
    }
    assert_eq!(d.viewbox.width, 44);
    assert_eq!(d.viewbox.height, 54);
}

#[test]
fn face_three_colors_is_arity_violation() {
    assert_eq!(parse("Face { W W W }").unwrap_err(), ParseError::ArityViolation);
}

#[test]
fn face_twenty_colors_is_arity_violation() {
    let err = parse("Face { W W W W W W W W W W W W W W W W W W W W }").unwrap_err();
    assert_eq!(err, ParseError::ArityViolation);
}

#[test]
fn comment_is_invisible() {
    let with = parse("Face { // note\n W W W W W W W W W }").unwrap().tosvg();
    let without = parse("Face { W W W W W W W W W }").unwrap().tosvg();
    assert_eq!(with, without);
}

#[test]
fn face_21_slices_grid_and_strips() {
    let cv = parse("Face { Y Y Y B W W W G B W W W G B W W W G R R R }").unwrap();
    let d = cv.tosvg();
    assert_eq!(d.prims.len(), 21);
    for k in 0..9 {
        assert_eq!(rect_fill(&d.prims[k]), Color::White);
    }
    for k in 9..12 {
        assert_eq!(rect_fill(&d.prims[k]), Color::Yellow);
        let (x, y) = rect_pos(&d.prims[k]);
        assert_eq!(x, 14 * (k as i64 - 9));
        assert_eq!(y, -8);
    }
    for k in 12..15 {
        assert_eq!(rect_fill(&d.prims[k]), Color::Blue);
        let (x, y) = rect_pos(&d.prims[k]);
        assert_eq!(x, -8);
        assert_eq!(y, 14 * (k as i64 - 12));
    }
    for k in 15..18 {
        assert_eq!(rect_fill(&d.prims[k]), Color::Green);
        let (x, y) = rect_pos(&d.prims[k]);
        assert_eq!(x, 42);
        assert_eq!(y, 14 * (k as i64 - 15));
    }
    for k in 18..21 {
        assert_eq!(rect_fill(&d.prims[k]), Color::Red);
        let (x, y) = rect_pos(&d.prims[k]);
        assert_eq!(x, 14 * (k as i64 - 18));
        assert_eq!(y, 42);
    }
    assert_eq!(d.viewbox.left, -10);
    assert_eq!(d.viewbox.top, -10);
    assert_eq!(d.viewbox.width, 60);
    assert_eq!(d.viewbox.height, 60);
}

#[test]
fn cube_slices_six_faces() {
    let input = "Cube {\n W W W\n W W W\n W W W\n R R R G G G O O O B B B\n R R R G G G O O O B B B\n R R R G G G O O O B B B\n Y Y Y\n Y Y Y\n Y Y Y\n}";
    let cv = parse(input).unwrap();
    assert!(matches!(cv, CubeViz::Cube(_)));
    let d = cv.tosvg();
    assert_eq!(d.prims.len(), 54);
    // paint order: left, front, right, back, up, down
    let blocks = [
        (0, Color::Blue, 0i64, 44i64),
        (9, Color::Red, 44, 44),
        (18, Color::Green, 88, 44),
        (27, Color::Orange, 132, 44),
        (36, Color::White, 44, 0),
        (45, Color::Yellow, 44, 88),
    ];
    for (start, color, ox, oy) in blocks {
        for k in 0..9usize {
            let p = &d.prims[start + k];
            assert_eq!(rect_fill(p), color);
            let (x, y) = rect_pos(p);
            assert_eq!(x, ox + 14 * (k as i64 % 3));
            assert_eq!(y, oy + 14 * (k as i64 / 3));
        }
    }
    assert_eq!(d.viewbox.left, -2);
    assert_eq!(d.viewbox.top, -2);
    assert_eq!(d.viewbox.width, 176);
    assert_eq!(d.viewbox.height, 132);
}

#[test]
fn cube_53_colors_is_arity_violation() {
    let mut input = String::from("Cube {");
    for _ in 0..53 {
        input.push_str(" W");
    }
    input.push_str(" }");
    assert_eq!(parse(&input).unwrap_err(), ParseError::ArityViolation);
}

#[test]
fn cube_55_colors_is_arity_violation() {
    let mut input = String::from("Cube {");
    for _ in 0..55 {
        input.push_str(" W");
    }
    input.push_str(" }");
    assert_eq!(parse(&input).unwrap_err(), ParseError::ArityViolation);
}

#[test]
fn unknown_keyword_is_grammar_mismatch() {
    assert_eq!(parse("Blah { W }").unwrap_err(), ParseError::GrammarMismatch);
}

#[test]
fn empty_block_is_grammar_mismatch() {
    assert_eq!(parse("Face { }").unwrap_err(), ParseError::GrammarMismatch);
}

#[test]
fn empty_input_is_grammar_mismatch() {
    assert_eq!(parse("").unwrap_err(), ParseError::GrammarMismatch);
}

#[test]
fn recognized_escapes_are_decoded() {
    let cv = parse("Face { label=\"a\\nb\\t\\\"q\\\"\\\\\" W W W W W W W W W }").unwrap();
    let d = cv.tosvg();
    match &d.prims[9] {
        Primitive::Label { text, .. } => assert_eq!(text, "a\nb\t\"q\"\\"),
        Primitive::FilledRect { .. } => panic!("expected the label"),
    }
}

#[test]
fn unrecognized_escape_is_fatal() {
    let err = parse("Face { label=\"a\\zb\" W W W W W W W W W }").unwrap_err();
    assert_eq!(err, ParseError::EscapeSequenceError);
}

#[test]
fn empty_string_attribute_value() {
    let cv = parse("Face { label=\"\" W W W W W W W W W }").unwrap();
    let d = cv.tosvg();
    assert_eq!(d.prims.len(), 10);
    match &d.prims[9] {
        Primitive::Label { text, .. } => assert_eq!(text, ""),
        Primitive::FilledRect { .. } => panic!("expected the label"),
    }
}

#[test]
fn later_attribute_wins() {
    let cv = parse("Face { label=\"A\", label=\"B\"; W W W W W W W W W }").unwrap();
    let d = cv.tosvg();
    match &d.prims[9] {
        Primitive::Label { text, .. } => assert_eq!(text, "B"),
        Primitive::FilledRect { .. } => panic!("expected the label"),
    }
}

#[test]
fn mask_placeholder_parses() {
    let cv = parse("Face { . . . . . . . . . }").unwrap();
    let d = cv.tosvg();
    for p in &d.prims {
        assert_eq!(rect_fill(p), Color::Mask);
        assert_eq!(rect_fill(p).rgb(), "#c5c5c5");
    }
}

#[test]
fn whitespace_is_insignificant() {
    let a = parse("Face{W W W W W W W W W}").unwrap().tosvg();
    let b = parse("  Face \n {\n  W W W\n  W W W\n  W W W\n }\n").unwrap().tosvg();
    assert_eq!(a, b);
}

#[test]
fn trailing_text_is_ignored() {
    let cv = parse("Face { W W W W W W W W W } trailing").unwrap();
    assert!(matches!(cv, CubeViz::Face(_)));
}

#[test]
fn rendering_is_deterministic() {
    let cv = parse("Face { label=\"x\" Y Y Y B W W W G B W W W G B W W W G R R R }").unwrap();
    let d1 = cv.tosvg();
    let d2 = cv.tosvg();
    assert_eq!(d1, d2);
}

#[test]
fn cube_keyword_with_nine_colors_is_arity_violation() {
    let err = parse("Cube { W W W W W W W W W }").unwrap_err();
    assert_eq!(err, ParseError::ArityViolation);
}

#[test]
fn face_keyword_with_54_colors_is_arity_violation() {
    let mut input = String::from("Face {");
    for _ in 0..54 {
        input.push_str(" W");
    }
    input.push_str(" }");
    assert_eq!(parse(&input).unwrap_err(), ParseError::ArityViolation);
}

#[test]
fn unknown_attributes_are_ignored() {
    let cv = parse("Face { name=\"x\" W W W W W W W W W }").unwrap();
    let d = cv.tosvg();
    assert_eq!(d.prims.len(), 9);
    assert_eq!(d.viewbox.height, 44);
}

#[test]
fn comment_between_colors() {
    let a = parse("Face { W W W W // mid\n W W W W W }").unwrap().tosvg();
    let b = parse("Face { W W W W W W W W W }").unwrap().tosvg();
    assert_eq!(a, b);
}
