use tikz_painter::{CoordError, Decimal, TikzPainter, TikzPlotter};

fn dec(negative: bool, units: u64, scale: u32) -> Decimal {
    Decimal::new(negative, units, scale)
}

fn zero() -> Decimal {
    dec(false, 0, 0)
}

fn text_of(p: &TikzPainter) -> String {
    let mut s = String::new();
    p.save(&mut s);
    s
}

#[test]
fn save_test() {
    let mut painter = TikzPainter::new(dec(false, 1, 0));
    painter.draw_node(dec(false, 0, 0), dec(false, 0, 0), "1".to_string());
    painter.draw_node(dec(false, 0, 0), dec(false, 1, 1), "2".to_string());
    painter.draw_edge("1".to_string(), "2".to_string());
    let mut out = String::new();
    painter.save(&mut out);
    assert_eq!(
        out,
        "\\node[draw, circle] (1) at (0\\hsize, -0\\hsize) {1};\n\
         \\node[draw, circle] (2) at (0\\hsize, -0.1\\hsize) {2};\n\
         \\draw (1) to (2);"
    );
}

#[test]
fn node_at_origin_renders_negated_zero() {
    let mut p = TikzPainter::new(Decimal::one());
    p.draw_node(zero(), zero(), "1".to_string());
    assert_eq!(text_of(&p), r"\node[draw, circle] (1) at (0\hsize, -0\hsize) {1};");
}

#[test]
fn edge_renders_exactly() {
    let mut p = TikzPainter::new(Decimal::one());
    p.draw_edge("1".to_string(), "2".to_string());
    assert_eq!(text_of(&p), r"\draw (1) to (2);");
}

#[test]
fn three_instructions_join_without_trailing_newline() {
    let mut p = TikzPainter::new(Decimal::one());
    p.draw_node(zero(), zero(), "1".to_string());
    p.draw_node(zero(), dec(false, 1, 1), "2".to_string());
    p.draw_edge("1".to_string(), "2".to_string());
    let t = text_of(&p);
    let lines: Vec<&str> = t.split('\n').collect();
    assert_eq!(lines.len(), 3);
    assert_eq!(lines[0], r"\node[draw, circle] (1) at (0\hsize, -0\hsize) {1};");
    assert_eq!(lines[1], r"\node[draw, circle] (2) at (0\hsize, -0.1\hsize) {2};");
    assert_eq!(lines[2], r"\draw (1) to (2);");
    assert!(!t.ends_with('\n'));
}

#[test]
fn statements_follow_call_order() {
    let mut p = TikzPainter::new(dec(false, 2, 0));
    p.draw_edge("b".to_string(), "a".to_string());
    p.draw_node(dec(true, 5, 1), dec(false, 15, 1), "a".to_string());
    p.draw_edge("a".to_string(), "a".to_string());
    p.draw_node(dec(false, 1, 0), dec(true, 3, 0), "b".to_string());
    assert_eq!(
        text_of(&p),
        "\\draw (b) to (a);\n\
         \\node[draw, circle] (a) at (-0.5\\hsize, -1.5\\hsize) {a};\n\
         \\draw (a) to (a);\n\
         \\node[draw, circle] (b) at (1\\hsize, 3\\hsize) {b};"
    );
}

#[test]
fn boundary_is_inclusive() {
    let ar = dec(false, 75, 2);
    let mut p = TikzPainter::new(ar);
    assert_eq!(p.try_draw_node(Decimal::one(), ar, "c".to_string()), Ok(()));
    // the same values written with other scales
    assert_eq!(p.try_draw_node(dec(false, 1000, 3), dec(false, 750, 3), "d".to_string()), Ok(()));
    p.draw_node(dec(false, 10, 1), dec(false, 3, 1), "e".to_string());
    assert_eq!(text_of(&p).split('\n').count(), 3);
}

#[test]
fn boundary_accepts_negative_aspect_ratio() {
    let ar = dec(true, 2, 0);
    let mut p = TikzPainter::new(ar);
    assert_eq!(p.try_draw_node(Decimal::one(), ar, "n".to_string()), Ok(()));
    assert_eq!(text_of(&p), r"\node[draw, circle] (n) at (1\hsize, 2\hsize) {n};");
}

#[test]
fn x_above_one_is_rejected() {
    let mut p = TikzPainter::new(Decimal::one());
    let r = p.try_draw_node(dec(false, 10000000001, 10), zero(), "x".to_string());
    assert_eq!(r, Err(CoordError::XOutOfRange));
    assert_eq!(text_of(&p), "");
}

#[test]
fn y_above_aspect_ratio_is_rejected() {
    let mut p = TikzPainter::new(dec(false, 5, 1));
    let r = p.try_draw_node(zero(), dec(false, 5000000000000000001, 19), "y".to_string());
    assert_eq!(r, Err(CoordError::YOutOfRange));
    assert_eq!(text_of(&p), "");
}

#[test]
fn x_is_reported_before_y() {
    let mut p = TikzPainter::new(zero());
    let r = p.try_draw_node(dec(false, 2, 0), dec(false, 2, 0), "z".to_string());
    assert_eq!(r, Err(CoordError::XOutOfRange));
}

#[test]
fn edges_to_unknown_names_are_kept_verbatim() {
    let mut p = TikzPainter::new(Decimal::one());
    p.draw_node(zero(), zero(), "a".to_string());
    p.draw_edge("ghost one".to_string(), "nowhere".to_string());
    let t = text_of(&p);
    assert!(t.ends_with("\n\\draw (ghost one) to (nowhere);"));
}

#[test]
fn empty_painter_writes_nothing() {
    let p = TikzPainter::new(Decimal::one());
    let mut s = String::new();
    p.save(&mut s);
    assert_eq!(s, "");
    assert_eq!(s.len(), 0);
}

#[test]
fn save_appends_to_the_sink() {
    let mut p = TikzPainter::new(Decimal::one());
    p.draw_edge("p".to_string(), "q".to_string());
    let mut s = String::from("% head\n");
    p.save(&mut s);
    assert_eq!(s, "% head\n\\draw (p) to (q);");
}

#[test]
fn duplicate_names_are_accepted() {
    let mut p = TikzPainter::new(Decimal::one());
    p.draw_node(zero(), zero(), "k".to_string());
    p.draw_node(zero(), zero(), "k".to_string());
    let t = text_of(&p);
    assert_eq!(t.split('\n').count(), 2);
}

#[test]
fn plotter_can_be_made() {
    let _p = TikzPlotter {};
}
