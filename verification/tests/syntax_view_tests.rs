use buddhabrot::complex_literal::{split_complex_literal, ComplexLiteral, Imaginary, Span};
use buddhabrot::view::{longer_size, offset_from_centre, view_cell};

fn span(start: usize, end: usize) -> Span {
    Span { start, end }
}

#[test]
fn real_only() {
    assert_eq!(
        split_complex_literal(b"-0.75"),
        Ok(ComplexLiteral { real_part: Some(span(0, 5)), imaginary_part: Imaginary::Absent })
    );
}

#[test]
fn real_and_imaginary() {
    assert_eq!(
        split_complex_literal(b"2+3i"),
        Ok(ComplexLiteral { real_part: Some(span(0, 1)), imaginary_part: Imaginary::Digits(span(1, 3)) })
    );
    assert_eq!(
        split_complex_literal(b"-1.5-0.25i"),
        Ok(ComplexLiteral { real_part: Some(span(0, 4)), imaginary_part: Imaginary::Digits(span(4, 9)) })
    );
}

#[test]
fn unit_imaginary_parts() {
    assert_eq!(
        split_complex_literal(b"1+i"),
        Ok(ComplexLiteral { real_part: Some(span(0, 1)), imaginary_part: Imaginary::Unit })
    );
    assert_eq!(
        split_complex_literal(b"1-i"),
        Ok(ComplexLiteral { real_part: Some(span(0, 1)), imaginary_part: Imaginary::NegativeUnit })
    );
    assert_eq!(split_complex_literal(b"i"), Ok(ComplexLiteral { real_part: None, imaginary_part: Imaginary::Unit }));
    assert_eq!(
        split_complex_literal(b"-i"),
        Ok(ComplexLiteral { real_part: None, imaginary_part: Imaginary::NegativeUnit })
    );
}

#[test]
fn imaginary_only() {
    assert_eq!(
        split_complex_literal(b"3i"),
        Ok(ComplexLiteral { real_part: None, imaginary_part: Imaginary::Digits(span(0, 1)) })
    );
    assert_eq!(
        split_complex_literal(b"-3i"),
        Ok(ComplexLiteral { real_part: None, imaginary_part: Imaginary::Digits(span(0, 2)) })
    );
}

#[test]
fn exponent_sign_is_taken_as_the_separator() {
    assert_eq!(
        split_complex_literal(b"1e-5i"),
        Ok(ComplexLiteral { real_part: Some(span(0, 2)), imaginary_part: Imaginary::Digits(span(2, 4)) })
    );
}

#[test]
fn empty_literal_is_refused() {
    assert_eq!(split_complex_literal(b""), Err("No value provided".to_string()));
}

#[test]
fn view_geometry() {
    assert_eq!(longer_size(640, 480), 640);
    assert_eq!(longer_size(3, 7), 7);
    assert_eq!(offset_from_centre(0, 1024), -512);
    assert_eq!(offset_from_centre(5, 11), 0);
    assert_eq!(view_cell(0, 0, 10, 6), Some((5, 3)));
    assert_eq!(view_cell(-5, -3, 10, 6), Some((0, 0)));
    assert_eq!(view_cell(5, 0, 10, 6), None);
    assert_eq!(view_cell(0, -4, 10, 6), None);
    assert_eq!(offset_from_centre(0, -3), 1);
}
