use slice_server::location::{Location, Span};

fn loc(line: u64, column: u64) -> Location {
    Location { line, column }
}

#[test]
fn containment_is_inclusive_at_both_ends() {
    let span = Span { start: loc(2, 5), end: loc(4, 3) };
    assert!(loc(2, 5).is_within(&span));
    assert!(loc(4, 3).is_within(&span));
    assert!(loc(3, 100).is_within(&span));
    assert!(loc(2, 9).is_within(&span));
}

#[test]
fn containment_excludes_outside() {
    let span = Span { start: loc(2, 5), end: loc(4, 3) };
    assert!(!loc(2, 4).is_within(&span));
    assert!(!loc(1, 50).is_within(&span));
    assert!(!loc(4, 4).is_within(&span));
    assert!(!loc(5, 1).is_within(&span));
}

#[test]
fn single_point_span() {
    let span = Span { start: loc(7, 7), end: loc(7, 7) };
    assert!(loc(7, 7).is_within(&span));
    assert!(!loc(7, 8).is_within(&span));
}
