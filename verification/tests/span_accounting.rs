use loc_checker::span::measure_span;
use loc_checker::syntax::Span;

fn lines() -> Vec<bool> {
    // line: 1     2      3     4     5      6
    vec![true, false, true, true, false, true]
}

#[test]
fn counts_only_lines_with_content() {
    assert_eq!(measure_span(&lines(), &Span::new(1, 6)), Some(4));
    assert_eq!(measure_span(&lines(), &Span::new(1, 1)), Some(1));
    assert_eq!(measure_span(&lines(), &Span::new(2, 4)), Some(2));
    assert_eq!(measure_span(&lines(), &Span::new(3, 4)), Some(2));
    assert_eq!(measure_span(&lines(), &Span::new(6, 6)), Some(1));
}

#[test]
fn no_count_for_a_file_without_lines() {
    assert_eq!(measure_span(&Vec::new(), &Span::new(1, 1)), None);
    assert_eq!(measure_span(&Vec::new(), &Span::new(1, 10)), None);
}

#[test]
fn no_count_for_an_unresolved_position() {
    assert_eq!(measure_span(&lines(), &Span::new(0, 3)), None);
    assert_eq!(measure_span(&lines(), &Span::new(3, 0)), None);
    assert_eq!(measure_span(&lines(), &Span::new(0, 0)), None);
}

#[test]
fn end_past_the_last_line_is_brought_down() {
    assert_eq!(measure_span(&lines(), &Span::new(4, 100)), Some(2));
    assert_eq!(measure_span(&lines(), &Span::new(1, usize::MAX)), Some(4));
    assert_eq!(measure_span(&lines(), &Span::new(6, 7)), Some(1));
}

#[test]
fn no_count_for_an_empty_range() {
    assert_eq!(measure_span(&lines(), &Span::new(4, 3)), None);
    assert_eq!(measure_span(&lines(), &Span::new(7, 9)), None);
    assert_eq!(measure_span(&lines(), &Span::new(usize::MAX, usize::MAX)), None);
}

#[test]
fn no_count_for_a_range_of_blank_lines() {
    assert_eq!(measure_span(&lines(), &Span::new(2, 2)), None);
    assert_eq!(measure_span(&lines(), &Span::new(5, 5)), None);
    assert_eq!(measure_span(&vec![false, false], &Span::new(1, 2)), None);
}

#[test]
fn a_count_is_never_zero() {
    let flags = lines();
    for start in 0..9 {
        for end in 0..9 {
            if let Some(count) = measure_span(&flags, &Span::new(start, end)) {
                assert!(count > 0);
                assert!(count <= end - start + 1);
            }
        }
    }
}
