use clox::line_number::{LineFault, LineNumber};

#[test]
fn test_init() {
    let ln = LineNumber::new();
    assert_eq!(ln.get_line(42), 0)
}

#[test]
fn test_add_lines() {
    let mut ln = LineNumber::new();
    ln.add_line(1).unwrap();
    ln.add_line(1).unwrap();
    ln.add_line(2).unwrap();
    ln.add_line(3).unwrap();
    ln.add_line(3).unwrap();
    ln.add_line(3).unwrap();
    ln.add_line(42).unwrap();

    assert_eq!(ln.get_line(0), 1);
    assert_eq!(ln.get_line(1), 1);
    assert_eq!(ln.get_line(2), 2);
    assert_eq!(ln.get_line(3), 3);
    assert_eq!(ln.get_line(4), 3);
    assert_eq!(ln.get_line(5), 3);
    assert_eq!(ln.get_line(6), 42);
}

#[test]
fn zero_line_is_refused_on_empty_table() {
    let mut ln = LineNumber::new();
    assert_eq!(ln.add_line(0), Err(LineFault::ZeroLine));
    assert_eq!(ln.get_line(0), 0);
}

#[test]
fn zero_line_is_refused_after_records() {
    let mut ln = LineNumber::new();
    ln.add_line(3).unwrap();
    assert_eq!(ln.add_line(0), Err(LineFault::ZeroLine));
    assert_eq!(ln.get_line(0), 3);
    assert_eq!(ln.get_line(1), 0);
}

#[test]
fn decreasing_line_is_refused() {
    let mut ln = LineNumber::new();
    ln.add_line(10).unwrap();
    assert_eq!(ln.add_line(1), Err(LineFault::Decreasing));
    assert_eq!(ln.add_line(9), Err(LineFault::Decreasing));
    ln.add_line(10).unwrap();
    ln.add_line(11).unwrap();
    assert_eq!(ln.add_line(10), Err(LineFault::Decreasing));
    assert_eq!(ln.get_line(0), 10);
    assert_eq!(ln.get_line(1), 10);
    assert_eq!(ln.get_line(2), 11);
    assert_eq!(ln.get_line(3), 0);
}

#[test]
fn empty_table_gives_zero_everywhere() {
    let ln = LineNumber::new();
    assert_eq!(ln.get_line(0), 0);
    assert_eq!(ln.get_line(1), 0);
    assert_eq!(ln.get_line(usize::MAX), 0);
}

#[test]
fn offsets_past_the_end_give_zero() {
    let mut ln = LineNumber::new();
    ln.add_line(5).unwrap();
    ln.add_line(7).unwrap();
    assert_eq!(ln.get_line(1), 7);
    assert_eq!(ln.get_line(2), 0);
    assert_eq!(ln.get_line(100), 0);
}

#[test]
fn each_offset_maps_to_its_recorded_line() {
    let lines: Vec<usize> = vec![1, 1, 1, 2, 4, 4, 9, 9, 9, 9, 10];
    let mut ln = LineNumber::new();
    for &l in &lines {
        ln.add_line(l).unwrap();
    }
    for (i, &l) in lines.iter().enumerate() {
        assert_eq!(ln.get_line(i), l);
    }
    assert_eq!(ln.get_line(lines.len()), 0);
}
