use hello_counter::counter_loop;
use hello_counter::decimal_digits;
use hello_counter::render_line;

#[test]
fn counter_loop_returns_eleven() {
    let (value, _lines) = counter_loop();
    assert_eq!(value, 11);
}

#[test]
fn counter_loop_emits_nine_lines_in_order() {
    let (_value, lines) = counter_loop();
    assert_eq!(lines.len(), 9);
    assert_eq!(lines[0], b"Hello, world: 2!".to_vec());
    assert_eq!(lines[1], b"Hello, world: 3!".to_vec());
    assert_eq!(lines[2], b"Hello, world: 4!".to_vec());
    assert_eq!(lines[3], b"Hello, world: 5!".to_vec());
    assert_eq!(lines[4], b"Hello, world: 6!".to_vec());
    assert_eq!(lines[5], b"Hello, world: 7!".to_vec());
    assert_eq!(lines[6], b"Hello, world: 8!".to_vec());
    assert_eq!(lines[7], b"Hello, world: 9!".to_vec());
    assert_eq!(lines[8], b"Hello, world: 10!".to_vec());
}

#[test]
fn no_line_for_eleven_or_below_two() {
    let (_value, lines) = counter_loop();
    for line in &lines {
        assert_ne!(*line, b"Hello, world: 11!".to_vec());
        assert_ne!(*line, b"Hello, world: 0!".to_vec());
        assert_ne!(*line, b"Hello, world: 1!".to_vec());
    }
}

#[test]
fn reruns_are_identical() {
    let first = counter_loop();
    let second = counter_loop();
    let third = counter_loop();
    assert_eq!(first, second);
    assert_eq!(first, third);
}

#[test]
fn stub_returns_ninety_nine() {
    assert_eq!(hello_counter::test(), 99u8);
}

#[test]
fn decimal_digits_single_and_multi() {
    assert_eq!(decimal_digits(0), b"0".to_vec());
    assert_eq!(decimal_digits(7), b"7".to_vec());
    assert_eq!(decimal_digits(10), b"10".to_vec());
    assert_eq!(decimal_digits(99), b"99".to_vec());
    assert_eq!(decimal_digits(12345), b"12345".to_vec());
    assert_eq!(decimal_digits(u64::MAX), b"18446744073709551615".to_vec());
}

#[test]
fn render_line_matches_pattern() {
    assert_eq!(render_line(2), b"Hello, world: 2!".to_vec());
    assert_eq!(render_line(10), b"Hello, world: 10!".to_vec());
}
