use rbvm::repl::Repl;
use rbvm::types::BoundedUsize;

#[test]
fn test_bounded_usize_new_clamps() {
    let low = BoundedUsize::<2, 8>::new(0);
    assert_eq!(low.value(), 2);
    let high = BoundedUsize::<2, 8>::new(12);
    assert_eq!(high.value(), 8);
    let inside = BoundedUsize::<2, 8>::new(5);
    assert_eq!(inside.value(), 5);
}

#[test]
fn test_bounded_usize_fallible_new() {
    let ok = BoundedUsize::<2, 8>::fallible_new(8);
    assert_eq!(ok.unwrap().value(), 8);
    let low = BoundedUsize::<2, 8>::fallible_new(1);
    assert_eq!(low.unwrap_err(), "Value too low");
    let high = BoundedUsize::<2, 8>::fallible_new(9);
    assert_eq!(high.unwrap_err(), "Value too high");
}

#[test]
fn test_bounded_usize_set() {
    let mut b = BoundedUsize::<0, 8>::new(3);
    b.set(100);
    assert_eq!(b.value(), 8);
    b.set(4);
    assert_eq!(b.value(), 4);
}

#[test]
fn test_repl_new() {
    let repl = Repl::new();
    assert_eq!(repl.vm.program.len(), 0);
    assert_eq!(repl.vm.pc, 0);
    assert!(repl.command_buffer.is_empty());
}

#[test]
fn test_parse_hex_valid_line() {
    let repl = Repl::new();
    assert_eq!(repl.parse_hex("1f 2a"), Some(vec![31, 42]));
    assert_eq!(repl.parse_hex("00ff"), Some(vec![255]));
    assert_eq!(repl.parse_hex("0"), Some(vec![0]));
    assert_eq!(repl.parse_hex("1F 2A"), Some(vec![31, 42]));
}

#[test]
fn test_parse_hex_leading_plus() {
    // The radix-16 byte parse admits one optional leading plus per piece.
    let repl = Repl::new();
    assert_eq!(repl.parse_hex("+1f"), Some(vec![31]));
    assert_eq!(repl.parse_hex("+0 +ff"), Some(vec![0, 255]));
    assert_eq!(repl.parse_hex("+"), None);
    assert_eq!(repl.parse_hex("++1"), None);
    assert_eq!(repl.parse_hex("-0"), None);
}

#[test]
fn test_parse_hex_invalid_lines() {
    let repl = Repl::new();
    assert_eq!(repl.parse_hex(""), None);
    assert_eq!(repl.parse_hex("zz"), None);
    assert_eq!(repl.parse_hex("1f  2a"), None);
    assert_eq!(repl.parse_hex("1f "), None);
    assert_eq!(repl.parse_hex("255"), None);
}
