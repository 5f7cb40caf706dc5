use micro1_asm::emit::{emit, format_line};

#[test]
fn line_pads_address_and_word() {
    assert_eq!(format_line(0, 0), "000  0000000000");
    assert_eq!(format_line(0x00A, 0xFFFFF8FE00), "00A  FFFFF8FE00");
    assert_eq!(format_line(0xABC, 0x1A1C3FFE05), "ABC  1A1C3FFE05");
    assert_eq!(format_line(0xFFF, 0x0000000001), "FFF  0000000001");
}

#[test]
fn line_uses_upper_case_digits() {
    assert_eq!(format_line(0xDEF, 0xABCDEF0123), "DEF  ABCDEF0123");
    assert_eq!(format_line(0x9A0, 0x456789ABCD), "9A0  456789ABCD");
}

#[test]
fn wide_values_take_the_digits_they_need() {
    assert_eq!(format_line(0x1000, 0x10000000000), "1000  10000000000");
    assert_eq!(format_line(0xFFFF, 0xFFFFFFFFFFFFFFFF), "FFFF  FFFFFFFFFFFFFFFF");
}

#[test]
fn listing_starts_with_the_title() {
    assert_eq!(emit("HELLO", &vec![]), "CM HELLO");
    assert_eq!(emit("", &vec![]), "CM ");
}

#[test]
fn listing_has_one_line_for_each_word() {
    let words = vec![(0x000, 0xFFFFF8FE00), (0x010, 0x1A1C3FFE05), (0x011, 0)];
    assert_eq!(
        emit("DEMO", &words),
        "CM DEMO\n000  FFFFF8FE00\n010  1A1C3FFE05\n011  0000000000"
    );
}
