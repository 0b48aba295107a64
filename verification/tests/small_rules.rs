use miassistant::adb::strip_line;
use miassistant::util::adb_server::fail_length;
use miassistant::validate::can_seal;

#[test]
fn fail_length_reads_four_hex_digits() {
    assert_eq!(fail_length(b"0000"), Some(0));
    assert_eq!(fail_length(b"001f"), Some(31));
    assert_eq!(fail_length(b"FfFf"), Some(0xffff));
    assert_eq!(fail_length(b"+abc"), Some(0xabc));
    assert_eq!(fail_length(b"+00g"), None);
    assert_eq!(fail_length(b"++12"), None);
    assert_eq!(fail_length(b"12 3"), None);
    assert_eq!(fail_length(b"-123"), None);
    assert_eq!(fail_length(&[0x31, 0x32, 0x33, 0xff]), None);
}

#[test]
fn sealing_fits_ordinary_lengths() {
    assert!(can_seal(0));
    assert!(can_seal(1 << 20));
    assert!(!can_seal(usize::MAX));
    assert!(!can_seal(usize::MAX - 15));
    assert!(!can_seal(usize::MAX / 4 * 3));
}

#[test]
fn strip_line_cuts_line_ends_only() {
    assert_eq!(strip_line("garnet\n"), "garnet");
    assert_eq!(strip_line("garnet\r\n\n\r"), "garnet");
    assert_eq!(strip_line("\ngarnet"), "\ngarnet");
    assert_eq!(strip_line("garnet \t"), "garnet \t");
    assert_eq!(strip_line("\r\n"), "");
    assert_eq!(strip_line(""), "");
}
