use testme::hash::get_hash;

#[test]
fn adler32_of_wikipedia() {
    assert_eq!(get_hash("Wikipedia"), 0x11E6_0398);
}

#[test]
fn adler32_of_empty_text_is_one() {
    assert_eq!(get_hash(""), 1);
}

#[test]
fn adler32_of_small_bytes() {
    assert_eq!(get_hash("\u{0}\u{1}\u{2}\u{3}\u{4}\u{5}"), 0x0029_0010);
    assert_eq!(get_hash("a"), 0x0062_0062);
    assert_eq!(get_hash("rustacean"), 0x1360_03C7);
}

#[test]
fn adler32_reads_utf8_bytes() {
    // "é" is the two bytes C3 A9.
    assert_eq!(get_hash("é"), 0x0231_016D);
}
