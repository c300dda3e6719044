use csalt::text::is_whitespace;

#[test]
fn white_space_agrees_with_std_on_every_char() {
    let mut count = 0;
    for u in 0u32..=0x10FFFF {
        if let Some(c) = char::from_u32(u) {
            assert_eq!(is_whitespace(c), c.is_whitespace(), "U+{:04X}", u);
            if is_whitespace(c) {
                count += 1;
            }
        }
    }
    assert_eq!(count, 25);
}
