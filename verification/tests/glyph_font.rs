use obs_rs::glyphs::glyph_rows;

#[test]
fn lowercase_letters_share_the_uppercase_glyphs() {
    assert_eq!(glyph_rows('a'), glyph_rows('A'));
    assert_eq!(
        glyph_rows('A'),
        [0b01110, 0b10001, 0b10001, 0b11111, 0b10001, 0b10001, 0b10001]
    );
    assert_eq!(glyph_rows('z'), glyph_rows('Z'));
}

#[test]
fn digits_and_punctuation_have_their_own_glyphs() {
    assert_eq!(
        glyph_rows('7'),
        [0b11111, 0b00001, 0b00010, 0b00100, 0b01000, 0b01000, 0b01000]
    );
    assert_eq!(
        glyph_rows('/'),
        [0b00001, 0b00010, 0b00100, 0b01000, 0b10000, 0b00000, 0b00000]
    );
}

#[test]
fn space_is_blank_and_unknown_characters_are_boxed() {
    assert_eq!(glyph_rows(' '), [0; 7]);
    let boxed = [0b11111, 0b10001, 0b10101, 0b10001, 0b10101, 0b10001, 0b11111];
    assert_eq!(glyph_rows('~'), boxed);
    assert_eq!(glyph_rows('é'), boxed);
}
