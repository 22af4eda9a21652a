use matrix_rain::letter::{glyph_for_index, make_matrix_character, MAX_GLYPH_INDEX};

#[test]
fn glyph_digits() {
    assert_eq!(glyph_for_index(0), '0');
    assert_eq!(glyph_for_index(5), '5');
    assert_eq!(glyph_for_index(9), '9');
}

#[test]
fn glyph_lower_case() {
    assert_eq!(glyph_for_index(10), 'a');
    assert_eq!(glyph_for_index(20), 'k');
    assert_eq!(glyph_for_index(33), 'x');
}

#[test]
fn glyph_upper_case() {
    assert_eq!(glyph_for_index(34), 'A');
    assert_eq!(glyph_for_index(50), 'Q');
    assert_eq!(glyph_for_index(MAX_GLYPH_INDEX), 'Y');
}

#[test]
fn glyphs_are_distinct() {
    let mut seen: Vec<char> = Vec::new();
    for r in 0..=MAX_GLYPH_INDEX {
        let c = glyph_for_index(r);
        assert!(!seen.contains(&c));
        assert!(c.is_ascii_alphanumeric());
        seen.push(c);
    }
    assert_eq!(seen.len(), 59);
    assert!(!seen.contains(&'z'));
    assert!(!seen.contains(&'Z'));
}

#[test]
fn random_character_is_one_glyph() {
    let mut saw_digit = false;
    let mut saw_letter = false;
    for _ in 0..2000 {
        let s = make_matrix_character();
        assert_eq!(s.chars().count(), 1);
        let c = s.chars().next().unwrap();
        let in_alphabet = ('0'..='9').contains(&c) || ('a'..='x').contains(&c) || ('A'..='Y').contains(&c);
        assert!(in_alphabet, "unexpected glyph {:?}", c);
        saw_digit |= c.is_ascii_digit();
        saw_letter |= c.is_ascii_alphabetic();
    }
    assert!(saw_digit && saw_letter);
}
