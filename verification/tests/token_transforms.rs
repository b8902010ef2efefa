use b_cleaner::{
    decode_token_html_entities, remove_token_digit, remove_token_digit_and_punctuation,
    remove_token_non_ascii_chars, remove_token_punctuation, token_to_lowercase, token_trim,
    unidecode_token, Token,
};

#[test]
fn test_remove_digit_and_punctuation() {
    let mut token = Token::new("W.#");

    remove_token_digit_and_punctuation(&mut token);
    let t = token.text();
    assert_eq!(t, "W");
}

#[test]
fn test_decode_token_html_entities() {
    let mut token = Token::new("&amp;");
    decode_token_html_entities(&mut token);

    assert_eq!(token.text(), "&");
    assert!(token.is_owned());
}

#[test]
fn hyphen_interior_is_preserved_without_allocation() {
    let mut token = Token::new("well-known");
    remove_token_digit_and_punctuation(&mut token);
    assert_eq!(token.text(), "well-known");
    assert!(!token.is_owned());
}

#[test]
fn boundary_hyphens_are_stripped() {
    let mut leading = Token::new("-known");
    remove_token_digit_and_punctuation(&mut leading);
    assert_eq!(leading.text(), "known");
    assert!(leading.is_owned());

    let mut trailing = Token::new("known-");
    remove_token_digit_and_punctuation(&mut trailing);
    assert_eq!(trailing.text(), "known");
    assert!(trailing.is_owned());
}

#[test]
fn lowercase_folds_only_when_needed() {
    let mut upper = Token::new("LoReM");
    token_to_lowercase(&mut upper);
    assert_eq!(upper.text(), "lorem");
    assert!(upper.is_owned());

    let mut lower = Token::new("lorem");
    token_to_lowercase(&mut lower);
    assert_eq!(lower.text(), "lorem");
    assert!(!lower.is_owned());
}

#[test]
fn trim_removes_boundary_whitespace_only() {
    let mut padded = Token::new(" lorem \t");
    token_trim(&mut padded);
    assert_eq!(padded.text(), "lorem");
    assert!(padded.is_owned());

    let mut inner = Token::new("lorem ipsum");
    token_trim(&mut inner);
    assert_eq!(inner.text(), "lorem ipsum");
    assert!(!inner.is_owned());
}

#[test]
fn transliteration_replaces_accented_characters() {
    let mut token = Token::new("ezrà");
    unidecode_token(&mut token);
    assert_eq!(token.text(), "ezra");
    assert!(token.is_owned());

    let mut ascii = Token::new("ezra");
    unidecode_token(&mut ascii);
    assert_eq!(ascii.text(), "ezra");
    assert!(!ascii.is_owned());
}

#[test]
fn non_ascii_strip_removes_remaining_characters() {
    let mut token = Token::new("abé");
    remove_token_non_ascii_chars(&mut token);
    assert_eq!(token.text(), "ab");
    assert!(token.is_owned());
}

#[test]
fn digit_strip_removes_digits_only() {
    let mut token = Token::new("a1b2");
    remove_token_digit(&mut token);
    assert_eq!(token.text(), "ab");
}

#[test]
fn punctuation_strip_spares_digits_and_interior_hyphen() {
    let mut token = Token::new("w1.");
    remove_token_punctuation(&mut token);
    assert_eq!(token.text(), "w1");

    let mut compound = Token::new("a-1!");
    remove_token_punctuation(&mut compound);
    assert_eq!(compound.text(), "a-1");
}

#[test]
fn malformed_entity_is_left_unchanged() {
    let mut token = Token::new("&nosuchentity;");
    decode_token_html_entities(&mut token);
    assert_eq!(token.text(), "&nosuchentity;");
    assert!(!token.is_owned());
}
