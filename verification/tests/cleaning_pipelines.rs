use b_cleaner::{
    clean_author, clean_title, remove_tokens_between_delimiters,
    tokens_split_at_strong_punctuation, AuthorCleaner, Clean, StemAlgorithm, TextCleaner,
    TitleCleaner, Token,
};

fn tokens_of(words: &[&str]) -> Vec<Token> {
    words.iter().map(|w| Token::new(w)).collect()
}

fn strings_of(words: &[&str]) -> Vec<String> {
    words.iter().map(|w| w.to_string()).collect()
}

fn texts_of(tokens: &Vec<Token>) -> Vec<String> {
    tokens.iter().map(|t| t.text()).collect()
}

#[test]
fn test_remove_tokens_between_delimiters() {
    let mut input = tokens_of(&["abcdef", "(ezrà)", "sdfq", "(sss)"]);

    remove_tokens_between_delimiters(&mut input, ("(", ")"));
    assert_eq!(texts_of(&input), strings_of(&["abcdef", "sdfq"]));
}

#[test]
fn test_author_cleaner() {
    let tokens = strings_of(&["John", "W.", "Doe", "(1950-2018)"]);
    let mut author = AuthorCleaner::new(&tokens);

    author.clean();

    assert_eq!(texts_of(author.tokens()), strings_of(&["john", "w", "doe"]));
}

#[test]
fn balanced_delimiter_spans_are_removed() {
    let mut input = tokens_of(&["lorem", "(ipsum", "dolor)", "sit", "amet"]);
    remove_tokens_between_delimiters(&mut input, ("(", ")"));
    assert_eq!(texts_of(&input), strings_of(&["lorem", "sit", "amet"]));
}

#[test]
fn unterminated_delimiter_span_is_kept() {
    let mut input = tokens_of(&["a", "(b", "c"]);
    remove_tokens_between_delimiters(&mut input, ("(", ")"));
    assert_eq!(texts_of(&input), strings_of(&["a", "(b", "c"]));
}

#[test]
fn subtitle_is_truncated_at_strong_punctuation() {
    let mut input = tokens_of(&["Lorem", "ipsum", "dolor", ":", "sit", "amet"]);
    tokens_split_at_strong_punctuation(&mut input);
    assert_eq!(texts_of(&input), strings_of(&["Lorem", "ipsum", "dolor"]));
}

#[test]
fn title_cleaning_drops_subtitle_and_lowercases() {
    let tokens = strings_of(&["Lorem", "ipsum", "dolor", ":", "sit", "amet"]);
    let mut title = TitleCleaner::new(&tokens);
    title.clean();
    assert_eq!(texts_of(title.tokens()), strings_of(&["lorem", "ipsum", "dolor"]));
}

#[test]
fn author_cleaning_strips_dates_and_initials() {
    let tokens = strings_of(&["John", "W.", "Doe", "(1950-2020)"]);
    let mut author = AuthorCleaner::new(&tokens);
    author.clean();
    assert_eq!(texts_of(author.tokens()), strings_of(&["john", "w", "doe"]));
}

#[test]
fn min_length_filter_is_inclusive_at_the_threshold() {
    let tokens = strings_of(&["Lorem", "ipsum", "dolor", "sit", "amet"]);
    let mut title = TitleCleaner::new(&tokens);
    title.clean();
    assert_eq!(texts_of(title.tokens()), strings_of(&["lorem", "ipsum", "dolor", "amet"]));
}

#[test]
fn text_cleaning_with_default_threshold() {
    let tokens = strings_of(&["Lorem", "ipsum", "dolor", ":", "sit", "amet"]);
    let mut text = TextCleaner::new(&tokens);
    text.clean();
    assert_eq!(texts_of(text.tokens()), strings_of(&["lorem", "ipsum", "dolor", "amet"]));
}

#[test]
fn threshold_can_be_reconfigured() {
    let tokens = strings_of(&["Lorem", "ipsum", "dolor", ":", "sit", "amet"]);
    let mut text = TextCleaner::new(&tokens);
    text.token_min_lenght(4);
    text.clean();
    assert_eq!(texts_of(text.tokens()), strings_of(&["lorem", "ipsum", "dolor"]));
}

#[test]
fn cleaning_twice_changes_nothing() {
    let tokens = strings_of(&["Lorem", "ipsum", "dolor", ":", "sit", "amet"]);
    let mut title = TitleCleaner::new(&tokens);
    title.clean();
    let once = texts_of(title.tokens());
    title.clean();
    assert_eq!(texts_of(title.tokens()), once);

    let names = strings_of(&["John", "W.", "Doe", "(1950-2020)"]);
    let mut author = AuthorCleaner::new(&names);
    author.clean();
    let cleaned_once = texts_of(author.tokens());
    author.clean();
    assert_eq!(texts_of(author.tokens()), cleaned_once);
}

#[test]
fn surviving_tokens_keep_their_order() {
    let tokens = strings_of(&["alpha", "x", "bravo", "y", "charlie"]);
    let mut text = TextCleaner::new(&tokens);
    text.clean();
    assert_eq!(texts_of(text.tokens()), strings_of(&["alpha", "bravo", "charlie"]));
}

#[test]
fn untouched_tokens_are_not_reallocated() {
    let tokens = strings_of(&["lorem", "IPSUM"]);
    let mut text = TextCleaner::new(&tokens);
    text.clean();
    let out = text.tokens();
    assert_eq!(out[0].text(), "lorem");
    assert!(!out[0].is_owned());
    assert_eq!(out[1].text(), "ipsum");
    assert!(out[1].is_owned());
}

#[test]
fn stemming_replaces_tokens_with_their_stems() {
    let tokens = strings_of(&["fruitlessly"]);
    let mut text = TextCleaner::new(&tokens);
    text.clean();
    text.stem(StemAlgorithm::English);
    assert_eq!(texts_of(text.tokens()), strings_of(&["fruitless"]));
}

#[test]
fn entity_decoding_is_off_by_default_and_gated() {
    let tokens = strings_of(&["&quot;Lorem&quot;"]);

    let mut plain = TitleCleaner::new(&tokens);
    plain.clean();
    assert_eq!(texts_of(plain.tokens()), strings_of(&["quotloremquot"]));

    let mut decoding = TitleCleaner::new(&tokens);
    decoding.decode_html(true);
    decoding.clean();
    assert_eq!(texts_of(decoding.tokens()), strings_of(&["lorem"]));
}

#[test]
fn bracketed_spans_are_removed_too() {
    let tokens = strings_of(&["lorem", "[ipsum", "dolor]", "amet"]);
    let mut title = TitleCleaner::new(&tokens);
    title.clean();
    assert_eq!(texts_of(title.tokens()), strings_of(&["lorem", "amet"]));
}

#[test]
fn accented_titles_are_transliterated() {
    let input = strings_of(&["étude", "symphonique"]);
    assert_eq!(clean_title(&input), strings_of(&["etude", "symphonique"]));
}

#[test]
fn clean_title_entry_point_returns_strings() {
    let input = strings_of(&["Lorem", "ipsum", "dolor", ":", "sit", "amet"]);
    assert_eq!(clean_title(&input), strings_of(&["lorem", "ipsum", "dolor"]));
}

#[test]
fn clean_author_entry_point_returns_strings() {
    let input = strings_of(&["John", "W.", "Doe", "(1950-2020)"]);
    assert_eq!(clean_author(&input), strings_of(&["john", "w", "doe"]));
}

#[test]
fn empty_and_fully_filtered_inputs_yield_empty_output() {
    let empty: Vec<String> = Vec::new();
    assert_eq!(clean_title(&empty), Vec::<String>::new());

    let dots = strings_of(&["...."]);
    assert_eq!(clean_author(&dots), Vec::<String>::new());
}
