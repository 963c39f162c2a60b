use kokoro_tts::split_sentences;

#[test]
fn test_split_sentences() {
    let sentences = split_sentences("Hello world. How are you? I'm fine!");
    assert_eq!(sentences.len(), 3);
    assert_eq!(sentences[0], "Hello world.");
    assert_eq!(sentences[1], "How are you?");
    assert_eq!(sentences[2], "I'm fine!");
}

#[test]
fn test_split_sentences_no_punctuation() {
    let sentences = split_sentences("Hello world");
    assert_eq!(sentences.len(), 1);
    assert_eq!(sentences[0], "Hello world");
}

#[test]
fn test_split_sentences_empty() {
    let sentences = split_sentences("");
    assert!(sentences.is_empty());
}

#[test]
fn split_sentences_trims_and_drops_blank_pieces() {
    assert_eq!(split_sentences("   Hello world \n"), vec!["Hello world"]);
    assert!(split_sentences(" \t\n ").is_empty());
    assert_eq!(split_sentences("One.  Two."), vec!["One.", "Two."]);
}

#[test]
fn split_sentences_needs_white_space_behind_the_mark() {
    assert_eq!(split_sentences("v1.2 is out.Really"), vec!["v1.2 is out.Really"]);
    assert_eq!(split_sentences("Wait... what?"), vec!["Wait...", "what?"]);
    assert_eq!(split_sentences("End.\u{2014}Next"), vec!["End.\u{2014}Next"]);
}

#[test]
fn a_sentence_ends_before_any_white_space() {
    assert_eq!(split_sentences("Hello.\nWorld."), vec!["Hello.", "World."]);
    assert_eq!(split_sentences("One!\tTwo?\r\nThree.\u{a0}Four"), vec!["One!", "Two?", "Three.", "Four"]);
    assert_eq!(split_sentences("A.\n\nB."), vec!["A.", "B."]);
    assert_eq!(split_sentences("Stop.\u{3000}Go"), vec!["Stop.", "Go"]);
}
