use kokoro_tts::prompts::{
    build_continuation_prompt, build_story_prompt, build_summary_prompt, build_system_prompt,
};

#[test]
fn system_prompt_contains_required_elements() {
    let prompt = build_system_prompt("Adventure", "Exciting journeys and brave heroes");
    assert!(prompt.contains("children"));
    assert!(prompt.contains("Adventure"));
    assert!(prompt.contains("Exciting journeys"));
}

#[test]
fn story_prompt_with_hint() {
    let prompt = build_story_prompt(Some("A brave cat"));
    assert!(prompt.contains("A brave cat"));
}

#[test]
fn story_prompt_without_hint() {
    let prompt = build_story_prompt(None);
    assert!(prompt.contains("original"));
}

#[test]
fn continuation_prompt_includes_summary() {
    let prompt = build_continuation_prompt("A rabbit went on a journey.", 2);
    assert!(prompt.contains("Part 2"));
    assert!(prompt.contains("A rabbit went on a journey."));
}

#[test]
fn summary_prompt_includes_text() {
    let prompt = build_summary_prompt("Once upon a time...");
    assert!(prompt.contains("Once upon a time..."));
}

#[test]
fn the_system_prompt_is_this_text() {
    let expected = format!(
        "You are a creative storyteller who writes engaging children's stories in English.\n\nGenre: {} - {}\n\nGuidelines:\n- Write stories suitable for children ages 4-10\n- Use simple, vivid language that children can understand\n- Include descriptive scenes that spark imagination\n- Keep stories positive and uplifting\n- Stories should be 300-500 words\n- Include dialogue between characters\n- End with a satisfying conclusion or gentle lesson\n- Do NOT include any meta-commentary or instructions - just tell the story",
        "Fable", "Animals that talk"
    );
    assert_eq!(build_system_prompt("Fable", "Animals that talk"), expected);
}

#[test]
fn the_story_prompts_are_these_texts() {
    assert_eq!(
        build_story_prompt(Some("A brave cat")),
        "Write a children's story with this theme or title idea: \"A brave cat\". Start with a creative title on the first line, then the story."
    );
    assert_eq!(
        build_story_prompt(None),
        "Write an original children's story. Start with a creative title on the first line, then the story."
    );
    assert_eq!(
        build_summary_prompt("Once."),
        "Summarize this children's story in 2-3 sentences, capturing the key characters, setting, and events:\n\nOnce."
    );
}

#[test]
fn the_continuation_prompt_numbers_the_part() {
    let expected = |n: &str| {
        format!(
            "Continue this children's story with Part {}.\n\nSummary of what happened so far:\nS\n\nWrite the next part of the story (300-500 words). Continue the adventure with the same characters. Start directly with the story text - do not include a title or \"Part N\" heading.",
            n
        )
    };
    assert_eq!(build_continuation_prompt("S", 2), expected("2"));
    assert_eq!(build_continuation_prompt("S", 10), expected("10"));
    assert_eq!(build_continuation_prompt("S", 0), expected("0"));
    assert_eq!(build_continuation_prompt("S", -7), expected("-7"));
    assert_eq!(build_continuation_prompt("S", i32::MAX), expected("2147483647"));
    assert_eq!(build_continuation_prompt("S", i32::MIN), expected("-2147483648"));
}
