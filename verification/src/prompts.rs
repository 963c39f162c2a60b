use vstd::prelude::*;
use vstd::string::StringExecFns;
use crate::text::{push_signed_decimal, signed_decimal};

verus! {

/// How a system prompt begins, up to the genre's name.
pub const SYSTEM_HEAD: &'static str =
    "You are a creative storyteller who writes engaging children's stories in English.\n\nGenre: ";

/// What stands between the genre's name and its description.
pub const SYSTEM_DASH: &'static str = " - ";

/// The guidelines that close a system prompt.
pub const SYSTEM_GUIDELINES: &'static str =
    "\n\nGuidelines:\n- Write stories suitable for children ages 4-10\n- Use simple, vivid language that children can understand\n- Include descriptive scenes that spark imagination\n- Keep stories positive and uplifting\n- Stories should be 300-500 words\n- Include dialogue between characters\n- End with a satisfying conclusion or gentle lesson\n- Do NOT include any meta-commentary or instructions - just tell the story";

/// The system prompt for a genre.
pub open spec fn system_prompt(genre_name: Seq<char>, genre_description: Seq<char>) -> Seq<char> {
    SYSTEM_HEAD@ + genre_name + SYSTEM_DASH@ + genre_description + SYSTEM_GUIDELINES@
}

/// Builds the system prompt for story generation in a genre.
pub fn build_system_prompt(genre_name: &str, genre_description: &str) -> (prompt: String)
    ensures
        prompt@ == system_prompt(genre_name@, genre_description@),
{
    let mut prompt = String::from_str(SYSTEM_HEAD);
    prompt.append(genre_name);
    prompt.append(SYSTEM_DASH);
    prompt.append(genre_description);
    prompt.append(SYSTEM_GUIDELINES);
    prompt
}

/// How the prompt for a story on a given theme begins.
pub const THEME_HEAD: &'static str = "Write a children's story with this theme or title idea: \"";

/// How the prompt for a story on a given theme ends.
pub const THEME_TAIL: &'static str =
    "\". Start with a creative title on the first line, then the story.";

/// The prompt for a story without a given theme.
pub const ORIGINAL_STORY: &'static str =
    "Write an original children's story. Start with a creative title on the first line, then the story.";

/// The user prompt for a new story.
pub open spec fn story_prompt(title_hint: Option<Seq<char>>) -> Seq<char> {
    match title_hint {
        Some(hint) => THEME_HEAD@ + hint + THEME_TAIL@,
        None => ORIGINAL_STORY@,
    }
}

/// Builds the user prompt for a new story, around the theme or title idea
/// if there is one.
pub fn build_story_prompt(title_hint: Option<&str>) -> (prompt: String)
    ensures
        prompt@ == story_prompt(
            match title_hint {
                Some(hint) => Some(hint@),
                None => None,
            },
        ),
{
    match title_hint {
        Some(hint) => {
            let mut prompt = String::from_str(THEME_HEAD);
            prompt.append(hint);
            prompt.append(THEME_TAIL);
            prompt
        },
        None => String::from_str(ORIGINAL_STORY),
    }
}

/// How a continuation prompt begins, up to the number of the part.
pub const CONTINUE_HEAD: &'static str = "Continue this children's story with Part ";

/// What stands between the number of the part and the summary.
pub const CONTINUE_SUMMARY: &'static str = ".\n\nSummary of what happened so far:\n";

/// How a continuation prompt ends.
pub const CONTINUE_TAIL: &'static str =
    "\n\nWrite the next part of the story (300-500 words). Continue the adventure with the same characters. Start directly with the story text - do not include a title or \"Part N\" heading.";

/// The prompt for the next part of a story.
pub open spec fn continuation_prompt(previous_summary: Seq<char>, part_number: int) -> Seq<char> {
    CONTINUE_HEAD@ + signed_decimal(part_number) + CONTINUE_SUMMARY@ + previous_summary
        + CONTINUE_TAIL@
}

/// Builds the prompt for the part of the given number, from the summary of
/// what came before.
pub fn build_continuation_prompt(previous_summary: &str, part_number: i32) -> (prompt: String)
    ensures
        prompt@ == continuation_prompt(previous_summary@, part_number as int),
{
    let mut prompt = String::from_str(CONTINUE_HEAD);
    push_signed_decimal(&mut prompt, part_number as i64);
    prompt.append(CONTINUE_SUMMARY);
    prompt.append(previous_summary);
    prompt.append(CONTINUE_TAIL);
    prompt
}

/// How a summary prompt begins.
pub const SUMMARY_HEAD: &'static str =
    "Summarize this children's story in 2-3 sentences, capturing the key characters, setting, and events:\n\n";

/// The prompt that asks for the summary of a story.
pub open spec fn summary_prompt(story_text: Seq<char>) -> Seq<char> {
    SUMMARY_HEAD@ + story_text
}

/// Builds the prompt that asks for the summary of a story.
pub fn build_summary_prompt(story_text: &str) -> (prompt: String)
    ensures
        prompt@ == summary_prompt(story_text@),
{
    let mut prompt = String::from_str(SUMMARY_HEAD);
    prompt.append(story_text);
    prompt
}

} // verus!
