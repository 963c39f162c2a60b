use vstd::prelude::*;

verus! {

/// A genre of stories.
#[derive(Debug, Clone)]
pub struct Genre {
    pub id: String,
    pub name: String,
    pub description: String,
    pub icon: Option<String>,
    pub display_order: i32,
    pub created_at: String,
}

/// A story.
#[derive(Debug, Clone)]
pub struct Story {
    pub id: String,
    pub title: String,
    pub genre_id: String,
    pub status: String,
    pub is_sample: i32,
    pub created_at: String,
    pub updated_at: String,
}

/// One part of a story.
#[derive(Debug, Clone)]
pub struct StoryPart {
    pub id: String,
    pub story_id: String,
    pub part_number: i32,
    pub content: String,
    pub audio_path: Option<String>,
    pub status: String,
    pub created_at: String,
    pub updated_at: String,
}

/// The job that makes the audio of one part.
#[derive(Debug, Clone)]
pub struct AudioJob {
    pub id: String,
    pub story_part_id: String,
    pub voice_path: Option<String>,
    pub final_path: Option<String>,
    pub status: String,
    pub error_message: Option<String>,
    pub created_at: String,
    pub updated_at: String,
}

/// A story with its genre and its parts.
#[derive(Debug, Clone)]
pub struct StoryWithParts {
    pub story: Story,
    pub genre: Genre,
    pub parts: Vec<StoryPart>,
}

/// What the start of an audio job reports.
#[derive(Debug, Clone)]
pub struct AudioJobInfo {
    pub job_id: String,
    pub status: String,
}

/// What an installation reports.
#[derive(Debug, Clone)]
pub struct InstallResult {
    pub success: bool,
    pub output: String,
}

} // verus!
