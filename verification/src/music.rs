use vstd::prelude::*;
use vstd::string::StringExecFns;
use std::path::PathBuf;
use crate::text::{decimal, push_decimal, views};

verus! {

/// The directory of the music generator's project, under the scripts
/// directory.
pub const MUSIC_PROJECT: &'static str = "music";

/// The generator script, in its project.
pub const MUSIC_SCRIPT: &'static str = "generate_music.py";

/// The directory of the music model, under the models directory.
pub const MUSIC_MODEL_DIR: &'static str = "acestep";

/// Makes background music by way of an external generator script.
pub struct MusicService {
    pub scripts_dir: PathBuf,
    pub models_dir: PathBuf,
}

/// The arguments with which the package runner starts the music generator:
/// `project` is the directory of the generator's project, `script` the
/// generator itself, `project_root` where its model lies.
pub open spec fn music_args(
    project: Seq<char>,
    script: Seq<char>,
    genre: Seq<char>,
    duration_secs: nat,
    output_path: Seq<char>,
    project_root: Seq<char>,
) -> Seq<Seq<char>> {
    seq![
        "run"@,
        "--project"@,
        project,
        "python"@,
        script,
        "--genre"@,
        genre,
        "--duration"@,
        decimal(duration_secs),
        "--output"@,
        output_path,
        "--project-root"@,
        project_root,
    ]
}

/// Builds the arguments for a run of the music generator.
pub fn build_music_args(
    project: &str,
    script: &str,
    genre: &str,
    duration_secs: u32,
    output_path: &str,
    project_root: &str,
) -> (args: Vec<String>)
    ensures
        views(args@) == music_args(
            project@,
            script@,
            genre@,
            duration_secs as nat,
            output_path@,
            project_root@,
        ),
{
    let mut duration = String::new();
    push_decimal(&mut duration, duration_secs as u64);
    proof {
        assert(duration@ =~= decimal(duration_secs as nat));
    }
    let mut args: Vec<String> = Vec::new();
    args.push(String::from_str("run"));
    args.push(String::from_str("--project"));
    args.push(String::from_str(project));
    args.push(String::from_str("python"));
    args.push(String::from_str(script));
    args.push(String::from_str("--genre"));
    args.push(String::from_str(genre));
    args.push(String::from_str("--duration"));
    args.push(duration);
    args.push(String::from_str("--output"));
    args.push(String::from_str(output_path));
    args.push(String::from_str("--project-root"));
    args.push(String::from_str(project_root));
    proof {
        assert(views(args@) =~= music_args(
            project@,
            script@,
            genre@,
            duration_secs as nat,
            output_path@,
            project_root@,
        ));
    }
    args
}

impl MusicService {
    /// A service that finds the generator under `scripts_dir` and its model
    /// under `models_dir`.
    pub fn new(scripts_dir: PathBuf, models_dir: PathBuf) -> (service: MusicService)
        ensures
            service.scripts_dir == scripts_dir,
            service.models_dir == models_dir,
    {
        MusicService { scripts_dir, models_dir }
    }
}

} // verus!
