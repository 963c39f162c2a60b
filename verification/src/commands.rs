use vstd::prelude::*;
use vstd::string::StringExecFns;
use crate::models::{AudioJobInfo, InstallResult};
use crate::text::{same_text, trim_text, trimmed, views};

verus! {

/// What the application depends on.
#[derive(Debug, Clone, Copy, PartialEq, Eq, Structural)]
pub enum Dependency {
    Ollama,
    Gemma3,
    Uv,
    Ffmpeg,
    PythonDeps,
    TtsModel,
    MusicModel,
}

/// The dependency of a given name, if there is one.
pub open spec fn dependency_named(name: Seq<char>) -> Option<Dependency> {
    if name == "ollama"@ {
        Some(Dependency::Ollama)
    } else if name == "gemma3"@ {
        Some(Dependency::Gemma3)
    } else if name == "uv"@ {
        Some(Dependency::Uv)
    } else if name == "ffmpeg"@ {
        Some(Dependency::Ffmpeg)
    } else if name == "python_deps"@ {
        Some(Dependency::PythonDeps)
    } else if name == "tts_model"@ {
        Some(Dependency::TtsModel)
    } else if name == "music_model"@ {
        Some(Dependency::MusicModel)
    } else {
        None
    }
}

/// Finds the dependency of a given name.
pub fn parse_dependency(name: &str) -> (dep: Option<Dependency>)
    ensures
        dep == dependency_named(name@),
{
    if same_text(name, "ollama") {
        Some(Dependency::Ollama)
    } else if same_text(name, "gemma3") {
        Some(Dependency::Gemma3)
    } else if same_text(name, "uv") {
        Some(Dependency::Uv)
    } else if same_text(name, "ffmpeg") {
        Some(Dependency::Ffmpeg)
    } else if same_text(name, "python_deps") {
        Some(Dependency::PythonDeps)
    } else if same_text(name, "tts_model") {
        Some(Dependency::TtsModel)
    } else if same_text(name, "music_model") {
        Some(Dependency::MusicModel)
    } else {
        None
    }
}

/// The words with which a name that is no dependency is refused.
pub fn unknown_dependency(name: &str) -> (message: String)
    ensures
        message@ == "Unknown dependency: "@ + name@,
{
    let mut message = String::from_str("Unknown dependency: ");
    message.append(name);
    message
}

/// A program with its arguments.
#[derive(Debug)]
pub struct Command {
    pub program: String,
    pub args: Vec<String>,
}

impl Command {
    /// Whether the command is this program with these arguments.
    pub open spec fn is(&self, program: Seq<char>, args: Seq<Seq<char>>) -> bool {
        self.program@ == program && views(self.args@) == args
    }
}

fn command(program: &str, first: &str, second: &str) -> (c: Command)
    ensures
        c.is(program@, seq![first@, second@]),
{
    let mut args: Vec<String> = Vec::new();
    args.push(String::from_str(first));
    args.push(String::from_str(second));
    proof {
        assert(views(args@) =~= seq![first@, second@]);
    }
    Command { program: String::from_str(program), args }
}

/// The command that installs a dependency, for those that one command
/// installs: the programs come from the package manager, the story model
/// from the model server. The models and the Python packages are installed
/// in steps of their own.
pub fn install_command(dep: Dependency) -> (r: Option<Command>)
    ensures
        match dep {
            Dependency::Ollama => r matches Some(c) && c.is("brew"@, seq!["install"@, "ollama"@]),
            Dependency::Gemma3 => r matches Some(c) && c.is("ollama"@, seq!["pull"@, "gemma3"@]),
            Dependency::Uv => r matches Some(c) && c.is("brew"@, seq!["install"@, "uv"@]),
            Dependency::Ffmpeg => r matches Some(c) && c.is("brew"@, seq!["install"@, "ffmpeg"@]),
            _ => r is None,
        },
{
    match dep {
        Dependency::Ollama => Some(command("brew", "install", "ollama")),
        Dependency::Gemma3 => Some(command("ollama", "pull", "gemma3")),
        Dependency::Uv => Some(command("brew", "install", "uv")),
        Dependency::Ffmpeg => Some(command("brew", "install", "ffmpeg")),
        _ => None,
    }
}

/// The arguments with which the package runner downloads the model of the
/// project in `project_dir`, followed by `extra`.
pub open spec fn download_args(project_dir: Seq<char>, script: Seq<char>, extra: Seq<Seq<char>>)
    -> Seq<Seq<char>> {
    seq!["run"@, "--project"@, project_dir, "python"@, script] + extra
}

/// Builds the arguments for the download of a model: `script` is the
/// project's download script, `checkpoints_dir` where the model is to lie,
/// for a project that is told so.
pub fn build_download_args(project_dir: &str, script: &str, checkpoints_dir: Option<&str>) -> (args:
    Vec<String>)
    ensures
        views(args@) == download_args(
            project_dir@,
            script@,
            match checkpoints_dir {
                Some(dir) => seq!["--checkpoints-dir"@, dir@],
                None => Seq::empty(),
            },
        ),
{
    let mut args: Vec<String> = Vec::new();
    args.push(String::from_str("run"));
    args.push(String::from_str("--project"));
    args.push(String::from_str(project_dir));
    args.push(String::from_str("python"));
    args.push(String::from_str(script));
    match checkpoints_dir {
        Some(dir) => {
            args.push(String::from_str("--checkpoints-dir"));
            args.push(String::from_str(dir));
            proof {
                assert(views(args@) =~= download_args(
                    project_dir@,
                    script@,
                    seq!["--checkpoints-dir"@, dir@],
                ));
            }
        },
        None => {
            proof {
                assert(views(args@) =~= download_args(project_dir@, script@, Seq::empty()));
            }
        },
    }
    args
}

/// The arguments with which the package runner installs the Python packages
/// of the project in `project_dir`.
pub fn build_sync_args(project_dir: &str) -> (args: Vec<String>)
    ensures
        views(args@) == seq!["sync"@, "--project"@, project_dir@],
{
    let mut args: Vec<String> = Vec::new();
    args.push(String::from_str("sync"));
    args.push(String::from_str("--project"));
    args.push(String::from_str(project_dir));
    proof {
        assert(views(args@) =~= seq!["sync"@, "--project"@, project_dir@]);
    }
    args
}

/// What is reported of an installation: what it printed, or `if_silent`
/// where it printed nothing.
pub fn install_result(success: bool, output: String, if_silent: &str) -> (r: InstallResult)
    ensures
        r.success == success,
        r.output@ == (if output@.len() == 0 {
            if_silent@
        } else {
            output@
        }),
{
    if output.as_str().is_empty() {
        InstallResult { success, output: String::from_str(if_silent) }
    } else {
        InstallResult { success, output }
    }
}

/// The log of the installation of both sets of Python packages.
pub open spec fn sync_log(tts_log: Seq<char>, music_log: Seq<char>) -> Seq<char> {
    trimmed("=== TTS deps ===\n"@ + tts_log + "\n=== Music deps ===\n"@ + music_log)
}

/// What is reported of the installation of the Python packages: it went
/// well when both sets did, and its output is the two logs under their
/// headings.
pub fn python_deps_result(tts_ok: bool, tts_log: &str, music_ok: bool, music_log: &str) -> (r:
    InstallResult)
    ensures
        r.success == (tts_ok && music_ok),
        r.output@ == (if sync_log(tts_log@, music_log@).len() == 0 {
            "Completed with no output"@
        } else {
            sync_log(tts_log@, music_log@)
        }),
{
    let mut log = String::from_str("=== TTS deps ===\n");
    log.append(tts_log);
    log.append("\n=== Music deps ===\n");
    log.append(music_log);
    let combined = trim_text(log.as_str());
    install_result(tts_ok && music_ok, combined, "Completed with no output")
}

/// What the start of an audio job reports: the job is generating the voice.
pub fn job_started(job_id: String) -> (info: AudioJobInfo)
    ensures
        info.job_id == job_id,
        info.status@ == "voice_generating"@,
{
    AudioJobInfo { job_id, status: String::from_str("voice_generating") }
}

/// What is written down when the pipeline of a job has ended.
#[derive(Debug)]
pub struct JobRecord {
    /// The status of the job.
    pub job_status: String,
    /// The error of the job, if it failed.
    pub error_message: Option<String>,
    /// The status of the part.
    pub part_status: String,
    /// The audio file of the part, if there is one.
    pub audio_path: Option<String>,
}

/// Decides what is written down when the pipeline of a job has ended, with
/// the path of the audio or with an error.
pub fn job_record(outcome: Result<String, String>) -> (record: JobRecord)
    ensures
        match outcome {
            Ok(path) => {
                &&& record.job_status@ == "complete"@
                &&& record.error_message is None
                &&& record.part_status@ == "audio_ready"@
                &&& record.audio_path == Some(path)
            },
            Err(error) => {
                &&& record.job_status@ == "failed"@
                &&& record.error_message == Some(error)
                &&& record.part_status@ == "audio_failed"@
                &&& record.audio_path is None
            },
        },
{
    match outcome {
        Ok(path) => JobRecord {
            job_status: String::from_str("complete"),
            error_message: None,
            part_status: String::from_str("audio_ready"),
            audio_path: Some(path),
        },
        Err(error) => JobRecord {
            job_status: String::from_str("failed"),
            error_message: Some(error),
            part_status: String::from_str("audio_failed"),
            audio_path: None,
        },
    }
}

} // verus!
