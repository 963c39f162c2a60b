use vstd::prelude::*;
use vstd::string::StringExecFns;
use crate::text::{begins_with, chars_of, has_prefix, same_text, string_of, trim_text, trimmed, views};

verus! {

/// Whether something that the application depends on is there.
#[derive(Debug, Clone)]
pub struct DependencyStatus {
    pub name: String,
    pub installed: bool,
    pub version: Option<String>,
    pub install_command: String,
}

impl DependencyStatus {
    /// Whether the status says exactly this.
    pub open spec fn says(
        &self,
        name: Seq<char>,
        installed: bool,
        version: Option<Seq<char>>,
        install_command: Seq<char>,
    ) -> bool {
        &&& self.name@ == name
        &&& self.installed == installed
        &&& match (self.version, version) {
            (Some(a), Some(b)) => a@ == b,
            (None, None) => true,
            _ => false,
        }
        &&& self.install_command@ == install_command
    }
}

/// The status of the model server: installed when it answers.
pub fn ollama_status(running: bool) -> (status: DependencyStatus)
    ensures
        status.says(
            "Ollama"@,
            running,
            if running {
                Some("Running"@)
            } else {
                None
            },
            "brew install ollama && ollama serve"@,
        ),
{
    DependencyStatus {
        name: String::from_str("Ollama"),
        installed: running,
        version: if running {
            Some(String::from_str("Running"))
        } else {
            None
        },
        install_command: String::from_str("brew install ollama && ollama serve"),
    }
}

/// Whether one of the first `n` names begins with `gemma3`.
pub open spec fn has_gemma(names: Seq<Seq<char>>, n: int) -> bool {
    exists|i: int| 0 <= i < n && begins_with(#[trigger] names[i], "gemma3"@)
}

/// The status of the story model, from the names of the models that the
/// server lists (`None` when the list could not be had): installed when one
/// of them begins with `gemma3`.
pub fn gemma_status(models: Option<&Vec<String>>) -> (status: DependencyStatus)
    ensures
        ({
            let found = models matches Some(names) && has_gemma(views(names@), names.len() as int);
            status.says(
                "Gemma 3"@,
                found,
                if found {
                    Some("Available"@)
                } else {
                    None
                },
                "ollama pull gemma3"@,
            )
        }),
{
    let mut found = false;
    match models {
        Some(names) => {
            let mut i: usize = 0;
            while i < names.len()
                invariant
                    i <= names.len(),
                    found == has_gemma(views(names@), i as int),
                decreases names.len() - i,
            {
                let hit = has_prefix(names[i].as_str(), "gemma3");
                proof {
                    assert(views(names@)[i as int] == names@[i as int]@);
                    if !hit && !found && has_gemma(views(names@), i + 1) {
                        let k = choose|k: int|
                            0 <= k < i + 1 && begins_with(#[trigger] views(names@)[k], "gemma3"@);
                        assert(k < i);
                    }
                }
                if hit {
                    found = true;
                }
                i += 1;
            }
        },
        None => {},
    }
    DependencyStatus {
        name: String::from_str("Gemma 3"),
        installed: found,
        version: if found {
            Some(String::from_str("Available"))
        } else {
            None
        },
        install_command: String::from_str("ollama pull gemma3"),
    }
}

/// The status of the package runner, from what it printed when asked for its
/// version (`None` when it did not run or failed): its version is that
/// output, trimmed.
pub fn uv_status(output: Option<&str>) -> (status: DependencyStatus)
    ensures
        status.says(
            "uv"@,
            output is Some,
            match output {
                Some(text) => Some(trimmed(text@)),
                None => None,
            },
            "brew install uv"@,
        ),
{
    DependencyStatus {
        name: String::from_str("uv"),
        installed: output.is_some(),
        version: match output {
            Some(text) => Some(trim_text(text)),
            None => None,
        },
        install_command: String::from_str("brew install uv"),
    }
}

/// The first line of `s` from position `i` on: what stands before the first
/// line feed, without a carriage return that closes it.
pub open spec fn first_line_from(s: Seq<char>, i: int) -> Seq<char>
    decreases s.len() - i,
{
    if i >= s.len() {
        s
    } else if s[i] == '\n' {
        if i > 0 && s[i - 1] == '\r' {
            s.take(i - 1)
        } else {
            s.take(i)
        }
    } else {
        first_line_from(s, i + 1)
    }
}

/// The first line of `s`.
pub open spec fn first_line(s: Seq<char>) -> Seq<char> {
    first_line_from(s, 0)
}

/// Reads the first line of a text.
pub fn first_line_of(text: &str) -> (line: String)
    ensures
        line@ == first_line(text@),
{
    let chars = chars_of(text);
    let mut i: usize = 0;
    while i < chars.len()
        invariant
            i <= chars.len(),
            chars@ == text@,
            first_line_from(chars@, i as int) == first_line(chars@),
        decreases chars.len() - i,
    {
        if chars[i] == '\n' {
            let end = if i > 0 && chars[i - 1] == '\r' {
                i - 1
            } else {
                i
            };
            proof {
                assert(chars@.subrange(0, end as int) =~= chars@.take(end as int));
            }
            return string_of(&chars, 0, end);
        }
        i += 1;
    }
    proof {
        assert(chars@.subrange(0, chars.len() as int) =~= chars@);
    }
    string_of(&chars, 0, chars.len())
}

/// The status of the media tool, from what it printed when asked for its
/// version (`None` when it did not run or failed): its version is the first
/// line of that output.
pub fn ffmpeg_status(output: Option<&str>) -> (status: DependencyStatus)
    ensures
        status.says(
            "ffmpeg"@,
            output is Some,
            match output {
                Some(text) => Some(first_line(text@)),
                None => None,
            },
            "brew install ffmpeg"@,
        ),
{
    DependencyStatus {
        name: String::from_str("ffmpeg"),
        installed: output.is_some(),
        version: match output {
            Some(text) => Some(first_line_of(text)),
            None => None,
        },
        install_command: String::from_str("brew install ffmpeg"),
    }
}

/// Whether a model check found the model: the check ran well and printed
/// `installed`.
pub fn model_found(success: bool, stdout: &str) -> (found: bool)
    ensures
        found == (success && trimmed(stdout@) == "installed"@),
{
    if !success {
        return false;
    }
    let printed = trim_text(stdout);
    same_text(printed.as_str(), "installed")
}

/// The status of a model that the setup wizard downloads.
pub fn model_status(name: &str, found: bool) -> (status: DependencyStatus)
    ensures
        status.says(
            name@,
            found,
            if found {
                Some("Downloaded"@)
            } else {
                None
            },
            "Download via setup wizard"@,
        ),
{
    DependencyStatus {
        name: String::from_str(name),
        installed: found,
        version: if found {
            Some(String::from_str("Downloaded"))
        } else {
            None
        },
        install_command: String::from_str("Download via setup wizard"),
    }
}

/// What is said of the Python packages, given which of the two sets can be
/// imported.
pub open spec fn python_version(tts_ok: bool, music_ok: bool) -> Option<Seq<char>> {
    if tts_ok && music_ok {
        Some("Installed"@)
    } else if tts_ok {
        Some("TTS ok, music missing"@)
    } else if music_ok {
        Some("Music ok, TTS missing"@)
    } else {
        None
    }
}

/// The status of the Python packages of the speech and music projects, which
/// lie in `tts_dir` and `music_dir`: installed when both sets can be
/// imported.
pub fn python_deps_status(tts_ok: bool, music_ok: bool, tts_dir: &str, music_dir: &str) -> (status:
    DependencyStatus)
    ensures
        status.says(
            "Python ML deps"@,
            tts_ok && music_ok,
            python_version(tts_ok, music_ok),
            "uv sync --project "@ + tts_dir@ + " && uv sync --project "@ + music_dir@,
        ),
{
    let version = if tts_ok && music_ok {
        Some(String::from_str("Installed"))
    } else if tts_ok {
        Some(String::from_str("TTS ok, music missing"))
    } else if music_ok {
        Some(String::from_str("Music ok, TTS missing"))
    } else {
        None
    };
    let mut install_command = String::from_str("uv sync --project ");
    install_command.append(tts_dir);
    install_command.append(" && uv sync --project ");
    install_command.append(music_dir);
    DependencyStatus {
        name: String::from_str("Python ML deps"),
        installed: tts_ok && music_ok,
        version,
        install_command,
    }
}

/// The directory `<base>/<name>`.
pub fn subdir(base: &str, name: &str) -> (dir: String)
    ensures
        dir@ == base@ + "/"@ + name@,
{
    let mut dir = String::from_str(base);
    dir.append("/");
    dir.append(name);
    dir
}

/// The arguments with which the package runner runs the model check of the
/// project in `project_dir`, followed by `extra`.
pub open spec fn check_args(project_dir: Seq<char>, extra: Seq<Seq<char>>) -> Seq<Seq<char>> {
    seq![
        "run"@,
        "--frozen"@,
        "--project"@,
        project_dir,
        "python"@,
        project_dir + "/check_model.py"@,
    ] + extra
}

/// Builds the arguments for the check of the speech model.
pub fn tts_check_args(tts_dir: &str) -> (args: Vec<String>)
    ensures
        views(args@) == check_args(tts_dir@, Seq::empty()),
{
    let mut args: Vec<String> = Vec::new();
    args.push(String::from_str("run"));
    args.push(String::from_str("--frozen"));
    args.push(String::from_str("--project"));
    args.push(String::from_str(tts_dir));
    args.push(String::from_str("python"));
    let mut script = String::from_str(tts_dir);
    script.append("/check_model.py");
    args.push(script);
    proof {
        assert(views(args@) =~= check_args(tts_dir@, Seq::empty()));
    }
    args
}

/// Builds the arguments for the check of the music model, whose checkpoints
/// lie in `checkpoints_dir`.
pub fn music_check_args(music_dir: &str, checkpoints_dir: &str) -> (args: Vec<String>)
    ensures
        views(args@) == check_args(music_dir@, seq!["--checkpoints-dir"@, checkpoints_dir@]),
{
    let mut args: Vec<String> = Vec::new();
    args.push(String::from_str("run"));
    args.push(String::from_str("--frozen"));
    args.push(String::from_str("--project"));
    args.push(String::from_str(music_dir));
    args.push(String::from_str("python"));
    let mut script = String::from_str(music_dir);
    script.append("/check_model.py");
    args.push(script);
    args.push(String::from_str("--checkpoints-dir"));
    args.push(String::from_str(checkpoints_dir));
    proof {
        assert(views(args@) =~= check_args(
            music_dir@,
            seq!["--checkpoints-dir"@, checkpoints_dir@],
        ));
    }
    args
}

/// The arguments with which the package runner tries whether the Python
/// packages of the project in `project_dir` can be imported, by running
/// `statement`.
pub fn import_check_args(project_dir: &str, statement: &str) -> (args: Vec<String>)
    ensures
        views(args@) == seq![
            "run"@,
            "--frozen"@,
            "--project"@,
            project_dir@,
            "python"@,
            "-c"@,
            statement@,
        ],
{
    let mut args: Vec<String> = Vec::new();
    args.push(String::from_str("run"));
    args.push(String::from_str("--frozen"));
    args.push(String::from_str("--project"));
    args.push(String::from_str(project_dir));
    args.push(String::from_str("python"));
    args.push(String::from_str("-c"));
    args.push(String::from_str(statement));
    proof {
        assert(views(args@) =~= seq![
            "run"@,
            "--frozen"@,
            "--project"@,
            project_dir@,
            "python"@,
            "-c"@,
            statement@,
        ]);
    }
    args
}

/// The statement that imports the speech packages.
pub const TTS_IMPORT: &'static str = "from mlx_audio.tts.utils import load_model; print('ok')";

/// The statement that imports the music packages.
pub const MUSIC_IMPORT: &'static str = "from acestep.handler import AceStepHandler; print('ok')";

} // verus!
