use vstd::prelude::*;
use vstd::string::StringExecFns;
use crate::error::KokoroError;
use crate::text::{chars_of, piece, string_of, trim_bounds, trimmed, views};

verus! {

/// The trimmed, non-empty lines of `s` from position `i` on, when the line
/// being read began at `start`.
pub open spec fn lines_from(s: Seq<char>, start: int, i: int) -> Seq<Seq<char>>
    decreases s.len() - i,
{
    if i >= s.len() {
        piece(s, start, s.len() as int)
    } else if s[i] == '\n' {
        piece(s, start, i) + lines_from(s, i + 1, i + 1)
    } else {
        lines_from(s, start, i + 1)
    }
}

/// The lines of `s`, each trimmed, without the empty ones.
pub open spec fn tool_lines(s: Seq<char>) -> Seq<Seq<char>> {
    lines_from(s, 0, 0)
}

/// The items of `parts` with `sep` between each two.
pub open spec fn joined(parts: Seq<Seq<char>>, sep: Seq<char>) -> Seq<char>
    decreases parts.len(),
{
    if parts.len() == 0 {
        Seq::empty()
    } else if parts.len() == 1 {
        parts[0]
    } else {
        joined(parts.drop_last(), sep) + sep + parts.last()
    }
}

/// The phonemes in what the external tool printed. The tool prints one line
/// for each sentence and drops the sentence's closing punctuation; the lines
/// are joined again with `". "` so that the boundaries stay.
pub open spec fn tool_phonemes(stdout: Seq<char>) -> Seq<char> {
    joined(tool_lines(stdout), line_sep())
}

/// The separator put between the lines of the tool's output.
pub open spec fn line_sep() -> Seq<char> {
    seq!['.', ' ']
}

fn append_line(
    out: &mut Vec<char>,
    chars: &Vec<char>,
    a: usize,
    b: usize,
    Ghost(done): Ghost<Seq<Seq<char>>>,
)
    requires
        a < b <= chars.len(),
        old(out)@ == joined(done, line_sep()),
        done.len() == 0 <==> old(out)@.len() == 0,
    ensures
        final(out)@ == joined(done.push(chars@.subrange(a as int, b as int)), line_sep()),
        final(out)@.len() > 0,
{
    if out.len() > 0 {
        out.push('.');
        out.push(' ');
    }
    let ghost head = out@;
    let mut j: usize = a;
    while j < b
        invariant
            a <= j <= b <= chars.len(),
            out@ == head + chars@.subrange(a as int, j as int),
        decreases b - j,
    {
        out.push(chars[j]);
        proof {
            assert(chars@.subrange(a as int, j + 1) =~= chars@.subrange(a as int, j as int).push(
                chars@[j as int],
            ));
        }
        j += 1;
    }
    proof {
        let line = chars@.subrange(a as int, b as int);
        let all = done.push(line);
        assert(all.drop_last() =~= done);
        assert(all.last() == line);
        if done.len() > 0 {
            assert(head =~= joined(done, line_sep()) + line_sep());
        } else {
            assert(head =~= Seq::<char>::empty());
            assert(out@ =~= line);
        }
    }
}

/// Reads the phonemes out of the external tool's standard output.
pub fn join_tool_lines(stdout: &str) -> (phonemes: String)
    ensures
        phonemes@ == tool_phonemes(stdout@),
{
    let chars = chars_of(stdout);
    let len = chars.len();
    let mut out: Vec<char> = Vec::new();
    let ghost mut done: Seq<Seq<char>> = Seq::empty();
    let mut start: usize = 0;
    let mut i: usize = 0;
    while i < len
        invariant
            len == chars.len(),
            start <= i <= len,
            done + lines_from(chars@, start as int, i as int) == tool_lines(chars@),
            out@ == joined(done, line_sep()),
            done.len() == 0 <==> out@.len() == 0,
        decreases len - i,
    {
        if chars[i] == '\n' {
            let (a, b) = trim_bounds(&chars, start, i);
            let ghost before = done;
            let ghost rest = lines_from(chars@, i + 1, i + 1);
            if a < b {
                append_line(&mut out, &chars, a, b, Ghost(done));
                proof {
                    done = before.push(chars@.subrange(a as int, b as int));
                    assert(done + rest =~= before + (piece(chars@, start as int, i as int) + rest));
                }
            } else {
                proof {
                    assert(done + rest =~= before + (piece(chars@, start as int, i as int) + rest));
                }
            }
            start = i + 1;
        }
        i += 1;
    }
    let (a, b) = trim_bounds(&chars, start, len);
    let ghost before = done;
    if a < b {
        append_line(&mut out, &chars, a, b, Ghost(done));
        proof {
            done = before.push(chars@.subrange(a as int, b as int));
            assert(done =~= before + piece(chars@, start as int, len as int));
        }
    } else {
        proof {
            assert(done =~= before + piece(chars@, start as int, len as int));
        }
    }
    proof {
        assert(out@.subrange(0, out.len() as int) =~= out@);
    }
    string_of(&out, 0, out.len())
}

/// How a run of the external tool ended.
#[derive(Debug)]
pub enum ToolRun {
    /// The program is not installed.
    NotFound,
    /// The program could not be started; the text is the system's reason.
    NotStarted(String),
    /// The program ran to its end.
    Exited { success: bool, stdout: String, stderr: String },
}

/// The arguments that make the external tool print the phonemes of `text` in
/// IPA for the language `lang`, and nothing else.
pub fn espeak_args(text: &str, lang: &str) -> (args: Vec<String>)
    ensures
        views(args@) == seq!["-v"@, lang@, "--ipa"@, "-q"@, text@],
{
    let mut args: Vec<String> = Vec::new();
    args.push(String::from_str("-v"));
    args.push(String::from_str(lang));
    args.push(String::from_str("--ipa"));
    args.push(String::from_str("-q"));
    args.push(String::from_str(text));
    proof {
        assert(views(args@) =~= seq!["-v"@, lang@, "--ipa"@, "-q"@, text@]);
    }
    args
}

/// What a run of the external tool means for the phonemization: its phonemes
/// when it succeeded, `EspeakNotFound` when the program is missing, and
/// otherwise `Phonemize` with the reason (for a failed run, what the tool
/// wrote to its standard error, trimmed).
pub fn espeak_outcome(run: ToolRun) -> (r: Result<String, KokoroError>)
    ensures
        match run {
            ToolRun::NotFound => r matches Err(KokoroError::EspeakNotFound),
            ToolRun::NotStarted(why) => r matches Err(KokoroError::Phonemize(m)) && m@
                == "Failed to run espeak-ng: "@ + why@,
            ToolRun::Exited { success, stdout, stderr } => if success {
                r matches Ok(p) && p@ == tool_phonemes(stdout@)
            } else {
                r matches Err(KokoroError::Phonemize(m)) && m@ == "espeak-ng failed: "@ + trimmed(
                    stderr@,
                )
            },
        },
{
    match run {
        ToolRun::NotFound => Err(KokoroError::EspeakNotFound),
        ToolRun::NotStarted(why) => {
            let mut m = String::from_str("Failed to run espeak-ng: ");
            m.append(why.as_str());
            Err(KokoroError::Phonemize(m))
        },
        ToolRun::Exited { success, stdout, stderr } => {
            if success {
                Ok(join_tool_lines(stdout.as_str()))
            } else {
                let chars = chars_of(stderr.as_str());
                let (a, b) = trim_bounds(&chars, 0, chars.len());
                proof {
                    assert(chars@.subrange(0, chars.len() as int) =~= chars@);
                }
                let cause = string_of(&chars, a, b);
                let mut m = String::from_str("espeak-ng failed: ");
                m.append(cause.as_str());
                Err(KokoroError::Phonemize(m))
            }
        },
    }
}

} // verus!
