use vstd::prelude::*;
use vstd::string::StringExecFns;
use crate::text::{
    chars_of, decimal, piece, push_chars, push_decimal, slice_chars, string_of, trim_bounds, views,
};

verus! {

/// Where the model server listens.
pub const BASE_URL: &'static str = "http://localhost:11434";

/// How much of an error's body is reported, in characters.
pub const BODY_LIMIT: usize = 500;

/// What is asked of the model server.
#[derive(Debug, Clone)]
pub struct OllamaGenerateRequest {
    pub model: String,
    pub prompt: String,
    pub system: String,
    pub stream: bool,
}

/// One line of the server's answer.
#[derive(Debug, Clone)]
pub struct OllamaStreamChunk {
    pub response: Option<String>,
    pub done: bool,
}

/// One piece of a story as it is handed on while it is written.
#[derive(Debug, Clone)]
pub struct StoryToken {
    pub token: String,
    pub done: bool,
}

/// The request for a streamed generation.
pub fn generate_request(model: &str, system: &str, prompt: &str) -> (request:
    OllamaGenerateRequest)
    ensures
        request.model@ == model@,
        request.prompt@ == prompt@,
        request.system@ == system@,
        request.stream,
{
    OllamaGenerateRequest {
        model: String::from_str(model),
        prompt: String::from_str(prompt),
        system: String::from_str(system),
        stream: true,
    }
}

/// The address to which a generation is sent.
pub fn generate_url(base_url: &str) -> (url: String)
    ensures
        url@ == base_url@ + "/api/generate"@,
{
    let mut url = String::from_str(base_url);
    url.append("/api/generate");
    url
}

/// The first `n` characters of `s`, or all of it when it has fewer.
pub open spec fn head(s: Seq<char>, n: int) -> Seq<char> {
    if s.len() <= n {
        s
    } else {
        s.take(n)
    }
}

/// The words with which an answer that is no success is reported: the
/// status and the beginning of the body.
pub fn status_error(status: &str, body: &str) -> (message: String)
    ensures
        message@ == "Ollama returned status "@ + status@ + ": "@ + head(body@, BODY_LIMIT as int),
{
    let chars = chars_of(body);
    let n = if chars.len() <= BODY_LIMIT {
        chars.len()
    } else {
        BODY_LIMIT
    };
    let shown = string_of(&chars, 0, n);
    proof {
        assert(chars@.subrange(0, n as int) =~= head(body@, BODY_LIMIT as int));
    }
    let mut message = String::from_str("Ollama returned status ");
    message.append(status);
    message.append(": ");
    message.append(shown.as_str());
    message
}

/// The words with which a stream that broke is reported.
pub fn stream_error(chunk_count: u32, cause: &str) -> (message: String)
    ensures
        message@ == "Stream error after "@ + decimal(chunk_count as nat) + " chunks: "@ + cause@,
{
    let mut message = String::from_str("Stream error after ");
    push_decimal(&mut message, chunk_count as u64);
    message.append(" chunks: ");
    message.append(cause);
    message
}

/// The complete lines of `s` from position `i` on, each trimmed, without the
/// empty ones, when the line being read began at `start`. A line is
/// complete when a line feed closes it.
pub open spec fn complete_lines(s: Seq<char>, start: int, i: int) -> Seq<Seq<char>>
    decreases s.len() - i,
{
    if i >= s.len() {
        Seq::empty()
    } else if s[i] == '\n' {
        piece(s, start, i) + complete_lines(s, i + 1, i + 1)
    } else {
        complete_lines(s, start, i + 1)
    }
}

/// What is left of `s` behind its last complete line.
pub open spec fn unfinished(s: Seq<char>, start: int, i: int) -> Seq<char>
    decreases s.len() - i,
{
    if i >= s.len() {
        s.subrange(start, s.len() as int)
    } else if s[i] == '\n' {
        unfinished(s, i + 1, i + 1)
    } else {
        unfinished(s, start, i + 1)
    }
}

/// Gathers what the server sends until lines are complete.
pub struct LineBuffer {
    pending: Vec<char>,
}

impl LineBuffer {
    /// What was received and is no complete line yet.
    pub closed spec fn pending(&self) -> Seq<char> {
        self.pending@
    }

    /// An empty buffer.
    pub fn new() -> (buffer: LineBuffer)
        ensures
            buffer.pending() == Seq::<char>::empty(),
    {
        LineBuffer { pending: Vec::new() }
    }

    /// Takes what was received and hands out the lines that are complete
    /// now, each trimmed, without the empty ones. What follows the last line
    /// feed stays in the buffer.
    pub fn feed(&mut self, received: &str) -> (lines: Vec<String>)
        ensures
            views(lines@) == complete_lines(old(self).pending() + received@, 0, 0),
            final(self).pending() == unfinished(old(self).pending() + received@, 0, 0),
    {
        let more = chars_of(received);
        let mut all: Vec<char> = Vec::new();
        push_chars(&mut all, &self.pending);
        push_chars(&mut all, &more);
        proof {
            assert(all@ =~= old(self).pending() + received@);
        }
        let len = all.len();
        let mut lines: Vec<String> = Vec::new();
        let mut start: usize = 0;
        let mut i: usize = 0;
        while i < len
            invariant
                len == all.len(),
                start <= i <= len,
                views(lines@) + complete_lines(all@, start as int, i as int) == complete_lines(
                    all@,
                    0,
                    0,
                ),
                unfinished(all@, start as int, i as int) == unfinished(all@, 0, 0),
            decreases len - i,
        {
            if all[i] == '\n' {
                let ghost before = views(lines@);
                let ghost rest = complete_lines(all@, i + 1, i + 1);
                let (a, b) = trim_bounds(&all, start, i);
                if a < b {
                    let line = string_of(&all, a, b);
                    lines.push(line);
                    proof {
                        assert(views(lines@) =~= before + seq![line@]);
                        assert(before + (seq![line@] + rest) =~= before + seq![line@] + rest);
                    }
                } else {
                    proof {
                        assert(before + (Seq::<Seq<char>>::empty() + rest) =~= before + rest);
                    }
                }
                start = i + 1;
            }
            i += 1;
        }
        proof {
            assert(views(lines@) + Seq::<Seq<char>>::empty() =~= views(lines@));
        }
        self.pending = slice_chars(&all, start, len);
        lines
    }
}

/// The views of a list of story tokens: the text and the mark of each.
pub open spec fn token_views(tokens: Seq<StoryToken>) -> Seq<(Seq<char>, bool)> {
    Seq::new(tokens.len(), |i: int| (tokens[i].token@, tokens[i].done))
}

/// The tokens that a line of the answer gives: its text, if it has one, and
/// the closing mark when it is the last line.
pub open spec fn tokens_of(response: Option<Seq<char>>, done: bool) -> Seq<(Seq<char>, bool)> {
    (match response {
        Some(text) => seq![(text, false)],
        None => Seq::empty(),
    }) + (if done {
        seq![(Seq::<char>::empty(), true)]
    } else {
        Seq::empty()
    })
}

/// Takes one parsed line of the answer: its text is added to the story so
/// far, and the tokens to hand on are returned.
pub fn accept_chunk(full_text: &mut String, chunk: &OllamaStreamChunk) -> (tokens: Vec<StoryToken>)
    ensures
        final(full_text)@ == old(full_text)@ + (match chunk.response {
            Some(text) => text@,
            None => Seq::empty(),
        }),
        token_views(tokens@) == tokens_of(
            match chunk.response {
                Some(text) => Some(text@),
                None => None,
            },
            chunk.done,
        ),
{
    let mut tokens: Vec<StoryToken> = Vec::new();
    match &chunk.response {
        Some(text) => {
            full_text.append(text.as_str());
            tokens.push(StoryToken { token: text.clone(), done: false });
        },
        None => {
            proof {
                assert(old(full_text)@ + Seq::<char>::empty() =~= old(full_text)@);
            }
        },
    }
    if chunk.done {
        tokens.push(StoryToken { token: String::new(), done: true });
    }
    proof {
        assert(token_views(tokens@) =~= tokens_of(
            match chunk.response {
                Some(text) => Some(text@),
                None => None,
            },
            chunk.done,
        ));
    }
    tokens
}

} // verus!
