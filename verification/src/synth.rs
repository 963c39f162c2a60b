use vstd::prelude::*;
use vstd::slice::slice_to_vec;
use vstd::string::StringExecFns;
use crate::audio::{chunk_views, concat, concat_samples, normalize, normalized, TARGET_PEAK};
use crate::error::KokoroError;
use crate::sentences::{sentences, split_sentences};
use crate::store::VoiceStore;
use crate::text::views;
use crate::tokenize::{pad_tokens, padded, token_ids, tokenize, MAX_PHONEME_LEN};
use crate::voices::STYLE_DIM;

verus! {

/// Where a synthesis stands: what it waits for.
#[derive(Debug, Clone, Copy, PartialEq, Eq, Structural)]
pub enum Stage {
    /// For the phonemes of the whole text.
    Whole,
    /// For the audio of the whole text, which fits in one pass.
    Single,
    /// For the phonemes of the batch with the next sentence added.
    Probe,
    /// For the phonemes of a batch that is full.
    Flush,
    /// For the phonemes of the last batch.
    LastFlush,
    /// For the audio of a batch that is full.
    Chunk,
    /// For the audio of the last batch.
    LastChunk,
    /// For nothing: the audio is complete.
    Done,
}

/// What the caller is to do next.
#[derive(Debug)]
pub enum Action {
    /// Phonemize this text and hand the phonemes to `Synthesis::phonemes`.
    Phonemize(String),
    /// Run the model on these padded tokens with this style vector (the
    /// bits of its values), keep the samples as the next chunk, and call
    /// `Synthesis::audio`.
    Infer { input_ids: Vec<i64>, style: Vec<u32> },
    /// Join the chunks in their order and normalize the result once.
    Finish,
}

/// A batch with one more sentence: the sentence alone when the batch is
/// empty, else the two with a space between.
pub open spec fn extended(batch: Seq<char>, sentence: Seq<char>) -> Seq<char> {
    if batch.len() == 0 {
        sentence
    } else {
        batch + seq![' '] + sentence
    }
}

/// The batch made of the sentences `first..next`, joined by single spaces.
pub open spec fn batch_text(list: Seq<Seq<char>>, first: int, next: int) -> Seq<char>
    decreases next - first,
{
    if next <= first {
        Seq::empty()
    } else {
        extended(batch_text(list, first, next - 1), list[next - 1])
    }
}

/// Whether `action` is the model run for `tokens` with the style row that
/// the voice `voice` has for their number.
pub open spec fn runs_model(
    action: Action,
    tokens: Seq<i64>,
    voices: Map<Seq<char>, Seq<u32>>,
    voice: Seq<char>,
) -> bool {
    action matches Action::Infer { input_ids, style } && input_ids@ == padded(tokens)
        && style@.len() == STYLE_DIM && style@ == voices[voice].subrange(
        tokens.len() * STYLE_DIM,
        tokens.len() * STYLE_DIM + STYLE_DIM,
    )
}

/// What becomes of a chunk with these tokens: the model is run on it, unless
/// the voice is unknown or has no row for so many tokens.
pub open spec fn chunk_outcome(
    r: Result<Action, KokoroError>,
    tokens: Seq<i64>,
    voices: Map<Seq<char>, Seq<u32>>,
    voice: Seq<char>,
) -> bool {
    if !voices.dom().contains(voice) {
        r matches Err(KokoroError::UnknownVoice(n)) && n@ == voice
    } else if tokens.len() >= MAX_PHONEME_LEN {
        r == Err::<Action, KokoroError>(KokoroError::VoiceIndexOutOfRange(tokens.len() as usize))
    } else {
        r matches Ok(a) && runs_model(a, tokens, voices, voice)
    }
}

/// One synthesis under way. It holds the decisions; the caller phonemizes
/// and runs the model as the actions say, and hands back what came of it.
pub struct Synthesis {
    text: String,
    voice: String,
    list: Vec<String>,
    first: usize,
    next: usize,
    batch: String,
    candidate: String,
    stage: Stage,
}

impl Synthesis {
    /// The text to synthesize.
    pub closed spec fn text(&self) -> Seq<char> {
        self.text@
    }

    /// The name of the voice.
    pub closed spec fn voice(&self) -> Seq<char> {
        self.voice@
    }

    /// What the synthesis waits for.
    pub closed spec fn stage(&self) -> Stage {
        self.stage
    }

    /// The sentences of the text, once it is known that it needs chunks.
    pub closed spec fn sentence_list(&self) -> Seq<Seq<char>> {
        views(self.list@)
    }

    /// The number of the first sentence of the batch.
    pub closed spec fn first(&self) -> int {
        self.first as int
    }

    /// The number of the sentence that comes next.
    pub closed spec fn next(&self) -> int {
        self.next as int
    }

    /// The batch: the sentences gathered for the next chunk.
    pub closed spec fn batch(&self) -> Seq<char> {
        self.batch@
    }

    /// The batch with the next sentence added, while its phonemes are
    /// awaited.
    pub closed spec fn candidate(&self) -> Seq<char> {
        self.candidate@
    }

    /// Whether the synthesis waits for phonemes.
    pub open spec fn awaits_phonemes(&self) -> bool {
        self.stage() == Stage::Whole || self.stage() == Stage::Probe || self.stage()
            == Stage::Flush || self.stage() == Stage::LastFlush
    }

    /// Whether the synthesis waits for audio.
    pub open spec fn awaits_audio(&self) -> bool {
        self.stage() == Stage::Single || self.stage() == Stage::Chunk || self.stage()
            == Stage::LastChunk
    }

    /// The synthesis is consistent: the batch is made of the sentences
    /// `first..next`, and while a sentence is probed it is there.
    pub open spec fn wf(&self) -> bool {
        &&& 0 <= self.first() <= self.next() <= self.sentence_list().len()
        &&& self.batch() == batch_text(self.sentence_list(), self.first(), self.next())
        &&& self.stage() == Stage::Probe ==> self.next() < self.sentence_list().len()
            && self.candidate() == extended(self.batch(), self.sentence_list()[self.next()])
        &&& (self.stage() == Stage::Flush || self.stage() == Stage::Chunk) ==> self.next()
            < self.sentence_list().len()
        &&& (self.stage() == Stage::Whole || self.stage() == Stage::Single)
            ==> self.sentence_list().len() == 0
        &&& (self.stage() != Stage::Whole && self.stage() != Stage::Single && self.stage()
            != Stage::Done) ==> self.sentence_list() == sentences(self.text())
    }

    /// Whether the synthesis `self`, with `action`, is what follows when the
    /// batch `batch`, made of the sentences `first..next`, is carried on:
    /// the next sentence is probed; or, when none is left, the batch is
    /// flushed as the last one; or, when the batch is empty too, the audio
    /// is complete.
    pub open spec fn carries_on(
        &self,
        action: Action,
        list: Seq<Seq<char>>,
        first: int,
        next: int,
        batch: Seq<char>,
    ) -> bool {
        &&& self.sentence_list() == list
        &&& self.first() == first
        &&& self.next() == next
        &&& self.batch() == batch
        &&& if next < list.len() {
            &&& self.stage() == Stage::Probe
            &&& self.candidate() == extended(batch, list[next])
            &&& action matches Action::Phonemize(t) && t@ == self.candidate()
        } else if batch.len() > 0 {
            &&& self.stage() == Stage::LastFlush
            &&& action matches Action::Phonemize(t) && t@ == batch
        } else {
            &&& self.stage() == Stage::Done
            &&& action is Finish
        }
    }

    /// Whether nothing but the stage differs between `self` and `before`.
    pub open spec fn same_batch(&self, before: Synthesis) -> bool {
        &&& self.sentence_list() == before.sentence_list()
        &&& self.first() == before.first()
        &&& self.next() == before.next()
        &&& self.batch() == before.batch()
    }

    /// What the synthesis waits for.
    pub fn current_stage(&self) -> (stage: Stage)
        ensures
            stage == self.stage(),
    {
        self.stage
    }

    /// Begins the synthesis of `text` in the voice `voice`: the whole text
    /// is to be phonemized first.
    pub fn start(text: &str, voice: &str) -> (r: (Synthesis, Action))
        ensures
            r.0.wf(),
            r.0.text() == text@,
            r.0.voice() == voice@,
            r.0.stage() == Stage::Whole,
            r.1 matches Action::Phonemize(t) && t@ == text@,
    {
        let synthesis = Synthesis {
            text: String::from_str(text),
            voice: String::from_str(voice),
            list: Vec::new(),
            first: 0,
            next: 0,
            batch: String::new(),
            candidate: String::new(),
            stage: Stage::Whole,
        };
        (synthesis, Action::Phonemize(String::from_str(text)))
    }

    fn carry_on(&mut self) -> (action: Action)
        requires
            old(self).first() <= old(self).next() <= old(self).sentence_list().len(),
            old(self).batch() == batch_text(
                old(self).sentence_list(),
                old(self).first(),
                old(self).next(),
            ),
            old(self).sentence_list() == sentences(old(self).text()),
        ensures
            final(self).wf(),
            final(self).text() == old(self).text(),
            final(self).voice() == old(self).voice(),
            final(self).carries_on(
                action,
                old(self).sentence_list(),
                old(self).first(),
                old(self).next(),
                old(self).batch(),
            ),
            final(self).asks(action),
    {
        if self.next < self.list.len() {
            let sentence = &self.list[self.next];
            let mut candidate = self.batch.clone();
            if candidate.as_str().is_empty() {
                candidate = sentence.clone();
            } else {
                candidate.append(" ");
                candidate.append(sentence.as_str());
                proof {
                    reveal_strlit(" ");
                    assert(" "@ =~= seq![' ']);
                }
            }
            self.candidate = candidate.clone();
            self.stage = Stage::Probe;
            Action::Phonemize(candidate)
        } else if !self.batch.as_str().is_empty() {
            self.stage = Stage::LastFlush;
            Action::Phonemize(self.batch.clone())
        } else {
            self.stage = Stage::Done;
            Action::Finish
        }
    }

    fn chunk(&self, tokens: &Vec<i64>, voices: &VoiceStore) -> (r: Result<Action, KokoroError>)
        requires
            tokens.len() <= MAX_PHONEME_LEN,
        ensures
            chunk_outcome(r, tokens@, voices.voices(), self.voice()),
    {
        let voice = match voices.get(self.voice.as_str()) {
            Ok(voice) => voice,
            Err(e) => {
                return Err(e);
            },
        };
        let style = match voice.embedding(tokens.len()) {
            Ok(style) => style,
            Err(e) => {
                return Err(e);
            },
        };
        let input_ids = pad_tokens(tokens.as_slice());
        Ok(Action::Infer { input_ids, style: slice_to_vec(style) })
    }

    fn after_chunk(&mut self, last: bool) -> (action: Action)
        requires
            old(self).wf(),
            last ==> (old(self).stage() == Stage::LastFlush || old(self).stage()
                == Stage::LastChunk),
            !last ==> (old(self).stage() == Stage::Flush || old(self).stage() == Stage::Chunk),
        ensures
            final(self).wf(),
            final(self).text() == old(self).text(),
            final(self).voice() == old(self).voice(),
            old(self).follows_chunk(*final(self), action, last),
            final(self).asks(action),
            final(self).effort() < old(self).effort(),
    {
        if last {
            self.stage = Stage::Done;
            Action::Finish
        } else {
            proof {
                assert(self.sentence_list().len() == self.list@.len());
            }
            let here = self.next;
            assert(here < self.list.len());
            self.batch = self.list[here].clone();
            self.first = here;
            self.next = here + 1;
            proof {
                let list = self.sentence_list();
                assert(batch_text(list, self.first(), self.next() - 1).len() == 0);
            }
            self.carry_on()
        }
    }

    /// Whether `after`, with `action`, is what follows a chunk of `self`
    /// that is done or was passed over: after the last chunk the audio is
    /// complete; after another, the sentence that did not fit begins the
    /// new batch.
    pub open spec fn follows_chunk(&self, after: Synthesis, action: Action, last: bool) -> bool {
        if last {
            after.stage() == Stage::Done && action is Finish && after.same_batch(*self)
        } else {
            after.carries_on(
                action,
                self.sentence_list(),
                self.next(),
                self.next() + 1,
                self.sentence_list()[self.next()],
            )
        }
    }

    /// Takes the phonemes that were asked for and decides what is next.
    ///
    /// Of the whole text: no token is an error; fewer tokens than the
    /// model's limit go to the model in one pass; otherwise the text is cut
    /// into sentences, which are gathered into batches. Of a batch with one
    /// more sentence: if the tokens reach the limit and the batch is not
    /// empty, the batch as it was is flushed, else the sentence joins it.
    /// Of a batch that is flushed: its tokens go to the model, and a batch
    /// without tokens is passed over.
    pub fn phonemes(&mut self, phonemes: &str, voices: &VoiceStore) -> (r: Result<
        Action,
        KokoroError,
    >)
        requires
            old(self).wf(),
            old(self).awaits_phonemes(),
        ensures
            final(self).wf(),
            final(self).text() == old(self).text(),
            final(self).voice() == old(self).voice(),
            r matches Ok(a) ==> final(self).asks(a),
            r is Ok && old(self).stage() != Stage::Whole ==> final(self).effort() < old(
                self,
            ).effort(),
            ({
                let tokens = token_ids(phonemes@);
                let before = *old(self);
                let after = *final(self);
                match before.stage() {
                    Stage::Whole => if tokens.len() == 0 {
                        r == Err::<Action, KokoroError>(KokoroError::EmptyTokenization)
                    } else if tokens.len() < MAX_PHONEME_LEN {
                        chunk_outcome(r, tokens, voices.voices(), before.voice()) && (r is Ok
                            ==> after.stage() == Stage::Single)
                    } else {
                        r matches Ok(a) && after.carries_on(
                            a,
                            sentences(before.text()),
                            0,
                            0,
                            Seq::empty(),
                        )
                    },
                    Stage::Probe => if tokens.len() >= MAX_PHONEME_LEN && before.batch().len()
                        > 0 {
                        &&& r matches Ok(Action::Phonemize(t)) && t@ == before.batch()
                        &&& after.stage() == Stage::Flush
                        &&& after.same_batch(before)
                    } else {
                        r matches Ok(a) && after.carries_on(
                            a,
                            before.sentence_list(),
                            before.first(),
                            before.next() + 1,
                            before.candidate(),
                        )
                    },
                    _ => {
                        let last = before.stage() == Stage::LastFlush;
                        if tokens.len() == 0 {
                            r matches Ok(a) && before.follows_chunk(after, a, last)
                        } else {
                            &&& chunk_outcome(r, tokens, voices.voices(), before.voice())
                            &&& after.same_batch(before)
                            &&& r is Ok ==> after.stage() == (if last {
                                Stage::LastChunk
                            } else {
                                Stage::Chunk
                            })
                        }
                    },
                }
            }),
    {
        let tokens = tokenize(phonemes);
        match self.stage {
            Stage::Whole => {
                if tokens.len() == 0 {
                    return Err(KokoroError::EmptyTokenization);
                }
                if tokens.len() < MAX_PHONEME_LEN {
                    let r = self.chunk(&tokens, voices);
                    if r.is_ok() {
                        self.stage = Stage::Single;
                    }
                    return r;
                }
                self.list = split_sentences(self.text.as_str());
                self.first = 0;
                self.next = 0;
                self.batch = String::new();
                Ok(self.carry_on())
            },
            Stage::Probe => {
                if tokens.len() >= MAX_PHONEME_LEN && !self.batch.as_str().is_empty() {
                    self.stage = Stage::Flush;
                    Ok(Action::Phonemize(self.batch.clone()))
                } else {
                    proof {
                        assert(self.sentence_list().len() == self.list@.len());
                    }
                    let here = self.next;
                    assert(here < self.list.len());
                    self.batch = self.candidate.clone();
                    self.next = here + 1;
                    Ok(self.carry_on())
                }
            },
            _ => {
                let last = self.stage == Stage::LastFlush;
                if tokens.len() == 0 {
                    Ok(self.after_chunk(last))
                } else {
                    let r = self.chunk(&tokens, voices);
                    if r.is_ok() {
                        self.stage = if last {
                            Stage::LastChunk
                        } else {
                            Stage::Chunk
                        };
                    }
                    r
                }
            },
        }
    }

    /// Takes note that the audio that was asked for is there, and decides
    /// what is next.
    pub fn audio(&mut self) -> (action: Action)
        requires
            old(self).wf(),
            old(self).awaits_audio(),
        ensures
            final(self).wf(),
            final(self).text() == old(self).text(),
            final(self).voice() == old(self).voice(),
            final(self).asks(action),
            final(self).effort() < old(self).effort(),
            match old(self).stage() {
                Stage::Single => final(self).stage() == Stage::Done && action is Finish,
                _ => old(self).follows_chunk(
                    *final(self),
                    action,
                    old(self).stage() == Stage::LastChunk,
                ),
            },
    {
        match self.stage {
            Stage::Single => {
                self.stage = Stage::Done;
                Action::Finish
            },
            _ => {
                let last = self.stage == Stage::LastChunk;
                self.after_chunk(last)
            },
        }
    }
}

impl Synthesis {
    /// How far the synthesis is from its end, once the whole text has been
    /// looked at: every step brings it nearer.
    pub open spec fn effort(&self) -> int {
        4 * (self.sentence_list().len() - self.next()) + (match self.stage() {
            Stage::Whole => 4,
            Stage::Probe => 3,
            Stage::Flush => 2,
            Stage::LastFlush => 2,
            Stage::Single => 1,
            Stage::Chunk => 1,
            Stage::LastChunk => 1,
            Stage::Done => 0int,
        })
    }

    /// Whether `action` is what a synthesis at this stage asks for.
    pub open spec fn asks(&self, action: Action) -> bool {
        match action {
            Action::Phonemize(_) => self.awaits_phonemes(),
            Action::Infer { input_ids, style } => self.awaits_audio() && 3 <= input_ids@.len()
                <= MAX_PHONEME_LEN + 1 && style@.len() == STYLE_DIM,
            Action::Finish => self.stage() == Stage::Done,
        }
    }
}

/// Whether the phonemizer answered `text` with `phonemes`.
pub open spec fn answered<P: Fn(&str) -> Result<String, KokoroError>>(
    phonemizer: &P,
    text: Seq<char>,
    phonemes: Seq<char>,
) -> bool {
    exists|t: &str, p: String|
        t@ == text && p@ == phonemes && #[trigger] phonemizer.ensures(
            (t,),
            Ok::<String, KokoroError>(p),
        )
}

/// Whether the phonemizer failed with `e` on `text`.
pub open spec fn refused<P: Fn(&str) -> Result<String, KokoroError>>(
    phonemizer: &P,
    text: Seq<char>,
    e: KokoroError,
) -> bool {
    exists|t: &str| t@ == text && #[trigger] phonemizer.ensures((t,), Err::<String, KokoroError>(e))
}

/// Whether the model gave `chunk` for these ids and this style vector.
pub open spec fn ran<T, M: Fn(&[i64], &[u32]) -> Result<Vec<T>, KokoroError>>(
    model: &M,
    ids: Seq<i64>,
    style: Seq<u32>,
    chunk: Seq<T>,
) -> bool {
    exists|i: &[i64], s: &[u32], samples: Vec<T>|
        i@ == ids && s@ == style && samples@ == chunk && #[trigger] model.ensures(
            (i, s),
            Ok::<Vec<T>, KokoroError>(samples),
        )
}

/// Whether the model failed with `e` on these ids and this style vector.
pub open spec fn broke<T, M: Fn(&[i64], &[u32]) -> Result<Vec<T>, KokoroError>>(
    model: &M,
    ids: Seq<i64>,
    style: Seq<u32>,
    e: KokoroError,
) -> bool {
    exists|i: &[i64], s: &[u32]|
        i@ == ids && s@ == style && #[trigger] model.ensures(
            (i, s),
            Err::<Vec<T>, KokoroError>(e),
        )
}

/// The style row that a voice of the store has for `tokens`.
pub open spec fn style_for(
    voices: Map<Seq<char>, Seq<u32>>,
    voice: Seq<char>,
    tokens: Seq<i64>,
) -> Seq<u32> {
    voices[voice].subrange(tokens.len() * STYLE_DIM, tokens.len() * STYLE_DIM + STYLE_DIM)
}

/// Whether `chunk` is the audio of `tokens` in the voice: the tokens are
/// fewer than the model's limit, the voice is in the store, and the chunk is
/// what the model gave for the padded tokens and the style row of their
/// number.
pub open spec fn sung<T, M: Fn(&[i64], &[u32]) -> Result<Vec<T>, KokoroError>>(
    model: &M,
    tokens: Seq<i64>,
    voice: Seq<char>,
    voices: Map<Seq<char>, Seq<u32>>,
    chunk: Seq<T>,
) -> bool {
    tokens.len() < MAX_PHONEME_LEN && voices.dom().contains(voice) && ran(
        model,
        padded(tokens),
        style_for(voices, voice, tokens),
        chunk,
    )
}

/// Whether `e` is how the chunk of `tokens`, of which there are some, fails:
/// the voice is not in the store; or it is, and it has no style row for so
/// many tokens; or the model failed on the padded tokens and the style row.
pub open spec fn chunk_fails<T, M: Fn(&[i64], &[u32]) -> Result<Vec<T>, KokoroError>>(
    e: KokoroError,
    tokens: Seq<i64>,
    voice: Seq<char>,
    voices: Map<Seq<char>, Seq<u32>>,
    model: &M,
) -> bool {
    tokens.len() > 0 && if !voices.dom().contains(voice) {
        e matches KokoroError::UnknownVoice(name) && name@ == voice
    } else if tokens.len() >= MAX_PHONEME_LEN {
        e == KokoroError::VoiceIndexOutOfRange(tokens.len() as usize)
    } else {
        broke::<T, M>(model, padded(tokens), style_for(voices, voice, tokens), e)
    }
}

/// What the synthesis of a long text waits for, between two runs of the
/// model.
pub enum Waits {
    /// For the phonemes of the batch with the next sentence added.
    Probe,
    /// For the phonemes of a batch that is full.
    Flush,
    /// For the phonemes of the last batch.
    Last,
    /// For nothing: every sentence is spoken.
    Nothing,
}

/// Where the synthesis of a long text stands after some answers of the
/// phonemizer: the number of the sentence that comes next, the batch, what
/// is waited for, and the tokens of the chunks that were flushed so far.
pub struct Run {
    pub next: int,
    pub batch: Seq<char>,
    pub waits: Waits,
    pub inputs: Seq<Seq<i64>>,
}

/// The run that goes on with the sentence `next` and the batch `batch`: the
/// sentence is probed; or, when none is left, the batch is flushed as the
/// last one; or, when the batch is empty too, nothing is left to do.
pub open spec fn settle(
    list: Seq<Seq<char>>,
    next: int,
    batch: Seq<char>,
    inputs: Seq<Seq<i64>>,
) -> Run {
    Run {
        next,
        batch,
        waits: if next < list.len() {
            Waits::Probe
        } else if batch.len() > 0 {
            Waits::Last
        } else {
            Waits::Nothing
        },
        inputs,
    }
}

/// The text whose phonemes a run waits for.
pub open spec fn request(list: Seq<Seq<char>>, run: Run) -> Seq<char> {
    match run.waits {
        Waits::Probe => extended(run.batch, list[run.next]),
        _ => run.batch,
    }
}

/// The tokens of a flushed batch as a list of chunks: a batch without tokens
/// gives no chunk.
pub open spec fn chunk_of(tokens: Seq<i64>) -> Seq<Seq<i64>> {
    if tokens.len() == 0 {
        Seq::empty()
    } else {
        seq![tokens]
    }
}

/// The run after the phonemizer's answer to its request. Of a batch with
/// one more sentence: if the tokens reach the model's limit and the batch is
/// not empty, the batch as it was is flushed, else the sentence joins it.
/// Of a batch that is flushed: its tokens are a chunk, and the sentence that
/// did not fit begins the new batch.
pub open spec fn step(list: Seq<Seq<char>>, run: Run, answer: Seq<char>) -> Run {
    let tokens = token_ids(answer);
    match run.waits {
        Waits::Probe => if tokens.len() >= MAX_PHONEME_LEN && run.batch.len() > 0 {
            Run { next: run.next, batch: run.batch, waits: Waits::Flush, inputs: run.inputs }
        } else {
            settle(list, run.next + 1, extended(run.batch, list[run.next]), run.inputs)
        },
        Waits::Flush => settle(list, run.next + 1, list[run.next], run.inputs + chunk_of(tokens)),
        Waits::Last => Run {
            next: run.next,
            batch: run.batch,
            waits: Waits::Nothing,
            inputs: run.inputs + chunk_of(tokens),
        },
        Waits::Nothing => run,
    }
}

/// The run of the sentences `list` after the answers `answers` of the
/// phonemizer, each to the request of the run before it.
pub open spec fn run_of(list: Seq<Seq<char>>, answers: Seq<Seq<char>>) -> Run
    decreases answers.len(),
{
    if answers.len() == 0 {
        settle(list, 0, Seq::empty(), Seq::empty())
    } else {
        step(list, run_of(list, answers.drop_last()), answers.last())
    }
}

/// Whether the answers are the phonemizer's: each is its answer to the
/// request of the run after the answers before it, which waits for one.
pub open spec fn heard<P: Fn(&str) -> Result<String, KokoroError>>(
    list: Seq<Seq<char>>,
    answers: Seq<Seq<char>>,
    phonemizer: &P,
) -> bool {
    forall|j: int|
        0 <= j < answers.len() ==> !(run_of(list, answers.take(j)).waits is Nothing) && answered(
            phonemizer,
            request(list, run_of(list, answers.take(j))),
            #[trigger] answers[j],
        )
}

/// Whether `samples` is the audio of the sentences `list` when the
/// phonemizer gave `answers` and the model gave `chunks`: the answers are
/// the phonemizer's and bring the run to its end; there is one chunk for
/// each batch that was flushed with tokens, and it is the audio of that
/// batch's tokens; and the samples are the chunks in their order, with
/// nothing between them.
pub open spec fn chunk_run<T, P, M>(
    samples: Seq<T>,
    list: Seq<Seq<char>>,
    answers: Seq<Seq<char>>,
    chunks: Seq<Seq<T>>,
    voice: Seq<char>,
    voices: Map<Seq<char>, Seq<u32>>,
    phonemizer: &P,
    model: &M,
) -> bool where
    P: Fn(&str) -> Result<String, KokoroError>,
    M: Fn(&[i64], &[u32]) -> Result<Vec<T>, KokoroError>,
 {
    &&& heard(list, answers, phonemizer)
    &&& run_of(list, answers).waits is Nothing
    &&& chunks.len() == run_of(list, answers).inputs.len()
    &&& forall|k: int|
        0 <= k < chunks.len() ==> sung(
            model,
            run_of(list, answers).inputs[k],
            voice,
            voices,
            #[trigger] chunks[k],
        )
    &&& samples == concat(chunks)
}

/// Whether a run waits for the phonemes of a batch that is flushed.
pub open spec fn flushing(run: Run) -> bool {
    run.waits is Flush || run.waits is Last
}

/// Whether `e` is how the synthesis of the sentences `list` fails after the
/// phonemizer gave `answers`, which are its own: the phonemizer fails on
/// the request that follows them; or the last of them is for a batch that
/// is flushed, and the chunk of its tokens fails.
pub open spec fn run_fails<T, P, M>(
    e: KokoroError,
    list: Seq<Seq<char>>,
    answers: Seq<Seq<char>>,
    voice: Seq<char>,
    voices: Map<Seq<char>, Seq<u32>>,
    phonemizer: &P,
    model: &M,
) -> bool where
    P: Fn(&str) -> Result<String, KokoroError>,
    M: Fn(&[i64], &[u32]) -> Result<Vec<T>, KokoroError>,
 {
    &&& heard(list, answers, phonemizer)
    &&& {
        ||| !(run_of(list, answers).waits is Nothing) && refused(
            phonemizer,
            request(list, run_of(list, answers)),
            e,
        )
        ||| answers.len() > 0 && flushing(run_of(list, answers.drop_last())) && chunk_fails::<T, M>(
            e,
            token_ids(answers.last()),
            voice,
            voices,
            model,
        )
    }
}

/// Whether `samples` is the audio of a text whose phonemes gave `tokens`.
/// There is a token at least. Fewer tokens than the model's limit are one
/// pass: the samples are the audio of these tokens. Otherwise the text is
/// cut into sentences, and the samples are the audio of a run of them.
pub open spec fn spoken<T, P, M>(
    samples: Seq<T>,
    tokens: Seq<i64>,
    text: Seq<char>,
    voice: Seq<char>,
    voices: Map<Seq<char>, Seq<u32>>,
    phonemizer: &P,
    model: &M,
) -> bool where
    P: Fn(&str) -> Result<String, KokoroError>,
    M: Fn(&[i64], &[u32]) -> Result<Vec<T>, KokoroError>,
 {
    tokens.len() > 0 && if tokens.len() < MAX_PHONEME_LEN {
        sung(model, tokens, voice, voices, samples)
    } else {
        exists|answers: Seq<Seq<char>>, chunks: Seq<Seq<T>>| #[trigger]
            chunk_run(samples, sentences(text), answers, chunks, voice, voices, phonemizer, model)
    }
}

/// Whether `e` is how the synthesis of a text fails whose phonemes gave
/// `tokens`: no token is `EmptyTokenization`; with fewer tokens than the
/// model's limit, the one chunk fails; otherwise a run of the text's
/// sentences fails.
pub open spec fn unspoken<T, P, M>(
    e: KokoroError,
    tokens: Seq<i64>,
    text: Seq<char>,
    voice: Seq<char>,
    voices: Map<Seq<char>, Seq<u32>>,
    phonemizer: &P,
    model: &M,
) -> bool where
    P: Fn(&str) -> Result<String, KokoroError>,
    M: Fn(&[i64], &[u32]) -> Result<Vec<T>, KokoroError>,
 {
    if tokens.len() == 0 {
        e == KokoroError::EmptyTokenization
    } else if tokens.len() < MAX_PHONEME_LEN {
        chunk_fails::<T, M>(e, tokens, voice, voices, model)
    } else {
        exists|answers: Seq<Seq<char>>| #[trigger]
            run_fails::<T, P, M>(e, sentences(text), answers, voice, voices, phonemizer, model)
    }
}

/// One more answer of the phonemizer, to the request of the run, carries
/// the run one step on.
pub proof fn lemma_heard_push<P: Fn(&str) -> Result<String, KokoroError>>(
    list: Seq<Seq<char>>,
    answers: Seq<Seq<char>>,
    answer: Seq<char>,
    phonemizer: &P,
)
    requires
        heard(list, answers, phonemizer),
        !(run_of(list, answers).waits is Nothing),
        answered(phonemizer, request(list, run_of(list, answers)), answer),
    ensures
        heard(list, answers.push(answer), phonemizer),
        run_of(list, answers.push(answer)) == step(list, run_of(list, answers), answer),
        answers.push(answer).drop_last() == answers,
        answers.push(answer).last() == answer,
{
    let more = answers.push(answer);
    assert(more.drop_last() =~= answers);
    assert forall|j: int| 0 <= j < more.len() implies !(run_of(list, more.take(j)).waits
        is Nothing) && answered(
        phonemizer,
        request(list, run_of(list, more.take(j))),
        #[trigger] more[j],
    ) by {
        if j < answers.len() {
            assert(more.take(j) =~= answers.take(j));
            assert(more[j] == answers[j]);
        } else {
            assert(more.take(j) =~= answers);
        }
    }
}

impl Synthesis {
    /// Whether the synthesis of a long text, with the action it asks for,
    /// stands where the run of the sentences `list` stands after `answers`,
    /// when `done` chunks were made so far. While a chunk is being made, the
    /// run is one step ahead: the chunk's tokens are the last of its inputs.
    pub open spec fn tracks(
        &self,
        action: Action,
        list: Seq<Seq<char>>,
        answers: Seq<Seq<char>>,
        voices: Map<Seq<char>, Seq<u32>>,
        done: int,
    ) -> bool {
        let run = run_of(list, answers);
        let before = run_of(list, answers.drop_last());
        let tokens = token_ids(answers.last());
        match self.stage() {
            Stage::Probe => {
                &&& run.waits is Probe
                &&& run.next == self.next()
                &&& run.batch == self.batch()
                &&& self.sentence_list() == list
                &&& done == run.inputs.len()
                &&& action matches Action::Phonemize(t) && t@ == request(list, run)
            },
            Stage::Flush => {
                &&& run.waits is Flush
                &&& run.next == self.next()
                &&& run.batch == self.batch()
                &&& self.sentence_list() == list
                &&& done == run.inputs.len()
                &&& action matches Action::Phonemize(t) && t@ == request(list, run)
            },
            Stage::LastFlush => {
                &&& run.waits is Last
                &&& run.batch == self.batch()
                &&& done == run.inputs.len()
                &&& action matches Action::Phonemize(t) && t@ == request(list, run)
            },
            Stage::Chunk => {
                &&& answers.len() > 0
                &&& before.waits is Flush
                &&& before.next == self.next()
                &&& self.sentence_list() == list
                &&& tokens.len() > 0
                &&& done == before.inputs.len()
                &&& runs_model(action, tokens, voices, self.voice())
                &&& tokens.len() < MAX_PHONEME_LEN
                &&& voices.dom().contains(self.voice())
            },
            Stage::LastChunk => {
                &&& answers.len() > 0
                &&& before.waits is Last
                &&& tokens.len() > 0
                &&& done == before.inputs.len()
                &&& runs_model(action, tokens, voices, self.voice())
                &&& tokens.len() < MAX_PHONEME_LEN
                &&& voices.dom().contains(self.voice())
            },
            Stage::Done => {
                &&& run.waits is Nothing
                &&& done == run.inputs.len()
                &&& action is Finish
            },
            _ => false,
        }
    }
}

/// Whether `samples` is the audio of `text` in the voice: the phonemizer
/// answered the text with phonemes, and the samples are the audio of their
/// tokens.
pub open spec fn synthesized<T, P, M>(
    samples: Seq<T>,
    text: Seq<char>,
    voice: Seq<char>,
    voices: Map<Seq<char>, Seq<u32>>,
    phonemizer: &P,
    model: &M,
) -> bool where
    P: Fn(&str) -> Result<String, KokoroError>,
    M: Fn(&[i64], &[u32]) -> Result<Vec<T>, KokoroError>,
 {
    exists|phonemes: Seq<char>| #[trigger]
        answered(phonemizer, text, phonemes) && spoken(
            samples,
            token_ids(phonemes),
            text,
            voice,
            voices,
            phonemizer,
            model,
        )
}

/// Whether `e` is how the synthesis of `text` in the voice fails: the
/// phonemizer fails on the text; or it answers with phonemes, and the
/// synthesis of their tokens fails.
pub open spec fn synthesis_fails<T, P, M>(
    e: KokoroError,
    text: Seq<char>,
    voice: Seq<char>,
    voices: Map<Seq<char>, Seq<u32>>,
    phonemizer: &P,
    model: &M,
) -> bool where
    P: Fn(&str) -> Result<String, KokoroError>,
    M: Fn(&[i64], &[u32]) -> Result<Vec<T>, KokoroError>,
 {
    refused(phonemizer, text, e) || exists|phonemes: Seq<char>| #[trigger]
        answered(phonemizer, text, phonemes) && unspoken::<T, P, M>(
            e,
            token_ids(phonemes),
            text,
            voice,
            voices,
            phonemizer,
            model,
        )
}

/// Synthesizes a text in a voice of the store. `phonemizer` turns text into
/// phonemes and `model` turns padded tokens and a style vector into audio;
/// the first error of either ends the synthesis, and so does a chunk for
/// which the voice is missing or has no style row: no audio is returned
/// then. The whole text is phonemized first, and no token in its phonemes
/// is an error. A text of fewer tokens than the model's limit is one pass:
/// the model's audio for it is the result. A longer one is cut into
/// sentences, which are gathered into batches that stay under the limit;
/// the result is the audio of the batches in their order, with nothing
/// between them. The audio is not yet normalized.
pub fn synthesize<T: Copy, P, M>(
    text: &str,
    voice: &str,
    voices: &VoiceStore,
    phonemizer: &P,
    model: &M,
) -> (r: Result<Vec<T>, KokoroError>) where
    P: Fn(&str) -> Result<String, KokoroError>,
    M: Fn(&[i64], &[u32]) -> Result<Vec<T>, KokoroError>,

    requires
        forall|t: &str| phonemizer.requires((t,)),
        forall|ids: &[i64], style: &[u32]| model.requires((ids, style)),
    ensures
        match r {
            Ok(samples) => synthesized(samples@, text@, voice@, voices.voices(), phonemizer, model),
            Err(e) => synthesis_fails::<T, P, M>(
                e,
                text@,
                voice@,
                voices.voices(),
                phonemizer,
                model,
            ),
        },
{
    let (mut synthesis, first) = Synthesis::start(text, voice);
    let whole = match phonemizer(text) {
        Ok(phonemes) => phonemes,
        Err(e) => {
            return Err(e);
        },
    };
    let ghost tokens = token_ids(whole@);
    let ghost list = sentences(text@);
    let ghost store = voices.voices();
    let ghost mut answers: Seq<Seq<char>> = Seq::empty();
    proof {
        assert(answered(phonemizer, text@, whole@));
    }
    let mut action = match synthesis.phonemes(whole.as_str(), voices) {
        Ok(action) => action,
        Err(e) => {
            proof {
                assert(unspoken::<T, P, M>(e, tokens, text@, voice@, store, phonemizer, model));
            }
            return Err(e);
        },
    };
    let mut chunks: Vec<Vec<T>> = Vec::new();
    proof {
        assert(answers.take(0) =~= answers);
    }
    loop
        invariant
            synthesis.wf(),
            synthesis.stage() != Stage::Whole,
            synthesis.asks(action),
            synthesis.voice() == voice@,
            synthesis.text() == text@,
            tokens == token_ids(whole@),
            list == sentences(text@),
            store == voices.voices(),
            tokens.len() > 0,
            answered(phonemizer, text@, whole@),
            synthesis.stage() == Stage::Single ==> tokens.len() < MAX_PHONEME_LEN
                && store.dom().contains(voice@) && runs_model(action, tokens, store, voice@),
            synthesis.stage() != Stage::Single ==> tokens.len() >= MAX_PHONEME_LEN
                && heard(list, answers, phonemizer) && synthesis.tracks(
                action,
                list,
                answers,
                store,
                chunks@.len() as int,
            ),
            synthesis.stage() != Stage::Single ==> forall|k: int|
                0 <= k < chunks@.len() ==> sung(
                    model,
                    run_of(list, answers).inputs[k],
                    voice@,
                    store,
                    #[trigger] chunk_views(chunks@)[k],
                ),
            forall|t: &str| phonemizer.requires((t,)),
            forall|ids: &[i64], style: &[u32]| model.requires((ids, style)),
        decreases synthesis.effort(),
    {
        match action {
            Action::Phonemize(request) => {
                let ghost run = run_of(list, answers);
                let phonemes = match phonemizer(request.as_str()) {
                    Ok(phonemes) => phonemes,
                    Err(e) => {
                        proof {
                            assert(refused(phonemizer, request@, e));
                            assert(run_fails::<T, P, M>(
                                e,
                                list,
                                answers,
                                voice@,
                                store,
                                phonemizer,
                                model,
                            ));
                        }
                        return Err(e);
                    },
                };
                proof {
                    assert(answered(phonemizer, request@, phonemes@));
                    lemma_heard_push(list, answers, phonemes@, phonemizer);
                    answers = answers.push(phonemes@);
                    assert(run_of(list, answers).inputs.len() >= run.inputs.len());
                    assert forall|k: int| 0 <= k < run.inputs.len() implies run_of(
                        list,
                        answers,
                    ).inputs[k] == run.inputs[k] by {}
                }
                action = match synthesis.phonemes(phonemes.as_str(), voices) {
                    Ok(action) => action,
                    Err(e) => {
                        proof {
                            assert(chunk_fails::<T, M>(
                                e,
                                token_ids(phonemes@),
                                voice@,
                                store,
                                model,
                            ));
                            assert(run_fails::<T, P, M>(
                                e,
                                list,
                                answers,
                                voice@,
                                store,
                                phonemizer,
                                model,
                            ));
                        }
                        return Err(e);
                    },
                };
            },
            Action::Infer { input_ids, style } => {
                let samples = match model(input_ids.as_slice(), style.as_slice()) {
                    Ok(samples) => samples,
                    Err(e) => {
                        proof {
                            if synthesis.stage() == Stage::Single {
                                assert(broke::<T, M>(model, input_ids@, style@, e));
                                assert(unspoken::<T, P, M>(
                                    e,
                                    tokens,
                                    text@,
                                    voice@,
                                    store,
                                    phonemizer,
                                    model,
                                ));
                            } else {
                                assert(broke::<T, M>(model, input_ids@, style@, e));
                                assert(chunk_fails::<T, M>(
                                    e,
                                    token_ids(answers.last()),
                                    voice@,
                                    store,
                                    model,
                                ));
                                assert(run_fails::<T, P, M>(
                                    e,
                                    list,
                                    answers,
                                    voice@,
                                    store,
                                    phonemizer,
                                    model,
                                ));
                            }
                        }
                        return Err(e);
                    },
                };
                proof {
                    assert(ran(model, input_ids@, style@, samples@));
                }
                if synthesis.current_stage() == Stage::Single {
                    proof {
                        assert(sung(model, tokens, voice@, store, samples@));
                    }
                    return Ok(samples);
                }
                let ghost before = chunk_views(chunks@);
                chunks.push(samples);
                proof {
                    assert(chunk_views(chunks@) =~= before.push(samples@));
                    let run = run_of(list, answers);
                    let last = token_ids(answers.last());
                    assert(run.inputs =~= run_of(list, answers.drop_last()).inputs.push(last));
                    assert(sung(model, last, voice@, store, samples@));
                }
                action = synthesis.audio();
            },
            Action::Finish => {
                let samples = concat_samples(chunks.as_slice());
                proof {
                    assert(chunk_run(
                        samples@,
                        list,
                        answers,
                        chunk_views(chunks@),
                        voice@,
                        store,
                        phonemizer,
                        model,
                    ));
                }
                return Ok(samples);
            },
        }
    }
}

/// Whether `audio` is the speech of `text` in the voice: the audio of the
/// text, normalized to `TARGET_PEAK`.
pub open spec fn created<P, M, F>(
    audio: Seq<u32>,
    text: Seq<char>,
    voice: Seq<char>,
    voices: Map<Seq<char>, Seq<u32>>,
    phonemizer: &P,
    model: &M,
    scale: &F,
) -> bool where
    P: Fn(&str) -> Result<String, KokoroError>,
    M: Fn(&[i64], &[u32]) -> Result<Vec<u32>, KokoroError>,
    F: Fn(u32, u32, u32) -> u32,
 {
    exists|raw: Seq<u32>|
        synthesized(raw, text, voice, voices, phonemizer, model) && #[trigger] normalized(
            raw,
            audio,
            TARGET_PEAK,
            scale,
        )
}

/// Generates speech from text in a voice of the store: the text is
/// synthesized, and the audio, given by the bits of its samples, is
/// normalized once, to `TARGET_PEAK`, when all of it is there. `scale` gives
/// a sample times the target over the peak. An error of the synthesis is
/// the error of the whole; no audio is returned then.
pub fn create<P, M, F>(
    text: &str,
    voice: &str,
    voices: &VoiceStore,
    phonemizer: &P,
    model: &M,
    scale: &F,
) -> (r: Result<Vec<u32>, KokoroError>) where
    P: Fn(&str) -> Result<String, KokoroError>,
    M: Fn(&[i64], &[u32]) -> Result<Vec<u32>, KokoroError>,
    F: Fn(u32, u32, u32) -> u32,

    requires
        forall|t: &str| phonemizer.requires((t,)),
        forall|ids: &[i64], style: &[u32]| model.requires((ids, style)),
        forall|sample: u32, peak: u32, target: u32| scale.requires((sample, peak, target)),
    ensures
        r matches Ok(audio) ==> created(
            audio@,
            text@,
            voice@,
            voices.voices(),
            phonemizer,
            model,
            scale,
        ),
        r matches Err(e) ==> synthesis_fails::<u32, P, M>(
            e,
            text@,
            voice@,
            voices.voices(),
            phonemizer,
            model,
        ),
{
    let mut samples = match synthesize(text, voice, voices, phonemizer, model) {
        Ok(samples) => samples,
        Err(e) => {
            return Err(e);
        },
    };
    let ghost joined = samples@;
    proof {
        assert(synthesized(joined, text@, voice@, voices.voices(), phonemizer, model));
    }
    normalize(&mut samples, TARGET_PEAK, scale);
    let audio = samples;
    proof {
        assert(normalized(joined, audio@, TARGET_PEAK, scale));
        assert(created(audio@, text@, voice@, voices.voices(), phonemizer, model, scale));
    }
    Ok(audio)
}

} // verus!
