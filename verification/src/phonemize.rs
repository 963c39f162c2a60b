use vstd::prelude::*;
use crate::engine::{engine_takes, Phonemizer};
use crate::error::KokoroError;
use crate::segments::{
    breaks, is_preserved, lemma_breaks_keep, lemma_segments_keep, normalize_breaks,
    segment_views, segments, split_preserving_punct, Segment, SegmentView,
};
use crate::text::{
    chars_of, is_space, lemma_trimmed_keeps, push_chars, string_of, trim_bounds, trimmed,
};

verus! {

/// `out` made ready for the next item: a space is added unless `out` is empty
/// or ends in one.
pub open spec fn spaced(out: Seq<char>) -> Seq<char> {
    if out.len() > 0 && out.last() != ' ' {
        out.push(' ')
    } else {
        out
    }
}

/// The output after a preserved punctuation character: the character itself,
/// set off by single spaces.
pub open spec fn with_punct(out: Seq<char>, c: char) -> Seq<char> {
    spaced(out).push(c).push(' ')
}

/// The output after the phonemes of a run of text: unchanged when there are
/// none.
pub open spec fn with_phonemes(out: Seq<char>, phonemes: Seq<char>) -> Seq<char> {
    if phonemes.len() == 0 {
        out
    } else {
        spaced(out) + phonemes
    }
}

/// Whether a segment needs a phonemizer: text that is more than white space.
pub open spec fn wants_phonemes(seg: SegmentView) -> bool {
    seg matches SegmentView::Text(t) && trimmed(t).len() > 0
}

/// The output after a segment that needs no phonemizer.
pub open spec fn passed(out: Seq<char>, seg: SegmentView) -> Seq<char> {
    match seg {
        SegmentView::Punct(c) => with_punct(out, c),
        SegmentView::Text(_) => out,
    }
}

/// Position and output once every segment from `next` on that needs no
/// phonemizer has been passed.
pub open spec fn settled(segs: Seq<SegmentView>, next: int, out: Seq<char>) -> (int, Seq<char>)
    decreases segs.len() - next,
{
    if next < 0 || next >= segs.len() || wants_phonemes(segs[next]) {
        (next, out)
    } else {
        settled(segs, next + 1, passed(out, segs[next]))
    }
}

fn push_spaced(out: &mut Vec<char>)
    ensures
        final(out)@ == spaced(old(out)@),
{
    let n = out.len();
    if n > 0 && out[n - 1] != ' ' {
        out.push(' ');
    }
}

/// One phonemization under way: the segments of the text, how many of them
/// are done, and the phonemes written so far.
pub struct PhonemizeJob {
    segments: Vec<Segment>,
    next: usize,
    out: Vec<char>,
}

impl PhonemizeJob {
    /// The segments of the text being phonemized.
    pub closed spec fn segs(&self) -> Seq<SegmentView> {
        segment_views(self.segments@)
    }

    /// How many segments are done.
    pub closed spec fn position(&self) -> int {
        self.next as int
    }

    /// The phonemes written so far.
    pub closed spec fn output(&self) -> Seq<char> {
        self.out@
    }

    /// The job is consistent: its position lies within its segments.
    pub closed spec fn wf(&self) -> bool {
        self.next <= self.segments.len()
    }

    /// The text that waits for a phonemizer, if any.
    pub open spec fn pending(&self) -> Option<Seq<char>> {
        if 0 <= self.position() < self.segs().len() {
            match self.segs()[self.position()] {
                SegmentView::Text(t) => if trimmed(t).len() > 0 {
                    Some(trimmed(t))
                } else {
                    None
                },
                SegmentView::Punct(_) => None,
            }
        } else {
            None
        }
    }

    /// The position of a consistent job lies within its segments.
    pub proof fn lemma_position(&self)
        requires
            self.wf(),
        ensures
            0 <= self.position() <= self.segs().len(),
    {
    }

    /// Whether every segment is done.
    pub open spec fn complete(&self) -> bool {
        self.position() == self.segs().len()
    }

    /// Begins the phonemization of `text`: line breaks become sentence
    /// boundaries, and the result is cut into segments.
    pub fn new(text: &str) -> (job: PhonemizeJob)
        ensures
            job.wf(),
            job.segs() == segments(breaks(text@)),
            job.position() == 0,
            job.output() == Seq::<char>::empty(),
    {
        let normal = normalize_breaks(text);
        let s = string_of(&normal, 0, normal.len());
        proof {
            assert(normal@.subrange(0, normal.len() as int) =~= normal@);
        }
        let segments = split_preserving_punct(s.as_str());
        PhonemizeJob { segments, next: 0, out: Vec::new() }
    }

    /// Passes every segment that needs no phonemizer, writing the preserved
    /// punctuation, and returns the trimmed text of the segment that now
    /// waits for phonemes; `None` when all segments are done.
    pub fn next_request(&mut self) -> (request: Option<String>)
        requires
            old(self).wf(),
        ensures
            final(self).wf(),
            final(self).segs() == old(self).segs(),
            (final(self).position(), final(self).output()) == settled(
                old(self).segs(),
                old(self).position(),
                old(self).output(),
            ),
            match request {
                Some(t) => final(self).pending() == Some(t@),
                None => final(self).complete(),
            },
    {
        while self.next < self.segments.len()
            invariant
                self.wf(),
                self.segs() == old(self).segs(),
                settled(self.segs(), self.position(), self.output()) == settled(
                    old(self).segs(),
                    old(self).position(),
                    old(self).output(),
                ),
            decreases self.segments.len() - self.next,
        {
            match &self.segments[self.next] {
                Segment::Punct(c) => {
                    let c = *c;
                    push_spaced(&mut self.out);
                    self.out.push(c);
                    self.out.push(' ');
                },
                Segment::Text(t) => {
                    let chars = chars_of(t.as_str());
                    let (a, b) = trim_bounds(&chars, 0, chars.len());
                    proof {
                        assert(chars@.subrange(0, chars.len() as int) =~= chars@);
                    }
                    if a < b {
                        let request = string_of(&chars, a, b);
                        return Some(request);
                    }
                },
            }
            self.next += 1;
        }
        None
    }

    /// Writes the phonemes of the segment that waits, and moves past it.
    /// Empty phonemes leave the output as it is.
    pub fn supply(&mut self, phonemes: &str)
        requires
            old(self).wf(),
            old(self).pending() is Some,
        ensures
            final(self).wf(),
            final(self).segs() == old(self).segs(),
            final(self).position() == old(self).position() + 1,
            final(self).output() == with_phonemes(old(self).output(), phonemes@),
    {
        let chars = chars_of(phonemes);
        if chars.len() > 0 {
            push_spaced(&mut self.out);
            push_chars(&mut self.out, &chars);
        }
        self.next += 1;
    }

    /// The phoneme string: what was written, trimmed.
    pub fn finish(&self) -> (phonemes: String)
        ensures
            phonemes@ == trimmed(self.output()),
    {
        let (a, b) = trim_bounds(&self.out, 0, self.out.len());
        proof {
            assert(self.out@.subrange(0, self.out.len() as int) =~= self.out@);
        }
        string_of(&self.out, a, b)
    }
}

/// Where a phonemization stands after the primary phonemizer has done what it
/// can.
#[derive(Debug)]
pub enum Step {
    /// This text has to go to the external tool; its answer is handed to
    /// `PhonemizeJob::resume`.
    Fallback(String),
    /// All segments are done; this is the phoneme string.
    Done(String),
}

impl Phonemizer {
    /// Carries the job on for as long as the primary phonemizer gives usable
    /// phonemes. It stops at the first text that needs the external tool, or
    /// when all segments are done. What it wrote is what the segments that
    /// it passed give with the engine's answers.
    pub fn advance(&self, job: &mut PhonemizeJob) -> (step: Step)
        requires
            old(job).wf(),
        ensures
            final(job).wf(),
            final(job).segs() == old(job).segs(),
            old(job).position() <= final(job).position() <= old(job).segs().len(),
            exists|answers: Seq<Seq<char>>|
                #[trigger] continued(
                    old(job).segs(),
                    old(job).position(),
                    final(job).position(),
                    old(job).output(),
                    answers,
                ) == (final(job).output(), answers.len() as int) && engine_answers(
                    old(job).segs(),
                    old(job).position(),
                    final(job).position(),
                    answers,
                ),
            match step {
                Step::Fallback(t) => final(job).pending() == Some(t@),
                Step::Done(p) => final(job).complete() && p@ == trimmed(final(job).output()),
            },
    {
        let ghost segs = job.segs();
        let ghost from = job.position();
        let ghost start = job.output();
        let ghost mut answers: Seq<Seq<char>> = Seq::empty();
        proof {
            job.lemma_position();
        }
        loop
            invariant
                job.wf(),
                job.segs() == segs,
                segs == old(job).segs(),
                from == old(job).position(),
                start == old(job).output(),
                0 <= from <= job.position() <= segs.len(),
                continued(segs, from, job.position(), start, answers) == (
                    job.output(),
                    answers.len() as int,
                ),
                engine_answers(segs, from, job.position(), answers),
            decreases segs.len() - job.position(),
        {
            proof {
                lemma_settled_bounds(segs, job.position(), job.output());
                lemma_settled_continued(segs, from, job.position(), start, answers);
            }
            match job.next_request() {
                None => {
                    return Step::Done(job.finish());
                },
                Some(text) => {
                    match self.try_text(text.as_str()) {
                        Some(phonemes) => {
                            proof {
                                lemma_continued_more(
                                    segs,
                                    from,
                                    job.position(),
                                    start,
                                    answers,
                                    phonemes@,
                                );
                                answers = answers.push(phonemes@);
                            }
                            job.supply(phonemes.as_str());
                        },
                        None => {
                            return Step::Fallback(text);
                        },
                    }
                },
            }
        }
    }
}

/// Settling never moves backwards and never past the end.
pub proof fn lemma_settled_bounds(segs: Seq<SegmentView>, next: int, out: Seq<char>)
    requires
        0 <= next <= segs.len(),
    ensures
        next <= settled(segs, next, out).0 <= segs.len(),
    decreases segs.len() - next,
{
    if next < segs.len() && !wants_phonemes(segs[next]) {
        lemma_settled_bounds(segs, next + 1, passed(out, segs[next]));
    }
}

impl PhonemizeJob {
    /// Takes the external tool's answer for the text that waits: its phonemes
    /// are written and the job moves on, or its error ends the job.
    pub fn resume(&mut self, answer: Result<String, KokoroError>) -> (r: Result<(), KokoroError>)
        requires
            old(self).wf(),
            old(self).pending() is Some,
        ensures
            final(self).wf(),
            final(self).segs() == old(self).segs(),
            match answer {
                Ok(p) => r is Ok && final(self).position() == old(self).position() + 1
                    && final(self).output() == with_phonemes(old(self).output(), p@),
                Err(e) => r == Err::<(), KokoroError>(e) && final(self).position() == old(
                    self,
                ).position() && final(self).output() == old(self).output(),
            },
    {
        match answer {
            Ok(p) => {
                self.supply(p.as_str());
                Ok(())
            },
            Err(e) => Err(e),
        }
    }
}

/// The text for which a segment asks a phonemizer: its trimmed text.
pub open spec fn run_text(seg: SegmentView) -> Seq<char> {
    match seg {
        SegmentView::Text(t) => trimmed(t),
        SegmentView::Punct(_) => Seq::empty(),
    }
}

/// The texts for which the segments `m..n` ask a phonemizer, in their order.
pub open spec fn requests(segs: Seq<SegmentView>, m: int, n: int) -> Seq<Seq<char>>
    decreases n - m,
{
    if n <= m {
        Seq::empty()
    } else if wants_phonemes(segs[n - 1]) {
        requests(segs, m, n - 1).push(run_text(segs[n - 1]))
    } else {
        requests(segs, m, n - 1)
    }
}

/// The output after the segments `m..n`, written behind `out`, and how many
/// answers went into it, when the phonemizers gave `answers`, one for each
/// segment that needs phonemes, in their order.
pub open spec fn continued(
    segs: Seq<SegmentView>,
    m: int,
    n: int,
    out: Seq<char>,
    answers: Seq<Seq<char>>,
) -> (Seq<char>, int)
    decreases n - m,
{
    if n <= m {
        (out, 0)
    } else {
        let (before, used) = continued(segs, m, n - 1, out, answers);
        if wants_phonemes(segs[n - 1]) {
            (with_phonemes(before, answers[used]), used + 1)
        } else {
            (passed(before, segs[n - 1]), used)
        }
    }
}

/// The output after the first `n` segments, and how many answers went into
/// it.
pub open spec fn assembled(segs: Seq<SegmentView>, n: int, answers: Seq<Seq<char>>) -> (
    Seq<char>,
    int,
) {
    continued(segs, 0, n, Seq::empty(), answers)
}

/// The phoneme string of a text with these segments, when the phonemizers
/// gave `answers`: preserved punctuation and answers in the order of the
/// segments, set apart by single spaces, and the whole trimmed.
pub open spec fn phonemes_of(segs: Seq<SegmentView>, answers: Seq<Seq<char>>) -> Seq<char> {
    trimmed(assembled(segs, segs.len() as int, answers).0)
}

/// Whether `answer` can be the primary phonemizer's for `request`: the
/// engine can take the request, and the answer is trimmed and not empty.
pub open spec fn engine_answer(request: Seq<char>, answer: Seq<char>) -> bool {
    engine_takes(request) && answer.len() > 0 && trimmed(answer) == answer
}

/// Whether the answers are the primary phonemizer's, one for each request
/// of the segments `m..n`.
pub open spec fn engine_answers(
    segs: Seq<SegmentView>,
    m: int,
    n: int,
    answers: Seq<Seq<char>>,
) -> bool {
    answers.len() == requests(segs, m, n).len() && forall|j: int|
        0 <= j < answers.len() ==> engine_answer(requests(segs, m, n)[j], #[trigger] answers[j])
}

/// Whether the fallback gave `answer` for `request` in the language `lang`.
pub open spec fn fallback_answer<F: Fn(&str, &str) -> Result<String, KokoroError>>(
    fallback: &F,
    lang: Seq<char>,
    request: Seq<char>,
    answer: Seq<char>,
) -> bool {
    exists|t: &str, l: &str, p: String|
        t@ == request && l@ == lang && p@ == answer && #[trigger] fallback.ensures(
            (t, l),
            Ok::<String, KokoroError>(p),
        )
}

/// Whether the fallback failed with `e` on `request` in the language `lang`.
pub open spec fn fallback_error<F: Fn(&str, &str) -> Result<String, KokoroError>>(
    fallback: &F,
    lang: Seq<char>,
    request: Seq<char>,
    e: KokoroError,
) -> bool {
    exists|t: &str, l: &str|
        t@ == request && l@ == lang && #[trigger] fallback.ensures(
            (t, l),
            Err::<String, KokoroError>(e),
        )
}

/// Whether the answers are those of the two phonemizers, one for each
/// request of the segments: each is the primary phonemizer's or, for the
/// same request, the fallback's.
pub open spec fn given_answers<F: Fn(&str, &str) -> Result<String, KokoroError>>(
    segs: Seq<SegmentView>,
    n: int,
    answers: Seq<Seq<char>>,
    fallback: &F,
    lang: Seq<char>,
) -> bool {
    answers.len() == requests(segs, 0, n).len() && forall|j: int|
        0 <= j < answers.len() ==> engine_answer(requests(segs, 0, n)[j], #[trigger] answers[j])
            || fallback_answer(fallback, lang, requests(segs, 0, n)[j], answers[j])
}

/// As many answers go into the output as the segments ask for.
pub proof fn lemma_continued_used(
    segs: Seq<SegmentView>,
    m: int,
    n: int,
    out: Seq<char>,
    answers: Seq<Seq<char>>,
)
    ensures
        continued(segs, m, n, out, answers).1 == requests(segs, m, n).len(),
    decreases n - m,
{
    if n > m {
        lemma_continued_used(segs, m, n - 1, out, answers);
    }
}

/// The output does not depend on answers that were not used yet.
pub proof fn lemma_continued_more(
    segs: Seq<SegmentView>,
    m: int,
    n: int,
    out: Seq<char>,
    answers: Seq<Seq<char>>,
    answer: Seq<char>,
)
    requires
        requests(segs, m, n).len() <= answers.len(),
    ensures
        continued(segs, m, n, out, answers.push(answer)) == continued(segs, m, n, out, answers),
    decreases n - m,
{
    if n > m {
        lemma_continued_used(segs, m, n - 1, out, answers);
        lemma_continued_used(segs, m, n - 1, out, answers.push(answer));
        lemma_continued_more(segs, m, n - 1, out, answers, answer);
    }
}

/// Settling a job goes along with the output of its segments: it passes
/// segments that ask for nothing.
pub proof fn lemma_settled_continued(
    segs: Seq<SegmentView>,
    m: int,
    next: int,
    out: Seq<char>,
    answers: Seq<Seq<char>>,
)
    requires
        0 <= m <= next <= segs.len(),
    ensures
        continued(segs, m, settled(segs, next, continued(segs, m, next, out, answers).0).0, out, answers)
            == (
            settled(segs, next, continued(segs, m, next, out, answers).0).1,
            continued(segs, m, next, out, answers).1,
        ),
        requests(segs, m, settled(segs, next, continued(segs, m, next, out, answers).0).0)
            == requests(segs, m, next),
    decreases segs.len() - next,
{
    if next < segs.len() && !wants_phonemes(segs[next]) {
        lemma_settled_continued(segs, m, next + 1, out, answers);
    }
}

/// What was written stays: the output after more segments begins with the
/// output after fewer.
pub proof fn lemma_assembled_grows(
    segs: Seq<SegmentView>,
    m: int,
    n: int,
    answers: Seq<Seq<char>>,
)
    requires
        0 <= m <= n,
    ensures
        assembled(segs, m, answers).0.len() <= assembled(segs, n, answers).0.len(),
        assembled(segs, n, answers).0.take(assembled(segs, m, answers).0.len() as int)
            == assembled(segs, m, answers).0,
    decreases n - m,
{
    let short = assembled(segs, m, answers).0;
    if m == n {
        assert(short.take(short.len() as int) =~= short);
    } else {
        lemma_assembled_grows(segs, m, n - 1, answers);
        let before = assembled(segs, n - 1, answers).0;
        let after = assembled(segs, n, answers).0;
        assert(before.len() <= after.len() && after.take(before.len() as int) =~= before);
        assert(after.take(short.len() as int) =~= before.take(short.len() as int));
    }
}

/// The preserved punctuation of a text is in its phonemes, whatever the
/// phonemizers answer.
pub proof fn lemma_punctuation_kept(text: Seq<char>, c: char, answers: Seq<Seq<char>>)
    requires
        is_preserved(c),
        text.contains(c),
    ensures
        phonemes_of(segments(breaks(text)), answers).contains(c),
{
    let segs = segments(breaks(text));
    lemma_breaks_keep(text, c);
    lemma_segments_keep(breaks(text), c);
    let j = choose|j: int| 0 <= j < segs.len() && segs[j] == SegmentView::Punct(c);
    lemma_assembled_grows(segs, j + 1, segs.len() as int, answers);
    let at = assembled(segs, j + 1, answers).0;
    let all = assembled(segs, segs.len() as int, answers).0;
    assert(at[at.len() - 2] == c);
    assert(all.take(at.len() as int)[at.len() - 2] == c);
    assert(all[at.len() - 2] == c);
    lemma_trimmed_keeps(all, c);
}

/// Turns text into phonemes. Line breaks become sentence boundaries; the
/// preserved punctuation is written as it is; every other run of text goes,
/// trimmed, to the primary phonemizer and, where that fails or gives
/// nothing, to `fallback`, which is called with the run and the language
/// code. The first error of `fallback` ends the phonemization; a text in
/// which no run asks for phonemes cannot fail.
pub fn phonemize<F: Fn(&str, &str) -> Result<String, KokoroError>>(
    text: &str,
    lang: &str,
    engine: &Phonemizer,
    fallback: &F,
) -> (r: Result<String, KokoroError>)
    requires
        forall|t: &str, l: &str| fallback.requires((t, l)),
    ensures
        match r {
            Ok(phonemes) => exists|answers: Seq<Seq<char>>|
                phonemes@ == #[trigger] phonemes_of(segments(breaks(text@)), answers)
                    && given_answers(
                    segments(breaks(text@)),
                    segments(breaks(text@)).len() as int,
                    answers,
                    fallback,
                    lang@,
                ),
            Err(e) => exists|k: int|
                0 <= k < segments(breaks(text@)).len() && wants_phonemes(
                    #[trigger] segments(breaks(text@))[k],
                ) && fallback_error(fallback, lang@, run_text(segments(breaks(text@))[k]), e),
        },
{
    let mut job = PhonemizeJob::new(text);
    let ghost segs = job.segs();
    let ghost mut answers: Seq<Seq<char>> = Seq::empty();
    loop
        invariant
            job.wf(),
            job.segs() == segs,
            segs == segments(breaks(text@)),
            0 <= job.position() <= segs.len(),
            continued(segs, 0, job.position(), Seq::empty(), answers) == (
                job.output(),
                answers.len() as int,
            ),
            given_answers(segs, job.position(), answers, fallback, lang@),
            forall|t: &str, l: &str| fallback.requires((t, l)),
        decreases segs.len() - job.position(),
    {
        proof {
            lemma_settled_bounds(segs, job.position(), job.output());
            lemma_settled_continued(segs, 0, job.position(), Seq::empty(), answers);
        }
        let request = match job.next_request() {
            None => {
                let phonemes = job.finish();
                proof {
                    assert(job.position() == segs.len());
                    assert(phonemes@ == phonemes_of(segs, answers));
                }
                return Ok(phonemes);
            },
            Some(request) => request,
        };
        let ghost at = job.position();
        proof {
            assert(wants_phonemes(segs[at]));
            assert(request@ == run_text(segs[at]));
        }
        let phonemes = match engine.try_text(request.as_str()) {
            Some(phonemes) => {
                proof {
                    assert(engine_answer(request@, phonemes@));
                }
                phonemes
            },
            None => match fallback(request.as_str(), lang) {
                Ok(phonemes) => {
                    proof {
                        assert(fallback_answer(fallback, lang@, request@, phonemes@));
                    }
                    phonemes
                },
                Err(e) => {
                    proof {
                        assert(fallback_error(fallback, lang@, run_text(segs[at]), e));
                    }
                    return Err(e);
                },
            },
        };
        proof {
            lemma_continued_more(segs, 0, at, Seq::empty(), answers, phonemes@);
            let before = answers;
            answers = answers.push(phonemes@);
            assert(requests(segs, 0, at + 1) == requests(segs, 0, at).push(request@));
            assert forall|j: int| 0 <= j < answers.len() implies engine_answer(
                requests(segs, 0, at + 1)[j],
                #[trigger] answers[j],
            ) || fallback_answer(fallback, lang@, requests(segs, 0, at + 1)[j], answers[j]) by {
                if j < before.len() {
                    assert(answers[j] == before[j]);
                    assert(requests(segs, 0, at + 1)[j] == requests(segs, 0, at)[j]);
                }
            }
        }
        job.supply(phonemes.as_str());
    }
}

} // verus!
