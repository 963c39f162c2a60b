use vstd::prelude::*;
use crate::text::{chars_of, is_space, is_whitespace, piece, string_of, trim_bounds, views};

verus! {

/// Whether a sentence ends at position `i` of `s`: a `.`, `!` or `?` that is
/// followed by white space or stands at the end of the text.
pub open spec fn ends_sentence(s: Seq<char>, i: int) -> bool {
    &&& 0 <= i < s.len()
    &&& (s[i] == '.' || s[i] == '!' || s[i] == '?')
    &&& (i + 1 >= s.len() || is_space(s[i + 1]))
}

/// The sentences of `s` from position `i` on, when the sentence being read
/// began at `start`.
pub open spec fn sentences_from(s: Seq<char>, start: int, i: int) -> Seq<Seq<char>>
    decreases s.len() - i,
{
    if i >= s.len() {
        piece(s, start, s.len() as int)
    } else if ends_sentence(s, i) {
        piece(s, start, i + 1) + sentences_from(s, i + 1, i + 1)
    } else {
        sentences_from(s, start, i + 1)
    }
}

/// The sentences of `s`: the text is cut after every sentence end, each piece
/// is trimmed, and empty pieces are dropped.
pub open spec fn sentences(s: Seq<char>) -> Seq<Seq<char>> {
    sentences_from(s, 0, 0)
}

/// Splits text into sentences at `.`, `!` and `?` followed by white space or
/// by the end of the text.
pub fn split_sentences(text: &str) -> (result: Vec<String>)
    ensures
        views(result@) == sentences(text@),
{
    let chars = chars_of(text);
    let len = chars.len();
    let mut result: Vec<String> = Vec::new();
    let mut start: usize = 0;
    let mut i: usize = 0;
    while i < len
        invariant
            len == chars.len(),
            start <= i <= len,
            views(result@) + sentences_from(chars@, start as int, i as int) == sentences(chars@),
        decreases len - i,
    {
        let c = chars[i];
        let is_end = (c == '.' || c == '!' || c == '?') && (i + 1 >= len || is_whitespace(
            chars[i + 1],
        ));
        if is_end {
            let (a, b) = trim_bounds(&chars, start, i + 1);
            if a < b {
                let ghost before = views(result@);
                let s = string_of(&chars, a, b);
                result.push(s);
                proof {
                    assert(views(result@) =~= before + seq![s@]);
                    assert(before + seq![s@] + sentences_from(chars@, i + 1, i + 1) =~= before + (
                    seq![s@] + sentences_from(chars@, i + 1, i + 1)));
                }
            } else {
                proof {
                    let rest = sentences_from(chars@, i + 1, i + 1);
                    assert(Seq::<Seq<char>>::empty() + rest =~= rest);
                }
            }
            start = i + 1;
        }
        i += 1;
    }
    let (a, b) = trim_bounds(&chars, start, len);
    if a < b {
        let ghost before = views(result@);
        let s = string_of(&chars, a, b);
        result.push(s);
        proof {
            assert(views(result@) =~= before + seq![s@]);
        }
    } else {
        proof {
            assert(views(result@) + Seq::<Seq<char>>::empty() =~= views(result@));
        }
    }
    result
}

/// Text in which no sentence ends is one sentence, the trimmed text (or no
/// sentence at all when it holds only white space).
pub proof fn lemma_no_terminator(s: Seq<char>)
    requires
        forall|i: int| 0 <= i < s.len() ==> !ends_sentence(s, i),
    ensures
        sentences(s) == piece(s, 0, s.len() as int),
{
    lemma_no_terminator_from(s, 0);
}

proof fn lemma_no_terminator_from(s: Seq<char>, i: int)
    requires
        0 <= i <= s.len(),
        forall|j: int| 0 <= j < s.len() ==> !ends_sentence(s, j),
    ensures
        sentences_from(s, 0, i) == piece(s, 0, s.len() as int),
    decreases s.len() - i,
{
    if i < s.len() {
        lemma_no_terminator_from(s, i + 1);
    }
}

/// Empty text has no sentences.
pub proof fn lemma_empty_text(s: Seq<char>)
    requires
        s.len() == 0,
    ensures
        sentences(s).len() == 0,
{
    assert(s.subrange(0, 0) =~= s);
}

} // verus!
