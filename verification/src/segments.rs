use vstd::prelude::*;
use crate::text::{chars_of, string_of};

verus! {


/// Whether `c` is one of the punctuation characters that carry a pause or an
/// intonation and are kept as they are: em dash, ellipsis, semicolon, colon,
/// and the straight and curly double quotes.
pub open spec fn is_preserved(c: char) -> bool {
    c == '\u{2014}' || c == '\u{2026}' || c == ';' || c == ':' || c == '"' || c == '\u{201c}' || c
        == '\u{201d}'
}

/// Tests a character for preserved punctuation.
pub fn is_preserved_punct(c: char) -> (b: bool)
    ensures
        b == is_preserved(c),
{
    c == '\u{2014}' || c == '\u{2026}' || c == ';' || c == ':' || c == '"' || c == '\u{201c}' || c
        == '\u{201d}'
}

/// A piece of the input text: a run of ordinary text, or one preserved
/// punctuation character.
#[derive(Debug)]
pub enum Segment {
    Text(String),
    Punct(char),
}

/// The mathematical value of a `Segment`.
pub enum SegmentView {
    Text(Seq<char>),
    Punct(char),
}

impl View for Segment {
    type V = SegmentView;

    open spec fn view(&self) -> SegmentView {
        match self {
            Segment::Text(t) => SegmentView::Text(t@),
            Segment::Punct(c) => SegmentView::Punct(*c),
        }
    }
}

/// The views of a sequence of segments.
pub open spec fn segment_views(v: Seq<Segment>) -> Seq<SegmentView> {
    Seq::new(v.len(), |i: int| v[i]@)
}

/// The run of text `s[start..end]` as a list of segments: nothing when it is
/// empty.
pub open spec fn text_run(s: Seq<char>, start: int, end: int) -> Seq<SegmentView> {
    if start < end {
        seq![SegmentView::Text(s.subrange(start, end))]
    } else {
        Seq::empty()
    }
}

/// The segments of `s` from position `i` on, when the run of text being read
/// began at `start`.
pub open spec fn segments_from(s: Seq<char>, start: int, i: int) -> Seq<SegmentView>
    decreases s.len() - i,
{
    if i >= s.len() {
        text_run(s, start, s.len() as int)
    } else if is_preserved(s[i]) {
        text_run(s, start, i) + seq![SegmentView::Punct(s[i])] + segments_from(s, i + 1, i + 1)
    } else {
        segments_from(s, start, i + 1)
    }
}

/// The segments of `s`: every preserved punctuation character is a segment of
/// its own, and so is every non-empty run of text between them.
pub open spec fn segments(s: Seq<char>) -> Seq<SegmentView> {
    segments_from(s, 0, 0)
}

/// Splits text into runs of ordinary text and single preserved punctuation
/// characters, in the order in which they occur.
pub fn split_preserving_punct(text: &str) -> (segs: Vec<Segment>)
    ensures
        segment_views(segs@) == segments(text@),
{
    let chars = chars_of(text);
    let len = chars.len();
    let mut segs: Vec<Segment> = Vec::new();
    let mut start: usize = 0;
    let mut i: usize = 0;
    while i < len
        invariant
            len == chars.len(),
            start <= i <= len,
            segment_views(segs@) + segments_from(chars@, start as int, i as int) == segments(
                chars@,
            ),
        decreases len - i,
    {
        let c = chars[i];
        if is_preserved_punct(c) {
            let ghost before = segment_views(segs@);
            let ghost rest = segments_from(chars@, i + 1, i + 1);
            if start < i {
                let t = string_of(&chars, start, i);
                segs.push(Segment::Text(t));
            }
            segs.push(Segment::Punct(c));
            proof {
                let run = text_run(chars@, start as int, i as int);
                assert(segment_views(segs@) =~= before + run + seq![SegmentView::Punct(c)]);
                assert(before + (run + seq![SegmentView::Punct(c)] + rest) =~= before + run
                    + seq![SegmentView::Punct(c)] + rest);
            }
            start = i + 1;
        }
        i += 1;
    }
    let ghost before = segment_views(segs@);
    if start < len {
        let t = string_of(&chars, start, len);
        segs.push(Segment::Text(t));
    }
    proof {
        assert(segment_views(segs@) =~= before + text_run(chars@, start as int, len as int));
    }
    segs
}

/// `s` with every line break turned into a sentence boundary: a pair of
/// newlines becomes `". "`, and so does every newline that is left.
pub open spec fn breaks(s: Seq<char>) -> Seq<char>
    decreases s.len(),
{
    if s.len() == 0 {
        s
    } else if s[0] == '\n' && s.len() >= 2 && s[1] == '\n' {
        seq!['.', ' '] + breaks(s.skip(2))
    } else if s[0] == '\n' {
        seq!['.', ' '] + breaks(s.skip(1))
    } else {
        seq![s[0]] + breaks(s.skip(1))
    }
}

/// Turns paragraph and line breaks into sentence boundaries.
pub fn normalize_breaks(text: &str) -> (out: Vec<char>)
    ensures
        out@ == breaks(text@),
{
    let chars = chars_of(text);
    let len = chars.len();
    let mut out: Vec<char> = Vec::new();
    let mut i: usize = 0;
    proof {
        assert(chars@.skip(0) =~= chars@);
        assert(out@ + breaks(chars@) =~= breaks(chars@));
    }
    while i < len
        invariant
            len == chars.len(),
            i <= len,
            out@ + breaks(chars@.skip(i as int)) == breaks(chars@),
        decreases len - i,
    {
        let ghost before = out@;
        let ghost tail = chars@.skip(i as int);
        if chars[i] == '\n' {
            out.push('.');
            out.push(' ');
            if i + 1 < len && chars[i + 1] == '\n' {
                proof {
                    assert(tail.skip(2) =~= chars@.skip(i + 2));
                    assert(out@ + breaks(tail.skip(2)) =~= before + (seq!['.', ' '] + breaks(
                        tail.skip(2),
                    )));
                }
                i += 2;
            } else {
                proof {
                    assert(tail.skip(1) =~= chars@.skip(i + 1));
                    assert(out@ + breaks(tail.skip(1)) =~= before + (seq!['.', ' '] + breaks(
                        tail.skip(1),
                    )));
                }
                i += 1;
            }
        } else {
            out.push(chars[i]);
            proof {
                assert(tail.skip(1) =~= chars@.skip(i + 1));
                assert(out@ + breaks(tail.skip(1)) =~= before + (seq![tail[0]] + breaks(
                    tail.skip(1),
                )));
            }
            i += 1;
        }
    }
    proof {
        assert(out@ + Seq::<char>::empty() =~= out@);
    }
    out
}

/// Every preserved punctuation character of a text is a segment of it.
pub proof fn lemma_segments_keep(s: Seq<char>, c: char)
    requires
        is_preserved(c),
        s.contains(c),
    ensures
        segments(s).contains(SegmentView::Punct(c)),
{
    lemma_segments_keep_from(s, 0, 0, c);
}

proof fn lemma_segments_keep_from(s: Seq<char>, start: int, i: int, c: char)
    requires
        is_preserved(c),
        0 <= start <= i <= s.len(),
        exists|k: int| i <= k < s.len() && s[k] == c,
    ensures
        segments_from(s, start, i).contains(SegmentView::Punct(c)),
    decreases s.len() - i,
{
    let k = choose|k: int| i <= k < s.len() && s[k] == c;
    if is_preserved(s[i]) {
        let run = text_run(s, start, i);
        let rest = segments_from(s, i + 1, i + 1);
        let all = segments_from(s, start, i);
        if s[i] == c {
            assert(all[run.len() as int] == SegmentView::Punct(c));
        } else {
            assert(i + 1 <= k);
            lemma_segments_keep_from(s, i + 1, i + 1, c);
            let j = choose|j: int| 0 <= j < rest.len() && rest[j] == SegmentView::Punct(c);
            assert(all[run.len() + 1 + j] == SegmentView::Punct(c));
        }
    } else {
        assert(i + 1 <= k);
        lemma_segments_keep_from(s, start, i + 1, c);
    }
}

/// Turning line breaks into sentence boundaries keeps every character that
/// is no newline.
pub proof fn lemma_breaks_keep(s: Seq<char>, c: char)
    requires
        s.contains(c),
        c != '\n',
    ensures
        breaks(s).contains(c),
    decreases s.len(),
{
    let k = choose|k: int| 0 <= k < s.len() && s[k] == c;
    let out = breaks(s);
    if s[0] == '\n' && s.len() >= 2 && s[1] == '\n' {
        assert(s.skip(2)[k - 2] == c);
        lemma_breaks_keep(s.skip(2), c);
        let rest = breaks(s.skip(2));
        let j = choose|j: int| 0 <= j < rest.len() && rest[j] == c;
        assert(out[j + 2] == c);
    } else if s[0] == '\n' {
        assert(s.skip(1)[k - 1] == c);
        lemma_breaks_keep(s.skip(1), c);
        let rest = breaks(s.skip(1));
        let j = choose|j: int| 0 <= j < rest.len() && rest[j] == c;
        assert(out[j + 2] == c);
    } else if k == 0 {
        assert(out[0] == c);
    } else {
        assert(s.skip(1)[k - 1] == c);
        lemma_breaks_keep(s.skip(1), c);
        let rest = breaks(s.skip(1));
        let j = choose|j: int| 0 <= j < rest.len() && rest[j] == c;
        assert(out[j + 1] == c);
    }
}

} // verus!
