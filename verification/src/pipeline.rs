use vstd::prelude::*;
use vstd::string::StringExecFns;
use std::path::PathBuf;
use crate::music::MusicService;
use crate::paths::path_clone;
use crate::tts::TtsService;
use crate::text::{
    byte_len, char_views, chars_of, count_bytes, lemma_byte_len_add, piece,
    decimal, is_space, is_whitespace, push_chars, push_decimal, slice_chars, string_of,
    trim_bounds, trimmed, views,
};

verus! {

/// The size in bytes that a chunk of text is not to exceed, as far as
/// sentence boundaries allow.
pub const CHUNK_SIZE: usize = 2000;

/// Whether a sentence ends at position `i` of `s`: a `.`, `!` or `?` with a
/// space behind it.
pub open spec fn ends_before_space(s: Seq<char>, i: int) -> bool {
    &&& 0 <= i && i + 1 < s.len()
    &&& (s[i] == '.' || s[i] == '!' || s[i] == '?')
    &&& s[i + 1] == ' '
}

/// The sentences of `s` from position `i` on, when the sentence being read
/// began at `start`.
pub open spec fn cut_from(s: Seq<char>, start: int, i: int) -> Seq<Seq<char>>
    decreases s.len() - i,
{
    if i + 1 >= s.len() {
        if start < s.len() {
            seq![s.subrange(start, s.len() as int)]
        } else {
            Seq::empty()
        }
    } else if ends_before_space(s, i) {
        seq![s.subrange(start, i + 1)] + cut_from(s, i + 2, i + 2)
    } else {
        cut_from(s, start, i + 1)
    }
}

/// The sentences of `s`: the text is cut behind every `.`, `!` or `?` that a
/// space follows; the mark stays with its sentence and the space is dropped.
pub open spec fn cut_sentences(s: Seq<char>) -> Seq<Seq<char>> {
    cut_from(s, 0, 0)
}

fn cut(chars: &Vec<char>) -> (out: Vec<Vec<char>>)
    ensures
        char_views(out@) == cut_sentences(chars@),
{
    let len = chars.len();
    let mut out: Vec<Vec<char>> = Vec::new();
    let mut start: usize = 0;
    let mut i: usize = 0;
    while i < len && i + 1 < len
        invariant
            len == chars.len(),
            start <= i <= len,
            char_views(out@) + cut_from(chars@, start as int, i as int) == cut_sentences(chars@),
        decreases len - i,
    {
        let c = chars[i];
        if (c == '.' || c == '!' || c == '?') && chars[i + 1] == ' ' {
            let ghost before = char_views(out@);
            let ghost rest = cut_from(chars@, i + 2, i + 2);
            let s = slice_chars(chars, start, i + 1);
            out.push(s);
            proof {
                assert(char_views(out@) =~= before + seq![s@]);
                assert(before + (seq![s@] + rest) =~= before + seq![s@] + rest);
            }
            start = i + 2;
            i += 2;
        } else {
            i += 1;
        }
    }
    let ghost before = char_views(out@);
    if start < len {
        let s = slice_chars(chars, start, len);
        out.push(s);
        proof {
            assert(char_views(out@) =~= before + seq![s@]);
        }
    } else {
        proof {
            assert(before + Seq::<Seq<char>>::empty() =~= before);
        }
    }
    out
}

/// Splits text into sentences at `". "`, `"! "` and `"? "`; the mark stays
/// with the text before it.
pub fn split_sentences(text: &str) -> (out: Vec<String>)
    ensures
        views(out@) == cut_sentences(text@),
{
    let chars = chars_of(text);
    let pieces = cut(&chars);
    let mut out: Vec<String> = Vec::new();
    let mut i: usize = 0;
    while i < pieces.len()
        invariant
            i <= pieces.len(),
            views(out@) == char_views(pieces@).take(i as int),
        decreases pieces.len() - i,
    {
        let p = &pieces[i];
        let s = string_of(p, 0, p.len());
        let ghost before = views(out@);
        out.push(s);
        proof {
            assert(p@.subrange(0, p.len() as int) =~= p@);
            assert(views(out@) =~= before.push(s@));
            assert(char_views(pieces@).take(i + 1) =~= char_views(pieces@).take(i as int).push(
                p@,
            ));
        }
        i += 1;
    }
    proof {
        assert(char_views(pieces@).take(pieces.len() as int) =~= char_views(pieces@));
    }
    out
}

/// The paragraphs of `s` from position `i` on, when the paragraph being read
/// began at `start`.
pub open spec fn paragraphs_from(s: Seq<char>, start: int, i: int) -> Seq<Seq<char>>
    decreases s.len() - i,
{
    if i >= s.len() {
        piece(s, start, s.len() as int)
    } else if s[i] == '\n' && i + 1 < s.len() && s[i + 1] == '\n' {
        piece(s, start, i) + paragraphs_from(s, i + 2, i + 2)
    } else {
        paragraphs_from(s, start, i + 1)
    }
}

/// The paragraphs of `s`: what stands between blank lines, each trimmed,
/// without those that hold only white space.
pub open spec fn paragraphs(s: Seq<char>) -> Seq<Seq<char>> {
    paragraphs_from(s, 0, 0)
}

fn split_paragraphs(chars: &Vec<char>) -> (out: Vec<Vec<char>>)
    ensures
        char_views(out@) == paragraphs(chars@),
{
    let len = chars.len();
    let mut out: Vec<Vec<char>> = Vec::new();
    let mut start: usize = 0;
    let mut i: usize = 0;
    while i < len
        invariant
            len == chars.len(),
            start <= i <= len,
            char_views(out@) + paragraphs_from(chars@, start as int, i as int) == paragraphs(
                chars@,
            ),
        decreases len - i,
    {
        if chars[i] == '\n' && i + 1 < len && chars[i + 1] == '\n' {
            let ghost before = char_views(out@);
            let ghost rest = paragraphs_from(chars@, i + 2, i + 2);
            let (a, b) = trim_bounds(chars, start, i);
            if a < b {
                let p = slice_chars(chars, a, b);
                out.push(p);
                proof {
                    assert(char_views(out@) =~= before + seq![p@]);
                    assert(before + (seq![p@] + rest) =~= before + seq![p@] + rest);
                }
            } else {
                proof {
                    assert(before + (Seq::<Seq<char>>::empty() + rest) =~= before + rest);
                }
            }
            start = i + 2;
            i += 2;
        } else {
            i += 1;
        }
    }
    let ghost before = char_views(out@);
    let (a, b) = trim_bounds(chars, start, len);
    if a < b {
        let p = slice_chars(chars, a, b);
        out.push(p);
        proof {
            assert(char_views(out@) =~= before + seq![p@]);
        }
    } else {
        proof {
            assert(before + Seq::<Seq<char>>::empty() =~= before);
        }
    }
    out
}

/// The buffer as a list of chunks: nothing when it is empty.
pub open spec fn flushed(buf: Seq<char>) -> Seq<Seq<char>> {
    if buf.len() > 0 {
        seq![buf]
    } else {
        Seq::empty()
    }
}

/// The buffer with one more item, the separator between them unless the
/// buffer is empty.
pub open spec fn appended(buf: Seq<char>, sep: Seq<char>, item: Seq<char>) -> Seq<char> {
    if buf.len() > 0 {
        buf + sep + item
    } else {
        item
    }
}

/// Whether the item no longer fits into a buffer that holds something
/// already.
pub open spec fn overflows(buf: Seq<char>, sep: Seq<char>, item: Seq<char>) -> bool {
    buf.len() > 0 && byte_len(buf) + byte_len(item) + byte_len(sep) > CHUNK_SIZE
}

/// The chunks into which the items from number `i` on are packed, when the
/// buffer holds `buf`: items are gathered, with the separator between them,
/// for as long as the buffer stays within `CHUNK_SIZE` bytes.
pub open spec fn packed(items: Seq<Seq<char>>, sep: Seq<char>, i: int, buf: Seq<char>) -> Seq<
    Seq<char>,
>
    decreases items.len() - i,
{
    if i >= items.len() {
        flushed(buf)
    } else if overflows(buf, sep, items[i]) {
        seq![buf] + packed(items, sep, i + 1, items[i])
    } else {
        packed(items, sep, i + 1, appended(buf, sep, items[i]))
    }
}

/// The separator between the sentences of a chunk.
pub open spec fn space() -> Seq<char> {
    seq![' ']
}

/// The separator between the paragraphs of a chunk.
pub open spec fn blank_line() -> Seq<char> {
    seq!['\n', '\n']
}

/// The chunks of the paragraphs from number `i` on, when the buffer holds
/// `buf`. Paragraphs are packed with a blank line between them; one that is
/// larger than `CHUNK_SIZE` by itself is packed sentence by sentence, apart
/// from the paragraphs around it.
pub open spec fn chunks_from(paras: Seq<Seq<char>>, i: int, buf: Seq<char>) -> Seq<Seq<char>>
    decreases paras.len() - i,
{
    if i >= paras.len() {
        flushed(buf)
    } else if byte_len(paras[i]) > CHUNK_SIZE {
        flushed(buf) + packed(cut_sentences(paras[i]), space(), 0, Seq::empty()) + chunks_from(
            paras,
            i + 1,
            Seq::empty(),
        )
    } else if overflows(buf, blank_line(), paras[i]) {
        seq![buf] + chunks_from(paras, i + 1, paras[i])
    } else {
        chunks_from(paras, i + 1, appended(buf, blank_line(), paras[i]))
    }
}

/// The chunks of a text.
pub open spec fn text_chunks(s: Seq<char>) -> Seq<Seq<char>> {
    let chunks = chunks_from(paragraphs(s), 0, Seq::empty());
    if chunks.len() == 0 && trimmed(s).len() > 0 {
        seq![trimmed(s)]
    } else {
        chunks
    }
}

/// Whether a chunk of items is as it should be: not empty, and within
/// `CHUNK_SIZE` bytes unless it is one item alone.
pub open spec fn sound_chunk(chunk: Seq<char>, items: Seq<Seq<char>>) -> bool {
    chunk.len() > 0 && (byte_len(chunk) <= CHUNK_SIZE || items.contains(chunk))
}

/// Packing gives sound chunks: none is empty, and one that is larger than
/// `CHUNK_SIZE` is a single item that is so large by itself.
pub proof fn lemma_packed_sound(items: Seq<Seq<char>>, sep: Seq<char>, i: int, buf: Seq<char>)
    requires
        0 <= i <= items.len(),
        buf.len() > 0 ==> sound_chunk(buf, items),
        forall|k: int| 0 <= k < items.len() ==> (#[trigger] items[k]).len() > 0,
    ensures
        forall|k: int|
            0 <= k < packed(items, sep, i, buf).len() ==> sound_chunk(
                #[trigger] packed(items, sep, i, buf)[k],
                items,
            ),
    decreases items.len() - i,
{
    let all = packed(items, sep, i, buf);
    if i >= items.len() {
        assert(all =~= flushed(buf));
    } else {
        let item = items[i];
        assert(items.contains(item));
        if overflows(buf, sep, item) {
            lemma_packed_sound(items, sep, i + 1, item);
            let rest = packed(items, sep, i + 1, item);
            assert(all =~= seq![buf] + rest);
            assert forall|k: int| 0 <= k < all.len() implies sound_chunk(#[trigger] all[k], items) by {
                if k == 0 {
                    assert(all[0] == buf);
                } else {
                    assert(all[k] == rest[k - 1]);
                }
            }
        } else {
            let next = appended(buf, sep, item);
            if buf.len() > 0 {
                lemma_byte_len_add(buf, sep);
                lemma_byte_len_add(buf + sep, item);
                assert(byte_len(next) <= CHUNK_SIZE);
            } else {
                assert(next == item);
            }
            assert(sound_chunk(next, items));
            lemma_packed_sound(items, sep, i + 1, next);
            assert(all =~= packed(items, sep, i + 1, next));
        }
    }
}

/// Whether a chunk of a text is as it should be: not empty, and within
/// `CHUNK_SIZE` bytes unless it is one sentence of a paragraph, or the whole
/// text, alone.
pub open spec fn sound_text_chunk(chunk: Seq<char>, text: Seq<char>) -> bool {
    &&& chunk.len() > 0
    &&& (byte_len(chunk) <= CHUNK_SIZE || chunk == trimmed(text) || exists|p: int|
        0 <= p < paragraphs(text).len() && #[trigger] cut_sentences(paragraphs(text)[p]).contains(
            chunk,
        ))
}

/// Every sentence that is cut from a text holds something.
pub proof fn lemma_cut_not_empty(s: Seq<char>, start: int, i: int)
    requires
        0 <= start <= i <= s.len(),
    ensures
        forall|k: int|
            0 <= k < cut_from(s, start, i).len() ==> (#[trigger] cut_from(s, start, i)[k]).len()
                > 0,
    decreases s.len() - i,
{
    let all = cut_from(s, start, i);
    if i + 1 >= s.len() {
        if start < s.len() {
            assert(all =~= seq![s.subrange(start, s.len() as int)]);
        } else {
            assert(all =~= Seq::<Seq<char>>::empty());
        }
    } else if ends_before_space(s, i) {
        lemma_cut_not_empty(s, i + 2, i + 2);
        let first = s.subrange(start, i + 1);
        let rest = cut_from(s, i + 2, i + 2);
        assert(all =~= seq![first] + rest);
        assert forall|k: int| 0 <= k < all.len() implies (#[trigger] all[k]).len() > 0 by {
            if k == 0 {
                assert(all[0] == first);
            } else {
                assert(all[k] == rest[k - 1]);
            }
        }
    } else {
        lemma_cut_not_empty(s, start, i + 1);
        assert(all =~= cut_from(s, start, i + 1));
    }
}

/// Every paragraph of a text holds something.
pub proof fn lemma_paragraphs_not_empty(s: Seq<char>, start: int, i: int)
    requires
        0 <= start <= i <= s.len(),
    ensures
        forall|k: int|
            0 <= k < paragraphs_from(s, start, i).len() ==> (#[trigger] paragraphs_from(
                s,
                start,
                i,
            )[k]).len() > 0,
    decreases s.len() - i,
{
    let all = paragraphs_from(s, start, i);
    if i >= s.len() {
        assert(all =~= piece(s, start, s.len() as int));
    } else if s[i] == '\n' && i + 1 < s.len() && s[i + 1] == '\n' {
        lemma_paragraphs_not_empty(s, i + 2, i + 2);
        let head = piece(s, start, i);
        let rest = paragraphs_from(s, i + 2, i + 2);
        assert(all =~= head + rest);
        assert forall|k: int| 0 <= k < all.len() implies (#[trigger] all[k]).len() > 0 by {
            if k < head.len() {
                assert(all[k] == head[k]);
            } else {
                assert(all[k] == rest[k - head.len()]);
            }
        }
    } else {
        lemma_paragraphs_not_empty(s, start, i + 1);
        assert(all =~= paragraphs_from(s, start, i + 1));
    }
}

/// The chunks of the paragraphs of a text are sound.
pub proof fn lemma_chunks_sound(text: Seq<char>, i: int, buf: Seq<char>)
    requires
        0 <= i <= paragraphs(text).len(),
        byte_len(buf) <= CHUNK_SIZE,
    ensures
        forall|k: int|
            0 <= k < chunks_from(paragraphs(text), i, buf).len() ==> sound_text_chunk(
                #[trigger] chunks_from(paragraphs(text), i, buf)[k],
                text,
            ),
    decreases paragraphs(text).len() - i,
{
    let paras = paragraphs(text);
    let all = chunks_from(paras, i, buf);
    let head = flushed(buf);
    if i >= paras.len() {
        assert(all =~= head);
    } else {
        let para = paras[i];
        lemma_paragraphs_not_empty(text, 0, 0);
        assert(para.len() > 0);
        if byte_len(para) > CHUNK_SIZE {
            let sentences = cut_sentences(para);
            let inner = packed(sentences, space(), 0, Seq::empty());
            let rest = chunks_from(paras, i + 1, Seq::empty());
            lemma_cut_not_empty(para, 0, 0);
            lemma_packed_sound(sentences, space(), 0, Seq::empty());
            assert(byte_len(Seq::<char>::empty()) == 0);
            lemma_chunks_sound(text, i + 1, Seq::empty());
            assert(all =~= head + inner + rest);
            assert forall|k: int| 0 <= k < all.len() implies sound_text_chunk(
                #[trigger] all[k],
                text,
            ) by {
                if k < head.len() {
                    assert(all[k] == buf);
                } else if k < head.len() + inner.len() {
                    let c = inner[k - head.len()];
                    assert(all[k] == c);
                    assert(sound_chunk(c, sentences));
                    if byte_len(c) > CHUNK_SIZE {
                        assert(cut_sentences(paragraphs(text)[i]).contains(c));
                    }
                } else {
                    assert(all[k] == rest[k - head.len() - inner.len()]);
                }
            }
        } else if overflows(buf, blank_line(), para) {
            lemma_chunks_sound(text, i + 1, para);
            let rest = chunks_from(paras, i + 1, para);
            assert(all =~= seq![buf] + rest);
            assert forall|k: int| 0 <= k < all.len() implies sound_text_chunk(
                #[trigger] all[k],
                text,
            ) by {
                if k == 0 {
                    assert(all[0] == buf);
                } else {
                    assert(all[k] == rest[k - 1]);
                }
            }
        } else {
            let next = appended(buf, blank_line(), para);
            if buf.len() > 0 {
                lemma_byte_len_add(buf, blank_line());
                lemma_byte_len_add(buf + blank_line(), para);
            }
            assert(byte_len(next) <= CHUNK_SIZE);
            lemma_chunks_sound(text, i + 1, next);
            assert(all =~= chunks_from(paras, i + 1, next));
        }
    }
}

/// Every chunk of a text holds something, and one that is larger than
/// `CHUNK_SIZE` is a single sentence that is so large by itself.
pub proof fn lemma_text_chunks_sound(text: Seq<char>)
    ensures
        forall|k: int|
            0 <= k < text_chunks(text).len() ==> sound_text_chunk(
                #[trigger] text_chunks(text)[k],
                text,
            ),
{
    assert(byte_len(Seq::<char>::empty()) == 0);
    lemma_chunks_sound(text, 0, Seq::empty());
}

fn push_chunk(chunks: &mut Vec<String>, buf: &Vec<char>)
    ensures
        views(final(chunks)@) == views(old(chunks)@).push(buf@),
{
    let s = string_of(buf, 0, buf.len());
    proof {
        assert(buf@.subrange(0, buf.len() as int) =~= buf@);
    }
    chunks.push(s);
    proof {
        assert(views(chunks@) =~= views(old(chunks)@).push(buf@));
    }
}

/// The byte length of the separators.
proof fn lemma_separator_bytes()
    ensures
        byte_len(space()) == 1,
        byte_len(blank_line()) == 2,
{
    assert(space().drop_last() =~= Seq::<char>::empty());
    assert(byte_len(space().drop_last()) == 0);
    assert(blank_line().drop_last() =~= seq!['\n']);
    assert(seq!['\n'].drop_last() =~= Seq::<char>::empty());
    assert(byte_len(seq!['\n'].drop_last()) == 0);
    assert(byte_len(seq!['\n']) == 1);
}

/// Adds an item to the buffer, behind a separator unless the buffer is
/// empty.
fn append_item(buf: &mut Vec<char>, buf_bytes: &mut u128, sep: &Vec<char>, item: &Vec<char>)
    requires
        *old(buf_bytes) == byte_len(old(buf)@),
    ensures
        final(buf)@ == appended(old(buf)@, sep@, item@),
        *final(buf_bytes) == byte_len(final(buf)@),
{
    if buf.len() > 0 {
        push_chars(buf, sep);
    }
    let ghost head = buf@;
    push_chars(buf, item);
    proof {
        assert(old(buf)@.len() > 0 ==> buf@ =~= old(buf)@ + sep@ + item@);
        assert(old(buf)@.len() == 0 ==> buf@ =~= item@);
    }
    *buf_bytes = count_bytes(buf);
}

fn pack_sentences(chunks: &mut Vec<String>, items: &Vec<Vec<char>>)
    ensures
        views(final(chunks)@) == views(old(chunks)@) + packed(
            char_views(items@),
            space(),
            0,
            Seq::empty(),
        ),
{
    let ghost list = char_views(items@);
    let ghost goal = views(old(chunks)@) + packed(list, space(), 0, Seq::empty());
    let mut sep: Vec<char> = Vec::new();
    sep.push(' ');
    proof {
        assert(sep@ =~= space());
    }
    let mut buf: Vec<char> = Vec::new();
    let mut buf_bytes: u128 = 0;
    let mut i: usize = 0;
    while i < items.len()
        invariant
            i <= items.len(),
            list == char_views(items@),
            sep@ == space(),
            buf_bytes == byte_len(buf@),
            views(chunks@) + packed(list, space(), i as int, buf@) == goal,
        decreases items.len() - i,
    {
        let item = &items[i];
        let item_bytes = count_bytes(item);
        proof {
            lemma_separator_bytes();
            assert(list[i as int] == item@);
        }
        let ghost done = views(chunks@);
        if buf.len() > 0 && (buf_bytes > 2000 || item_bytes > 2000 || buf_bytes + item_bytes + 1
            > 2000) {
            let ghost rest = packed(list, space(), i + 1, item@);
            push_chunk(chunks, &buf);
            proof {
                assert(done.push(buf@) + rest =~= done + (seq![buf@] + rest));
            }
            buf = slice_chars(item, 0, item.len());
            proof {
                assert(item@.subrange(0, item.len() as int) =~= item@);
            }
            buf_bytes = item_bytes;
        } else {
            append_item(&mut buf, &mut buf_bytes, &sep, item);
        }
        i += 1;
    }
    let ghost done = views(chunks@);
    if buf.len() > 0 {
        push_chunk(chunks, &buf);
        proof {
            assert(done.push(buf@) =~= done + seq![buf@]);
        }
    } else {
        proof {
            assert(done + Seq::<Seq<char>>::empty() =~= done);
        }
    }
}

/// Merges the paragraphs of a text into chunks of about `CHUNK_SIZE` bytes.
/// Paragraphs are kept whole and joined by blank lines; a paragraph that is
/// larger than `CHUNK_SIZE` is cut at sentence boundaries.
pub fn chunk_text(text: &str) -> (chunks: Vec<String>)
    ensures
        views(chunks@) == text_chunks(text@),
{
    let chars = chars_of(text);
    let paras = split_paragraphs(&chars);
    let ghost list = char_views(paras@);
    let mut sep: Vec<char> = Vec::new();
    sep.push('\n');
    sep.push('\n');
    proof {
        assert(sep@ =~= blank_line());
    }
    let mut chunks: Vec<String> = Vec::new();
    let mut buf: Vec<char> = Vec::new();
    let mut buf_bytes: u128 = 0;
    let mut i: usize = 0;
    proof {
        assert(views(chunks@) + chunks_from(list, 0, buf@) =~= chunks_from(list, 0, Seq::empty()));
    }
    while i < paras.len()
        invariant
            i <= paras.len(),
            list == char_views(paras@),
            sep@ == blank_line(),
            buf_bytes == byte_len(buf@),
            views(chunks@) + chunks_from(list, i as int, buf@) == chunks_from(
                list,
                0,
                Seq::empty(),
            ),
        decreases paras.len() - i,
    {
        let para = &paras[i];
        let para_bytes = count_bytes(para);
        proof {
            lemma_separator_bytes();
            assert(list[i as int] == para@);
        }
        let ghost done = views(chunks@);
        if para_bytes > 2000 {
            let ghost inner = packed(cut_sentences(para@), space(), 0, Seq::empty());
            let ghost rest = chunks_from(list, i + 1, Seq::empty());
            if buf.len() > 0 {
                push_chunk(&mut chunks, &buf);
            }
            let ghost mid = views(chunks@);
            let sentences = cut(para);
            pack_sentences(&mut chunks, &sentences);
            proof {
                assert(mid =~= done + flushed(buf@));
                assert(views(chunks@) + rest =~= done + (flushed(buf@) + inner + rest));
            }
            buf = Vec::new();
            buf_bytes = 0;
        } else if buf.len() > 0 && (buf_bytes > 2000 || buf_bytes + para_bytes + 2 > 2000) {
            let ghost rest = chunks_from(list, i + 1, para@);
            push_chunk(&mut chunks, &buf);
            proof {
                assert(done.push(buf@) + rest =~= done + (seq![buf@] + rest));
            }
            buf = slice_chars(para, 0, para.len());
            proof {
                assert(para@.subrange(0, para.len() as int) =~= para@);
            }
            buf_bytes = para_bytes;
        } else {
            append_item(&mut buf, &mut buf_bytes, &sep, para);
        }
        i += 1;
    }
    let ghost done = views(chunks@);
    if buf.len() > 0 {
        push_chunk(&mut chunks, &buf);
        proof {
            assert(done.push(buf@) =~= done + seq![buf@]);
        }
    } else {
        proof {
            assert(done + Seq::<Seq<char>>::empty() =~= done);
        }
    }
    if chunks.len() == 0 {
        let (a, b) = trim_bounds(&chars, 0, chars.len());
        proof {
            assert(chars@.subrange(0, chars.len() as int) =~= chars@);
        }
        if a < b {
            let whole = slice_chars(&chars, a, b);
            let ghost before = views(chunks@);
            push_chunk(&mut chunks, &whole);
            proof {
                assert(before.push(whole@) =~= seq![trimmed(chars@)]);
            }
        }
    }
    chunks
}

/// The path of an audio file of a part: `<audio_dir>/<part_id>_<suffix>`.
pub fn audio_path_for_part(audio_dir: &str, part_id: &str, suffix: &str) -> (path: String)
    ensures
        path@ == audio_dir@ + "/"@ + part_id@ + "_"@ + suffix@,
{
    let mut path = String::from_str(audio_dir);
    path.append("/");
    path.append(part_id);
    path.append("_");
    path.append(suffix);
    path
}

/// The name of the file that holds the voice of one chunk of a part:
/// `<part_id>_chunk_<index>.wav`.
pub fn chunk_file(part_id: &str, index: usize) -> (name: String)
    ensures
        name@ == part_id@ + "_chunk_"@ + decimal(index as nat) + ".wav"@,
{
    let mut name = String::from_str(part_id);
    name.append("_chunk_");
    push_decimal(&mut name, index as u64);
    name.append(".wav");
    name
}

/// The words with which music for a genre is asked for.
pub fn music_caption(genre: &str) -> (caption: String)
    ensures
        caption@ == "gentle children's "@ + genre@ + " music, soft and calming"@,
{
    let mut caption = String::from_str("gentle children's ");
    caption.append(genre);
    caption.append(" music, soft and calming");
    caption
}

/// The number of words in the first `n` characters of `s`: a word begins
/// where a character that is no white space stands first or behind white
/// space.
pub open spec fn words_in(s: Seq<char>, n: int) -> nat
    decreases n,
{
    if n <= 0 {
        0
    } else if !is_space(s[n - 1]) && (n == 1 || is_space(s[n - 2])) {
        words_in(s, n - 1) + 1
    } else {
        words_in(s, n - 1)
    }
}

/// Counts the words of a text: the runs of characters between white space.
/// The count stops at the largest number of 32 bits.
pub fn count_words(text: &str) -> (n: u32)
    ensures
        n == (if words_in(text@, text@.len() as int) <= u32::MAX {
            words_in(text@, text@.len() as int)
        } else {
            u32::MAX as nat
        }),
{
    let chars = chars_of(text);
    let mut n: u32 = 0;
    let mut inside = false;
    let mut i: usize = 0;
    while i < chars.len()
        invariant
            i <= chars.len(),
            inside == (i > 0 && !is_space(chars@[i - 1])),
            n == (if words_in(chars@, i as int) <= u32::MAX {
                words_in(chars@, i as int)
            } else {
                u32::MAX as nat
            }),
        decreases chars.len() - i,
    {
        let space = is_whitespace(chars[i]);
        if !space && !inside {
            if n < u32::MAX {
                n += 1;
            }
        }
        inside = !space;
        i += 1;
    }
    n
}

/// The length of the music for a text of so many words, in seconds: the
/// time it takes to read them at 150 words a minute, and not under 30.
pub open spec fn music_seconds(word_count: nat) -> nat {
    if word_count * 60 / 150 > 30 {
        word_count * 60 / 150
    } else {
        30
    }
}

/// Estimates how long the music for a text of `word_count` words has to be.
pub fn estimate_duration(word_count: u32) -> (secs: u32)
    ensures
        secs == music_seconds(word_count as nat),
{
    let reading: u64 = word_count as u64 * 60 / 150;
    if reading > 30 {
        reading as u32
    } else {
        30
    }
}

/// The stages of the audio pipeline, as they are reported.
#[derive(Debug, Clone, Copy, PartialEq, Eq, Structural)]
pub enum PipelineStage {
    VoiceGenerating,
    MusicGenerating,
    Mixing,
    Complete,
    Failed,
}

/// The name under which a stage is reported.
pub fn stage_name(stage: PipelineStage) -> (name: String)
    ensures
        name@ == (match stage {
            PipelineStage::VoiceGenerating => "voice_generating"@,
            PipelineStage::MusicGenerating => "music_generating"@,
            PipelineStage::Mixing => "mixing"@,
            PipelineStage::Complete => "complete"@,
            PipelineStage::Failed => "failed"@,
        }),
{
    match stage {
        PipelineStage::VoiceGenerating => String::from_str("voice_generating"),
        PipelineStage::MusicGenerating => String::from_str("music_generating"),
        PipelineStage::Mixing => String::from_str("mixing"),
        PipelineStage::Complete => String::from_str("complete"),
        PipelineStage::Failed => String::from_str("failed"),
    }
}

/// The names of the three files of a part: its voice, its music and the two
/// mixed.
pub struct PartFiles {
    pub voice: String,
    pub music: String,
    pub mixed: String,
}

/// The names of the files of a part in the audio directory:
/// `<part_id>_voice.wav`, `<part_id>_music.wav` and `<part_id>_final.mp3`.
pub fn part_files(part_id: &str) -> (files: PartFiles)
    ensures
        files.voice@ == part_id@ + "_voice.wav"@,
        files.music@ == part_id@ + "_music.wav"@,
        files.mixed@ == part_id@ + "_final.mp3"@,
{
    let mut voice = String::from_str(part_id);
    voice.append("_voice.wav");
    let mut music = String::from_str(part_id);
    music.append("_music.wav");
    let mut mixed = String::from_str(part_id);
    mixed.append("_final.mp3");
    PartFiles { voice, music, mixed }
}

/// Makes the audio of a part of a story: the voice, the music, and the two
/// mixed.
pub struct AudioPipeline {
    pub tts: TtsService,
    pub music: MusicService,
    pub audio_dir: PathBuf,
}

impl AudioPipeline {
    /// A pipeline that writes into `audio_dir`, with its services under
    /// `scripts_dir` and `models_dir`.
    pub fn new(scripts_dir: PathBuf, audio_dir: PathBuf, models_dir: PathBuf) -> (pipeline:
        AudioPipeline)
        ensures
            pipeline.audio_dir == audio_dir,
            pipeline.tts.models_dir == models_dir,
            pipeline.music.scripts_dir == scripts_dir,
            pipeline.music.models_dir == models_dir,
    {
        AudioPipeline {
            tts: TtsService::new(path_clone(&models_dir)),
            music: MusicService::new(scripts_dir, models_dir),
            audio_dir,
        }
    }
}

} // verus!
