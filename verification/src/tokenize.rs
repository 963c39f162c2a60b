use vstd::prelude::*;
use crate::text::chars_of;

verus! {

/// Largest number of phoneme tokens the model accepts before padding.
pub const MAX_PHONEME_LEN: usize = 510;

/// Largest token id in the vocabulary.
pub const MAX_TOKEN_ID: i64 = 177;

/// The vocabulary: the token id of a phoneme character, or `None` for a
/// character the model has no token for.
pub open spec fn vocab_id(c: char) -> Option<i64> {
    match c {
        '$' => Some(0),
        ';' => Some(1),
        ':' => Some(2),
        ',' => Some(3),
        '.' => Some(4),
        '!' => Some(5),
        '?' => Some(6),
        '\u{2014}' => Some(9),
        '\u{2026}' => Some(10),
        '"' => Some(11),
        '(' => Some(12),
        ')' => Some(13),
        '\u{201c}' => Some(14),
        '\u{201d}' => Some(15),
        ' ' => Some(16),
        '\u{0303}' => Some(17),
        '\u{02a3}' => Some(18),
        '\u{02a5}' => Some(19),
        '\u{02a6}' => Some(20),
        '\u{02a8}' => Some(21),
        '\u{1d5d}' => Some(22),
        '\u{ab67}' => Some(23),
        'A' => Some(24),
        'I' => Some(25),
        'O' => Some(31),
        'Q' => Some(33),
        'S' => Some(35),
        'T' => Some(36),
        'W' => Some(39),
        'Y' => Some(41),
        '\u{1d4a}' => Some(42),
        'a' => Some(43),
        'b' => Some(44),
        'c' => Some(45),
        'd' => Some(46),
        'e' => Some(47),
        'f' => Some(48),
        'h' => Some(50),
        'i' => Some(51),
        'j' => Some(52),
        'k' => Some(53),
        'l' => Some(54),
        'm' => Some(55),
        'n' => Some(56),
        'o' => Some(57),
        'p' => Some(58),
        'q' => Some(59),
        'r' => Some(60),
        's' => Some(61),
        't' => Some(62),
        'u' => Some(63),
        'v' => Some(64),
        'w' => Some(65),
        'x' => Some(66),
        'y' => Some(67),
        'z' => Some(68),
        '\u{0251}' => Some(69),
        '\u{0250}' => Some(70),
        '\u{0252}' => Some(71),
        '\u{00e6}' => Some(72),
        '\u{03b2}' => Some(75),
        '\u{0254}' => Some(76),
        '\u{0255}' => Some(77),
        '\u{00e7}' => Some(78),
        '\u{0256}' => Some(80),
        '\u{00f0}' => Some(81),
        '\u{02a4}' => Some(82),
        '\u{0259}' => Some(83),
        '\u{025a}' => Some(85),
        '\u{025b}' => Some(86),
        '\u{025c}' => Some(87),
        '\u{025f}' => Some(90),
        '\u{0261}' => Some(92),
        '\u{0265}' => Some(99),
        '\u{0268}' => Some(101),
        '\u{026a}' => Some(102),
        '\u{029d}' => Some(103),
        '\u{026f}' => Some(110),
        '\u{0270}' => Some(111),
        '\u{014b}' => Some(112),
        '\u{0273}' => Some(113),
        '\u{0272}' => Some(114),
        '\u{0274}' => Some(115),
        '\u{00f8}' => Some(116),
        '\u{0278}' => Some(118),
        '\u{03b8}' => Some(119),
        '\u{0153}' => Some(120),
        '\u{0279}' => Some(123),
        '\u{027e}' => Some(125),
        '\u{027b}' => Some(126),
        '\u{0281}' => Some(128),
        '\u{027d}' => Some(129),
        '\u{0282}' => Some(130),
        '\u{0283}' => Some(131),
        '\u{0288}' => Some(132),
        '\u{02a7}' => Some(133),
        '\u{028a}' => Some(135),
        '\u{028b}' => Some(136),
        '\u{028c}' => Some(138),
        '\u{0263}' => Some(139),
        '\u{0264}' => Some(140),
        '\u{03c7}' => Some(142),
        '\u{028e}' => Some(143),
        '\u{0292}' => Some(147),
        '\u{0294}' => Some(148),
        '\u{02c8}' => Some(156),
        '\u{02cc}' => Some(157),
        '\u{02d0}' => Some(158),
        '\u{02b0}' => Some(162),
        '\u{02b2}' => Some(164),
        '\u{2193}' => Some(169),
        '\u{2192}' => Some(171),
        '\u{2197}' => Some(172),
        '\u{2198}' => Some(173),
        '\u{1d7b}' => Some(177),
        _ => None,
    }
}

/// Looks a phoneme character up in the vocabulary.
pub fn vocab_lookup(c: char) -> (id: Option<i64>)
    ensures
        id == vocab_id(c),
        id matches Some(t) ==> 0 <= t <= MAX_TOKEN_ID,
{
    match c {
        '$' => Some(0),
        ';' => Some(1),
        ':' => Some(2),
        ',' => Some(3),
        '.' => Some(4),
        '!' => Some(5),
        '?' => Some(6),
        '\u{2014}' => Some(9),
        '\u{2026}' => Some(10),
        '"' => Some(11),
        '(' => Some(12),
        ')' => Some(13),
        '\u{201c}' => Some(14),
        '\u{201d}' => Some(15),
        ' ' => Some(16),
        '\u{0303}' => Some(17),
        '\u{02a3}' => Some(18),
        '\u{02a5}' => Some(19),
        '\u{02a6}' => Some(20),
        '\u{02a8}' => Some(21),
        '\u{1d5d}' => Some(22),
        '\u{ab67}' => Some(23),
        'A' => Some(24),
        'I' => Some(25),
        'O' => Some(31),
        'Q' => Some(33),
        'S' => Some(35),
        'T' => Some(36),
        'W' => Some(39),
        'Y' => Some(41),
        '\u{1d4a}' => Some(42),
        'a' => Some(43),
        'b' => Some(44),
        'c' => Some(45),
        'd' => Some(46),
        'e' => Some(47),
        'f' => Some(48),
        'h' => Some(50),
        'i' => Some(51),
        'j' => Some(52),
        'k' => Some(53),
        'l' => Some(54),
        'm' => Some(55),
        'n' => Some(56),
        'o' => Some(57),
        'p' => Some(58),
        'q' => Some(59),
        'r' => Some(60),
        's' => Some(61),
        't' => Some(62),
        'u' => Some(63),
        'v' => Some(64),
        'w' => Some(65),
        'x' => Some(66),
        'y' => Some(67),
        'z' => Some(68),
        '\u{0251}' => Some(69),
        '\u{0250}' => Some(70),
        '\u{0252}' => Some(71),
        '\u{00e6}' => Some(72),
        '\u{03b2}' => Some(75),
        '\u{0254}' => Some(76),
        '\u{0255}' => Some(77),
        '\u{00e7}' => Some(78),
        '\u{0256}' => Some(80),
        '\u{00f0}' => Some(81),
        '\u{02a4}' => Some(82),
        '\u{0259}' => Some(83),
        '\u{025a}' => Some(85),
        '\u{025b}' => Some(86),
        '\u{025c}' => Some(87),
        '\u{025f}' => Some(90),
        '\u{0261}' => Some(92),
        '\u{0265}' => Some(99),
        '\u{0268}' => Some(101),
        '\u{026a}' => Some(102),
        '\u{029d}' => Some(103),
        '\u{026f}' => Some(110),
        '\u{0270}' => Some(111),
        '\u{014b}' => Some(112),
        '\u{0273}' => Some(113),
        '\u{0272}' => Some(114),
        '\u{0274}' => Some(115),
        '\u{00f8}' => Some(116),
        '\u{0278}' => Some(118),
        '\u{03b8}' => Some(119),
        '\u{0153}' => Some(120),
        '\u{0279}' => Some(123),
        '\u{027e}' => Some(125),
        '\u{027b}' => Some(126),
        '\u{0281}' => Some(128),
        '\u{027d}' => Some(129),
        '\u{0282}' => Some(130),
        '\u{0283}' => Some(131),
        '\u{0288}' => Some(132),
        '\u{02a7}' => Some(133),
        '\u{028a}' => Some(135),
        '\u{028b}' => Some(136),
        '\u{028c}' => Some(138),
        '\u{0263}' => Some(139),
        '\u{0264}' => Some(140),
        '\u{03c7}' => Some(142),
        '\u{028e}' => Some(143),
        '\u{0292}' => Some(147),
        '\u{0294}' => Some(148),
        '\u{02c8}' => Some(156),
        '\u{02cc}' => Some(157),
        '\u{02d0}' => Some(158),
        '\u{02b0}' => Some(162),
        '\u{02b2}' => Some(164),
        '\u{2193}' => Some(169),
        '\u{2192}' => Some(171),
        '\u{2197}' => Some(172),
        '\u{2198}' => Some(173),
        '\u{1d7b}' => Some(177),
        _ => None,
    }
}

/// The token ids of the characters of `s` that the vocabulary maps, in order;
/// unmapped characters leave no entry.
pub open spec fn mapped_ids(s: Seq<char>) -> Seq<i64>
    decreases s.len(),
{
    if s.len() == 0 {
        Seq::empty()
    } else {
        match vocab_id(s.last()) {
            Some(id) => mapped_ids(s.drop_last()).push(id),
            None => mapped_ids(s.drop_last()),
        }
    }
}

/// What `tokenize` returns for the phoneme string `s`: the first
/// `MAX_PHONEME_LEN` mapped ids.
pub open spec fn token_ids(s: Seq<char>) -> Seq<i64> {
    let all = mapped_ids(s);
    if all.len() <= MAX_PHONEME_LEN {
        all
    } else {
        all.take(MAX_PHONEME_LEN as int)
    }
}

/// What `pad_tokens` returns: the sentinel id 0 before and after `tokens`.
pub open spec fn padded(tokens: Seq<i64>) -> Seq<i64> {
    seq![0i64] + tokens + seq![0i64]
}

/// The ids of a prefix of a string are a prefix of the ids of the string.
pub proof fn lemma_mapped_ids_prefix(s: Seq<char>, n: int)
    requires
        0 <= n <= s.len(),
    ensures
        mapped_ids(s.take(n)).len() <= mapped_ids(s).len(),
        mapped_ids(s).take(mapped_ids(s.take(n)).len() as int) == mapped_ids(s.take(n)),
    decreases s.len(),
{
    if n == s.len() {
        assert(s.take(n) =~= s);
        assert(mapped_ids(s).take(mapped_ids(s).len() as int) =~= mapped_ids(s));
    } else {
        assert(s.drop_last().take(n) =~= s.take(n));
        lemma_mapped_ids_prefix(s.drop_last(), n);
        let short = mapped_ids(s.take(n));
        let rest = mapped_ids(s.drop_last());
        assert(mapped_ids(s).take(short.len() as int) =~= rest.take(short.len() as int));
    }
}

/// Every id of the vocabulary lies between 0 and `MAX_TOKEN_ID`.
pub proof fn lemma_vocab_id_range(c: char)
    ensures
        vocab_id(c) matches Some(t) ==> 0 <= t <= MAX_TOKEN_ID,
{
}

/// Every mapped id lies in the vocabulary's range.
pub proof fn lemma_mapped_ids_range(s: Seq<char>)
    ensures
        forall|i: int| 0 <= i < mapped_ids(s).len() ==> 0 <= #[trigger] mapped_ids(s)[i] <= MAX_TOKEN_ID,
    decreases s.len(),
{
    if s.len() > 0 {
        lemma_mapped_ids_range(s.drop_last());
        lemma_vocab_id_range(s.last());
        let rest = mapped_ids(s.drop_last());
        assert forall|i: int| 0 <= i < mapped_ids(s).len() implies 0 <= #[trigger] mapped_ids(s)[i]
            <= MAX_TOKEN_ID by {
            if i < rest.len() {
                assert(mapped_ids(s)[i] == rest[i]);
            }
        }
    }
}

/// Converts a phoneme string to token ids. Characters without a vocabulary
/// entry are skipped, and at most `MAX_PHONEME_LEN` ids are kept.
pub fn tokenize(phonemes: &str) -> (tokens: Vec<i64>)
    ensures
        tokens@ == token_ids(phonemes@),
        tokens.len() <= MAX_PHONEME_LEN,
        forall|i: int| 0 <= i < tokens.len() ==> 0 <= #[trigger] tokens[i] <= MAX_TOKEN_ID,
{
    let chars = chars_of(phonemes);
    let mut tokens: Vec<i64> = Vec::new();
    let mut i: usize = 0;
    while i < chars.len() && tokens.len() < MAX_PHONEME_LEN
        invariant
            i <= chars.len(),
            tokens.len() <= MAX_PHONEME_LEN,
            tokens@ == mapped_ids(chars@.take(i as int)),
        decreases chars.len() - i,
    {
        proof {
            assert(chars@.take(i + 1).drop_last() =~= chars@.take(i as int));
        }
        match vocab_lookup(chars[i]) {
            Some(id) => {
                tokens.push(id);
            },
            None => {},
        }
        i += 1;
    }
    proof {
        lemma_mapped_ids_prefix(chars@, i as int);
        lemma_mapped_ids_range(chars@.take(i as int));
        if i == chars.len() {
            assert(chars@.take(i as int) =~= chars@);
        }
    }
    tokens
}

/// Puts the sentinel id 0 before and after the tokens, as the model's start
/// and end markers.
pub fn pad_tokens(tokens: &[i64]) -> (out: Vec<i64>)
    ensures
        out@ == padded(tokens@),
        out.len() == tokens.len() + 2,
{
    let mut out: Vec<i64> = Vec::new();
    out.push(0);
    let mut i: usize = 0;
    while i < tokens.len()
        invariant
            i <= tokens.len(),
            out@ == seq![0i64] + tokens@.take(i as int),
        decreases tokens.len() - i,
    {
        out.push(tokens[i]);
        proof {
            assert(tokens@.take(i + 1) =~= tokens@.take(i as int).push(tokens@[i as int]));
        }
        i += 1;
    }
    out.push(0);
    proof {
        assert(tokens@.take(tokens.len() as int) =~= tokens@);
    }
    out
}

} // verus!
