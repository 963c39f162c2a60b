use vstd::prelude::*;
use crate::text::{chars_of, lemma_trimmed_twice, string_of, trim_bounds, trimmed};
use misaki_rs::g2p::G2PError;
use misaki_rs::{Language, G2P};

verus! {

/// `misaki_rs::G2P`, the grapheme-to-phoneme engine. Nothing inside it is
/// seen here.
#[verifier::external_type_specification]
#[verifier::external_body]
pub struct ExG2P(G2P);

/// `misaki_rs::g2p::G2PError`, the error of the engine. Nothing inside it is
/// seen here.
#[verifier::external_type_specification]
#[verifier::external_body]
pub struct ExG2PError(G2PError);

/// `misaki_rs::G2P::new` for US English: builds the engine from the lexicon
/// and tagger data that the crate carries. Nothing is claimed of the engine.
#[verifier::external_body]
fn new_engine() -> G2P {
    G2P::new(Language::EnglishUS)
}

/// Whether `ing`, in capitals or not, stands at position `i` of `s` right
/// behind a character that takes more than one byte.
pub open spec fn cuts_at(s: Seq<char>, i: int) -> bool {
    &&& 1 <= i && i + 2 < s.len()
    &&& s[i - 1] >= '\u{80}'
    &&& (s[i] == 'i' || s[i] == 'I')
    &&& (s[i + 1] == 'n' || s[i + 1] == 'N')
    &&& (s[i + 2] == 'g' || s[i + 2] == 'G')
}

/// Whether link markup may stand in `s`: the engine takes `[text](feature)`
/// for a link and puts `text` in its place, and no link is without `](`.
pub open spec fn has_link_mark(s: Seq<char>) -> bool {
    exists|i: int| 0 <= i && i + 1 < s.len() && #[trigger] s[i] == ']' && s[i + 1] == '('
}

/// Whether a character of more than one byte stands in `s`.
pub open spec fn has_wide(s: Seq<char>) -> bool {
    exists|i: int| 0 <= i < s.len() && #[trigger] s[i] >= '\u{80}'
}

/// Whether the primary phonemizer can take `s`: nowhere in it does `ing`
/// stand right behind a character of more than one byte, and no link
/// markup, which could bring the two together, stands in a text with such a
/// character.
pub open spec fn engine_takes(s: Seq<char>) -> bool {
    (forall|i: int| !cuts_at(s, i)) && !(has_link_mark(s) && has_wide(s))
}

/// Tests whether the primary phonemizer can take a text.
pub fn engine_accepts(text: &str) -> (ok: bool)
    ensures
        ok == engine_takes(text@),
{
    let chars = chars_of(text);
    let len = chars.len();
    let mut link = false;
    let mut wide = false;
    let mut i: usize = 0;
    while i < len
        invariant
            i <= len,
            len == chars.len(),
            chars@ == text@,
            forall|k: int| k + 2 < i ==> !cuts_at(chars@, k),
            link == (exists|k: int|
                0 <= k && k + 1 < i && #[trigger] chars@[k] == ']' && chars@[k + 1] == '('),
            wide == (exists|k: int| 0 <= k < i && #[trigger] chars@[k] >= '\u{80}'),
        decreases len - i,
    {
        let c = chars[i];
        if c >= '\u{80}' {
            wide = true;
        }
        if i >= 1 && c == '(' && chars[i - 1] == ']' {
            link = true;
        }
        if i >= 3 && (c == 'g' || c == 'G') && (chars[i - 1] == 'n' || chars[i - 1] == 'N') && (
        chars[i - 2] == 'i' || chars[i - 2] == 'I') && chars[i - 3] >= '\u{80}' {
            proof {
                assert(cuts_at(chars@, i - 2));
            }
            return false;
        }
        proof {
            assert(chars@[i as int] == c);
            if i >= 1 {
                assert(chars@[i - 1] == chars[i - 1]);
            }
        }
        i += 1;
    }
    proof {
        assert forall|k: int| !cuts_at(chars@, k) by {
            if cuts_at(chars@, k) {
                assert(k + 2 < len);
            }
        }
    }
    !(link && wide)
}

/// `misaki_rs::G2P::g2p`, of whose result the phoneme string is kept. The
/// engine looks for the stem of a word that ends in `ing` by cutting four
/// bytes off its end, and panics where that cut falls inside a character.
/// Before it looks at words it puts the text of every link `[text](feature)`
/// in the link's place, which can join `ing` to what stood apart from it.
/// `requires` leaves out every text in which `ing` follows a character of
/// more than one byte, and every text that holds both `](` and such a
/// character. Nothing is claimed of the result: the engine's tagger sums its
/// weights in the order in which a hash map is walked, so two runs need not
/// agree.
#[verifier::external_body]
fn engine_g2p(engine: &G2P, text: &str) -> Result<String, G2PError>
    requires
        engine_takes(text@),
{
    engine.g2p(text).map(|(phonemes, _tokens)| phonemes)
}

/// The primary, in-process phonemizer for US English.
pub struct Phonemizer {
    engine: G2P,
}

/// What the primary phonemizer's answer is worth: its trimmed phonemes, or
/// `None` when it failed or gave only white space, so that the external tool
/// has to be asked.
pub fn usable(answer: Result<String, G2PError>) -> (phonemes: Option<String>)
    ensures
        match answer {
            Ok(p) => if trimmed(p@).len() > 0 {
                phonemes matches Some(t) && t@ == trimmed(p@)
            } else {
                phonemes is None
            },
            Err(_) => phonemes is None,
        },
{
    match answer {
        Ok(p) => {
            let chars = chars_of(p.as_str());
            let (a, b) = trim_bounds(&chars, 0, chars.len());
            proof {
                assert(chars@.subrange(0, chars.len() as int) =~= chars@);
            }
            if a < b {
                Some(string_of(&chars, a, b))
            } else {
                None
            }
        },
        Err(_) => None,
    }
}

impl Phonemizer {
    /// Builds the engine.
    pub fn new() -> Phonemizer {
        Phonemizer { engine: new_engine() }
    }

    /// Runs the primary phonemizer on `text` and says what its answer is
    /// worth. A text that the engine cannot take is not handed to it and
    /// has no answer.
    pub fn try_text(&self, text: &str) -> (phonemes: Option<String>)
        ensures
            phonemes matches Some(p) ==> engine_takes(text@) && p@.len() > 0 && trimmed(p@) == p@,
    {
        if !engine_accepts(text) {
            return None;
        }
        let answer = engine_g2p(&self.engine, text);
        proof {
            if answer is Ok {
                lemma_trimmed_twice(answer->Ok_0@);
            }
        }
        usable(answer)
    }
}

} // verus!
