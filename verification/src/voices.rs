use vstd::prelude::*;
use vstd::slice::slice_subrange;
use vstd::string::StringExecFns;
use crate::error::KokoroError;
use crate::text::{decimal, push_decimal};

verus! {

/// Style rows in a voice: one for each utterance length the model accepts.
pub const VOICE_ROWS: usize = 510;

/// Values in one style row.
pub const STYLE_DIM: usize = 256;

/// Values in a voice.
pub const EXPECTED_FLOATS: usize = 130560;

/// Bytes in a voice file.
pub const EXPECTED_BYTES: usize = 522240;

/// The 32-bit word that four bytes spell in little-endian order.
pub open spec fn le_word(b0: u8, b1: u8, b2: u8, b3: u8) -> u32 {
    (b0 as int + b1 as int * 0x100 + b2 as int * 0x1_0000 + b3 as int * 0x100_0000) as u32
}

/// The little-endian 32-bit words of `bytes`, as many as are complete. A
/// 32-bit float is held as the word of its bits.
pub open spec fn le_words(bytes: Seq<u8>) -> Seq<u32> {
    Seq::new(
        (bytes.len() / 4) as nat,
        |k: int| le_word(bytes[4 * k], bytes[4 * k + 1], bytes[4 * k + 2], bytes[4 * k + 3]),
    )
}

/// Reads little-endian 32-bit floats, each as the word of its bits. Bytes
/// after the last complete word are ignored.
pub fn parse_raw_f32(data: &[u8]) -> (words: Vec<u32>)
    ensures
        words@ == le_words(data@),
{
    let n = data.len() / 4;
    let mut words: Vec<u32> = Vec::with_capacity(n);
    let mut k: usize = 0;
    while k < n
        invariant
            n == data.len() / 4,
            k <= n,
            words.len() == k,
            forall|j: int| 0 <= j < k ==> words[j] == #[trigger] le_words(data@)[j],
        decreases n - k,
    {
        let b0: u32 = data[4 * k] as u32;
        let b1: u32 = data[4 * k + 1] as u32;
        let b2: u32 = data[4 * k + 2] as u32;
        let b3: u32 = data[4 * k + 3] as u32;
        words.push(b0 + b1 * 0x100 + b2 * 0x1_0000 + b3 * 0x100_0000);
        k += 1;
    }
    proof {
        assert(words@ =~= le_words(data@));
    }
    words
}

/// What can be wrong with an array file.
pub enum NpyFault {
    /// It does not begin with the format's magic bytes.
    BadMagic,
    /// Its format version is neither 1 nor 2.
    UnsupportedVersion(u8),
    /// Its header runs past the end of the file.
    Truncated,
    /// Its payload is not a whole number of 32-bit values.
    Misaligned,
}

/// Whether `d` begins as an array file does: ten bytes or more, the first six
/// of them the magic string.
pub open spec fn npy_magic(d: Seq<u8>) -> bool {
    &&& d.len() >= 10
    &&& d[0] == 0x93
    &&& d[1] == 0x4E
    &&& d[2] == 0x55
    &&& d[3] == 0x4D
    &&& d[4] == 0x50
    &&& d[5] == 0x59
}

/// Where the header of the array file `d` ends, going by the length field of
/// its version; `None` for a file too short to hold that field.
pub open spec fn npy_header_end(d: Seq<u8>) -> Option<int> {
    if d[6] == 1 {
        Some(10 + d[8] as int + d[9] as int * 0x100)
    } else if d.len() >= 12 {
        Some(12 + le_word(d[8], d[9], d[10], d[11]) as int)
    } else {
        None
    }
}

/// Where the payload of the array file `d` begins, or what is wrong with the
/// file.
pub open spec fn npy_payload_start(d: Seq<u8>) -> Result<int, NpyFault> {
    if !npy_magic(d) {
        Err(NpyFault::BadMagic)
    } else if d[6] != 1 && d[6] != 2 {
        Err(NpyFault::UnsupportedVersion(d[6]))
    } else {
        match npy_header_end(d) {
            None => Err(NpyFault::Truncated),
            Some(start) => if start > d.len() {
                Err(NpyFault::Truncated)
            } else if (d.len() - start) % 4 != 0 {
                Err(NpyFault::Misaligned)
            } else {
                Ok(start)
            },
        }
    }
}

/// The words with which a fault of an array file is reported.
pub open spec fn fault_text(f: NpyFault) -> Seq<char> {
    match f {
        NpyFault::BadMagic => "Invalid .npy magic bytes"@,
        NpyFault::UnsupportedVersion(v) => "Unsupported .npy version: "@ + decimal(v as nat),
        NpyFault::Truncated => "NPY header exceeds the data"@,
        NpyFault::Misaligned => "NPY data length not aligned to f32"@,
    }
}

/// Reads an array file (format version 1 or 2) of little-endian 32-bit
/// floats, each as the word of its bits: the values are what follows the
/// header.
pub fn parse_npy_f32(data: &[u8]) -> (r: Result<Vec<u32>, KokoroError>)
    ensures
        match npy_payload_start(data@) {
            Ok(start) => r matches Ok(words) && words@ == le_words(data@.skip(start)),
            Err(f) => r matches Err(KokoroError::Voice(m)) && m@ == fault_text(f),
        },
{
    let len = data.len();
    if len < 10 || data[0] != 0x93 || data[1] != 0x4E || data[2] != 0x55 || data[3] != 0x4D
        || data[4] != 0x50 || data[5] != 0x59 {
        return Err(KokoroError::Voice(String::from_str("Invalid .npy magic bytes")));
    }
    let major = data[6];
    let start: u64 = if major == 1 {
        10 + data[8] as u64 + data[9] as u64 * 0x100
    } else if major == 2 {
        if len < 12 {
            return Err(KokoroError::Voice(String::from_str("NPY header exceeds the data")));
        }
        12 + data[8] as u64 + data[9] as u64 * 0x100 + data[10] as u64 * 0x1_0000 + data[11] as u64
            * 0x100_0000
    } else {
        let mut m = String::from_str("Unsupported .npy version: ");
        push_decimal(&mut m, major as u64);
        return Err(KokoroError::Voice(m));
    };
    if start > len as u64 {
        return Err(KokoroError::Voice(String::from_str("NPY header exceeds the data")));
    }
    let start: usize = start as usize;
    if (len - start) % 4 != 0 {
        return Err(KokoroError::Voice(String::from_str("NPY data length not aligned to f32")));
    }
    let raw = slice_subrange(data, start, len);
    proof {
        assert(raw@ =~= data@.skip(start as int));
    }
    Ok(parse_raw_f32(raw))
}

/// The style vectors of one voice: `VOICE_ROWS` rows of `STYLE_DIM` values,
/// row after row. The row for an utterance is chosen by its token count.
pub struct Voice {
    data: Vec<u32>,
}

impl Voice {
    #[verifier::type_invariant]
    spec fn complete(self) -> bool {
        self.data.len() == EXPECTED_FLOATS
    }

    /// The values of the voice, row after row.
    pub closed spec fn values(&self) -> Seq<u32> {
        self.data@
    }

    /// The row for utterances of `token_len` tokens.
    pub open spec fn row(&self, token_len: int) -> Seq<u32> {
        self.values().subrange(token_len * STYLE_DIM, token_len * STYLE_DIM + STYLE_DIM)
    }

    /// Makes a voice of `data`, which must hold exactly `EXPECTED_FLOATS`
    /// values.
    pub fn new(data: Vec<u32>) -> (r: Option<Voice>)
        ensures
            match r {
                Some(v) => data.len() == EXPECTED_FLOATS && v.values() == data@,
                None => data.len() != EXPECTED_FLOATS,
            },
    {
        if data.len() == EXPECTED_FLOATS {
            Some(Voice { data })
        } else {
            None
        }
    }

    /// The style vector for an utterance of `token_len` tokens (counted
    /// before padding): the row of that number. There is no row for
    /// `VOICE_ROWS` tokens or more.
    pub fn embedding(&self, token_len: usize) -> (r: Result<&[u32], KokoroError>)
        ensures
            match r {
                Ok(style) => token_len < VOICE_ROWS && style@ == self.row(token_len as int)
                    && style@.len() == STYLE_DIM,
                Err(e) => token_len >= VOICE_ROWS && e == KokoroError::VoiceIndexOutOfRange(
                    token_len,
                ),
            },
    {
        proof {
            use_type_invariant(self);
        }
        if token_len >= VOICE_ROWS {
            return Err(KokoroError::VoiceIndexOutOfRange(token_len));
        }
        let start = token_len * STYLE_DIM;
        let end = start + STYLE_DIM;
        Ok(slice_subrange(self.data.as_slice(), start, end))
    }
}

} // verus!
