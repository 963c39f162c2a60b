use vstd::prelude::*;
use vstd::string::StringExecFns;
use std::io::{Cursor, Read};
use zip::result::ZipError;
use zip::ZipArchive;
use crate::error::KokoroError;
use crate::store::VoiceStore;
use crate::text::{begins_with, chars_of, decimal, push_decimal, string_of};
use crate::voices::{
    fault_text, le_words, npy_payload_start, parse_npy_f32, parse_raw_f32, Voice, EXPECTED_BYTES,
    EXPECTED_FLOATS,
};

verus! {

/// `zip::ZipArchive`, an archive opened for reading. Nothing inside it is
/// seen here.
#[verifier::external_type_specification]
#[verifier::external_body]
#[verifier::reject_recursive_types(R)]
pub struct ExZipArchive<R>(ZipArchive<R>);

/// `zip::result::ZipError`, the error of the zip crate. Nothing inside it is
/// seen here.
#[verifier::external_type_specification]
#[verifier::external_body]
pub struct ExZipError(ZipError);

/// `std::io::Cursor`, the reader over bytes in memory from which an archive
/// is opened. Nothing inside it is seen here.
#[verifier::external_type_specification]
#[verifier::external_body]
#[verifier::reject_recursive_types(T)]
pub struct ExCursor<T>(Cursor<T>);

/// `std::io::Error`, the error of reading. Nothing inside it is seen here.
#[verifier::external_type_specification]
#[verifier::external_body]
pub struct ExIoError(std::io::Error);

/// What an archive holds: for each of its entries, in the order of its
/// central directory, the entry's name with its unpacked content, which is
/// `None` where the content cannot be read; or `None` where the entry
/// cannot be opened.
pub uninterp spec fn archive_entries(archive: ZipArchive<Cursor<Vec<u8>>>) -> Seq<
    Option<(Seq<char>, Option<Seq<u8>>)>,
>;

/// What a file of these bytes holds when it is read as a zip archive; `None`
/// where it is no archive that can be read.
pub uninterp spec fn zip_archive(bytes: Seq<u8>) -> Option<
    Seq<Option<(Seq<char>, Option<Seq<u8>>)>>,
>;

/// Why an entry of an archive could not be had.
pub enum EntryFault {
    /// The entry could not be opened.
    Open(ZipError),
    /// The entry was opened and its content could not be read.
    Read(std::io::Error),
}

/// `zip::ZipArchive::new` on the bytes of a file held in memory. The archive
/// that comes back holds what `zip_archive` names for these bytes; an error
/// comes back where it names nothing.
#[verifier::external_body]
fn open_archive(bytes: Vec<u8>) -> (r: Result<ZipArchive<Cursor<Vec<u8>>>, ZipError>)
    ensures
        match r {
            Ok(archive) => zip_archive(bytes@) == Some(archive_entries(archive)),
            Err(_) => zip_archive(bytes@) is None,
        },
{
    ZipArchive::new(Cursor::new(bytes))
}

/// `zip::ZipArchive::len`: the number of entries.
#[verifier::external_body]
fn archive_len(archive: &ZipArchive<Cursor<Vec<u8>>>) -> (n: usize)
    ensures
        n == archive_entries(*archive).len(),
{
    archive.len()
}

/// `zip::ZipArchive::by_index`, then the entry's `name` and all of its
/// content by `read_to_end`. The archive holds afterwards what it held
/// before; the pair that comes back is the entry of that index. The error
/// of `by_index` or `name` comes back as `Open`, where the entry cannot be
/// opened; that of `read_to_end` as `Read`, where its content cannot be
/// read.
#[verifier::external_body]
fn archive_entry(archive: &mut ZipArchive<Cursor<Vec<u8>>>, index: usize) -> (r: Result<
    (String, Vec<u8>),
    EntryFault,
>)
    requires
        index < archive_entries(*old(archive)).len(),
    ensures
        archive_entries(*final(archive)) == archive_entries(*old(archive)),
        match r {
            Ok(entry) => archive_entries(*old(archive))[index as int] == Some(
                (entry.0@, Some(entry.1@)),
            ),
            Err(EntryFault::Open(_)) => archive_entries(*old(archive))[index as int] is None,
            Err(EntryFault::Read(_)) => archive_entries(*old(archive))[index as int] matches Some(
                (_, None),
            ),
        },
{
    let mut entry = archive.by_index(index).map_err(EntryFault::Open)?;
    let name = entry.name().map_err(EntryFault::Open)?.into_owned();
    let mut data = Vec::new();
    entry.read_to_end(&mut data).map_err(EntryFault::Read)?;
    Ok((name, data))
}

/// The words in which the system describes an error of reading (its
/// `Display`).
#[verifier::external_body]
fn io_error_text(e: &std::io::Error) -> String {
    e.to_string()
}

/// The words in which the zip crate describes an error (its `Display`).
#[verifier::external_body]
fn zip_error_text(e: &ZipError) -> String {
    e.to_string()
}

/// The name of the voice in an archive entry called `name`: the entry's name
/// without a closing `.npy`.
pub open spec fn voice_name(name: Seq<char>) -> Seq<char> {
    if name.len() >= 4 && name.subrange(name.len() - 4, name.len() as int) == seq![
        '.',
        'n',
        'p',
        'y',
    ] {
        name.take(name.len() - 4)
    } else {
        name
    }
}

/// The values of the voice in an array file, or the words in which the file
/// is refused: it must be a well-formed array file of exactly
/// `EXPECTED_FLOATS` values.
pub open spec fn entry_voice(name: Seq<char>, data: Seq<u8>) -> Result<Seq<u32>, Seq<char>> {
    match npy_payload_start(data) {
        Err(f) => Err(fault_text(f)),
        Ok(start) => {
            let words = le_words(data.skip(start));
            if words.len() == EXPECTED_FLOATS {
                Ok(words)
            } else {
                Err(
                    "Voice '"@ + voice_name(name) + "' has unexpected size: "@ + decimal(
                        words.len(),
                    ) + " (expected 130560)"@,
                )
            }
        },
    }
}

/// Removes a closing `.npy` from an entry's name.
pub fn strip_npy(name: &str) -> (stem: String)
    ensures
        stem@ == voice_name(name@),
{
    let chars = chars_of(name);
    let n = chars.len();
    if n >= 4 && chars[n - 4] == '.' && chars[n - 3] == 'n' && chars[n - 2] == 'p' && chars[n - 1]
        == 'y' {
        proof {
            assert(chars@.subrange(n - 4, n as int) =~= seq!['.', 'n', 'p', 'y']);
            assert(chars@.subrange(0, n - 4) =~= chars@.take(n - 4));
        }
        string_of(&chars, 0, n - 4)
    } else {
        proof {
            if n >= 4 {
                let tail = chars@.subrange(n - 4, n as int);
                assert(tail[0] == chars@[n - 4]);
                assert(tail[1] == chars@[n - 3]);
                assert(tail[2] == chars@[n - 2]);
                assert(tail[3] == chars@[n - 1]);
            }
            assert(chars@.subrange(0, n as int) =~= chars@);
        }
        string_of(&chars, 0, n)
    }
}

/// Reads the voice of one archive entry into the store, under the entry's
/// name without `.npy`. An entry that is no array file of exactly
/// `EXPECTED_FLOATS` values is an error and leaves the store as it is.
pub fn add_archive_entry(store: &mut VoiceStore, name: &str, data: &[u8]) -> (r: Result<
    (),
    KokoroError,
>)
    ensures
        match entry_voice(name@, data@) {
            Ok(words) => r is Ok && final(store).voices() == old(store).voices().insert(
                voice_name(name@),
                words,
            ),
            Err(text) => (r matches Err(KokoroError::Voice(m)) && m@ == text)
                && final(store).voices() == old(store).voices(),
        },
{
    let stem = strip_npy(name);
    let words = match parse_npy_f32(data) {
        Ok(words) => words,
        Err(e) => {
            return Err(e);
        },
    };
    let count = words.len();
    match Voice::new(words) {
        Some(voice) => {
            store.insert(stem.as_str(), voice);
            Ok(())
        },
        None => {
            let mut m = String::from_str("Voice '");
            m.append(stem.as_str());
            m.append("' has unexpected size: ");
            push_decimal(&mut m, count as u64);
            m.append(" (expected 130560)");
            Err(KokoroError::Voice(m))
        },
    }
}

/// The store that the first `n` entries of an archive give, or `None` where
/// one of them cannot be read or holds no voice.
pub open spec fn archive_voices(
    entries: Seq<Option<(Seq<char>, Option<Seq<u8>>)>>,
    n: int,
) -> Option<Map<Seq<char>, Seq<u32>>>
    decreases n,
{
    if n <= 0 {
        Some(Map::empty())
    } else {
        match (archive_voices(entries, n - 1), entries[n - 1]) {
            (Some(voices), Some((name, Some(data)))) => match entry_voice(name, data) {
                Ok(words) => Some(voices.insert(voice_name(name), words)),
                Err(_) => None,
            },
            _ => None,
        }
    }
}

/// Whether entry `i` is the first at which the archive fails: the entries
/// before it give a store and those up to it do not.
pub open spec fn fails_at(entries: Seq<Option<(Seq<char>, Option<Seq<u8>>)>>, i: int) -> bool {
    0 <= i < entries.len() && archive_voices(entries, i) is Some && archive_voices(entries, i + 1)
        is None
}

/// How the error of an entry that cannot be opened begins.
pub open spec fn unreadable_prefix(i: int) -> Seq<char> {
    "Failed to read NPZ entry "@ + decimal(i as nat) + ": "@
}

/// How the error of an entry whose content cannot be read begins.
pub open spec fn unread_data_prefix() -> Seq<char> {
    "Failed to read NPZ entry data: "@
}

/// Whether `message` is how entry `i` is refused: an entry that cannot be
/// opened by its number, one whose content cannot be read as such, and one
/// that holds no voice in the words of `entry_voice`.
pub open spec fn entry_refused(
    entry: Option<(Seq<char>, Option<Seq<u8>>)>,
    i: int,
    message: Seq<char>,
) -> bool {
    match entry {
        None => begins_with(message, unreadable_prefix(i)),
        Some((_, None)) => begins_with(message, unread_data_prefix()),
        Some((name, Some(data))) => entry_voice(name, data) == Err::<Seq<u32>, Seq<char>>(
            message,
        ),
    }
}

/// The name of the voice in a file called `file_name`: what stands before
/// its extension, if that extension is `bin`. A name that is `.bin` and
/// nothing more has no extension.
pub open spec fn file_voice(file_name: Seq<char>) -> Option<Seq<char>> {
    if file_name.len() > 4 && file_name.subrange(file_name.len() - 4, file_name.len() as int)
        == seq!['.', 'b', 'i', 'n'] {
        Some(file_name.take(file_name.len() - 4))
    } else {
        None
    }
}

/// Tells whether a file of a voice directory is a voice file, by its name,
/// and under which name its voice goes.
pub fn voice_of_file(file_name: &str) -> (name: Option<String>)
    ensures
        match name {
            Some(n) => file_voice(file_name@) == Some(n@),
            None => file_voice(file_name@) is None,
        },
{
    let chars = chars_of(file_name);
    let n = chars.len();
    if n > 4 && chars[n - 4] == '.' && chars[n - 3] == 'b' && chars[n - 2] == 'i' && chars[n - 1]
        == 'n' {
        proof {
            assert(chars@.subrange(n - 4, n as int) =~= seq!['.', 'b', 'i', 'n']);
            assert(chars@.subrange(0, n - 4) =~= chars@.take(n - 4));
        }
        Some(string_of(&chars, 0, n - 4))
    } else {
        proof {
            if n > 4 {
                let tail = chars@.subrange(n - 4, n as int);
                assert(tail[0] == chars@[n - 4]);
                assert(tail[1] == chars@[n - 3]);
                assert(tail[2] == chars@[n - 2]);
                assert(tail[3] == chars@[n - 1]);
            }
        }
        None
    }
}

/// A file of a voice directory: its name, and its content where it could be
/// read.
pub struct VoiceFile {
    pub file_name: String,
    pub content: Option<Vec<u8>>,
}

/// The voice that a file gives: its name and values. A file gives a voice
/// when it is a voice file by its name, could be read, and holds exactly
/// `EXPECTED_BYTES` bytes; any other file is passed over.
pub open spec fn voice_in(file: VoiceFile) -> Option<(Seq<char>, Seq<u32>)> {
    match (file_voice(file.file_name@), file.content) {
        (Some(name), Some(bytes)) => if bytes@.len() == EXPECTED_BYTES {
            Some((name, le_words(bytes@)))
        } else {
            None
        },
        _ => None,
    }
}

/// The voices of the first `n` files of a directory.
pub open spec fn dir_voices(files: Seq<VoiceFile>, n: int) -> Map<Seq<char>, Seq<u32>>
    decreases n,
{
    if n <= 0 {
        Map::empty()
    } else {
        match voice_in(files[n - 1]) {
            Some((name, values)) => dir_voices(files, n - 1).insert(name, values),
            None => dir_voices(files, n - 1),
        }
    }
}

/// Whether one of the first `n` files gives a voice.
pub open spec fn any_voice_file(files: Seq<VoiceFile>, n: int) -> bool {
    exists|i: int| 0 <= i < n && voice_in(#[trigger] files[i]) is Some
}

impl VoiceStore {
    /// Loads the voices of a directory, given its files. A file that is no
    /// voice file by its name, one that could not be read, and one of
    /// another size than `EXPECTED_BYTES` are passed over. If no voice is
    /// left, the load fails; `dir` names the directory in the error.
    pub fn load_dir(files: &Vec<VoiceFile>, dir: &str) -> (r: Result<VoiceStore, KokoroError>)
        ensures
            match r {
                Ok(store) => any_voice_file(files@, files.len() as int) && store.voices()
                    == dir_voices(files@, files.len() as int),
                Err(e) => !any_voice_file(files@, files.len() as int) && (
                e matches KokoroError::Voice(m) && m@ == "No valid voice files found in "@ + dir@),
            },
    {
        let mut store = VoiceStore::new();
        let mut found = false;
        let mut i: usize = 0;
        while i < files.len()
            invariant
                i <= files.len(),
                store.voices() == dir_voices(files@, i as int),
                found == any_voice_file(files@, i as int),
            decreases files.len() - i,
        {
            let file = &files[i];
            let mut added = false;
            match voice_of_file(file.file_name.as_str()) {
                Some(name) => {
                    match &file.content {
                        Some(bytes) => {
                            if bytes.len() == EXPECTED_BYTES {
                                let words = parse_raw_f32(bytes.as_slice());
                                match Voice::new(words) {
                                    Some(voice) => {
                                        store.insert(name.as_str(), voice);
                                        added = true;
                                    },
                                    None => {
                                        proof {
                                            assert(false);
                                        }
                                    },
                                }
                            }
                        },
                        None => {},
                    }
                },
                None => {},
            }
            proof {
                assert(added == (voice_in(files@[i as int]) is Some));
                if !added && !found && any_voice_file(files@, i + 1) {
                    let k = choose|k: int| 0 <= k < i + 1 && voice_in(#[trigger] files@[k]) is Some;
                    assert(k < i);
                }
            }
            if added {
                found = true;
            }
            i += 1;
        }
        if found {
            Ok(store)
        } else {
            let mut m = String::from_str("No valid voice files found in ");
            m.append(dir);
            Err(KokoroError::Voice(m))
        }
    }

    /// Loads the voices of an archive of array files, given the bytes of the
    /// archive. Every entry has to hold a voice: the first that cannot be
    /// opened, whose content cannot be read, or that is no array file of
    /// `EXPECTED_FLOATS` values fails the load, and the error says which.
    pub fn load_npz(bytes: Vec<u8>) -> (r: Result<VoiceStore, KokoroError>)
        ensures
            match zip_archive(bytes@) {
                Some(entries) => match archive_voices(entries, entries.len() as int) {
                    Some(voices) => r matches Ok(store) && store.voices() == voices,
                    None => r matches Err(KokoroError::Voice(m)) && exists|i: int|
                        #[trigger] fails_at(entries, i) && entry_refused(entries[i], i, m@),
                },
                None => r matches Err(KokoroError::Voice(m)) && begins_with(
                    m@,
                    "Failed to read NPZ archive: "@,
                ),
            },
    {
        let ghost source = bytes@;
        let mut archive = match open_archive(bytes) {
            Ok(archive) => archive,
            Err(e) => {
                let mut m = String::from_str("Failed to read NPZ archive: ");
                m.append(zip_error_text(&e).as_str());
                proof {
                    let prefix = "Failed to read NPZ archive: "@;
                    assert(m@.take(prefix.len() as int) =~= prefix);
                }
                return Err(KokoroError::Voice(m));
            },
        };
        let ghost entries = archive_entries(archive);
        let n = archive_len(&archive);
        let mut store = VoiceStore::new();
        let mut i: usize = 0;
        while i < n
            invariant
                i <= n,
                n == entries.len(),
                source == bytes@,
                zip_archive(source) == Some(entries),
                archive_entries(archive) == entries,
                archive_voices(entries, i as int) == Some(store.voices()),
            decreases n - i,
        {
            let (name, data) = match archive_entry(&mut archive, i) {
                Ok(entry) => entry,
                Err(EntryFault::Open(e)) => {
                    proof {
                        assert(archive_voices(entries, i + 1) is None);
                        lemma_archive_fails(entries, i + 1, n as int);
                    }
                    let mut m = String::from_str("Failed to read NPZ entry ");
                    push_decimal(&mut m, i as u64);
                    m.append(": ");
                    m.append(zip_error_text(&e).as_str());
                    proof {
                        let prefix = unreadable_prefix(i as int);
                        assert(m@.take(prefix.len() as int) =~= prefix);
                        assert(fails_at(entries, i as int));
                    }
                    return Err(KokoroError::Voice(m));
                },
                Err(EntryFault::Read(e)) => {
                    proof {
                        assert(archive_voices(entries, i + 1) is None);
                        lemma_archive_fails(entries, i + 1, n as int);
                    }
                    let mut m = String::from_str("Failed to read NPZ entry data: ");
                    m.append(io_error_text(&e).as_str());
                    proof {
                        let prefix = unread_data_prefix();
                        assert(m@.take(prefix.len() as int) =~= prefix);
                        assert(fails_at(entries, i as int));
                    }
                    return Err(KokoroError::Voice(m));
                },
            };
            match add_archive_entry(&mut store, name.as_str(), data.as_slice()) {
                Ok(()) => {},
                Err(e) => {
                    proof {
                        assert(archive_voices(entries, i + 1) is None);
                        lemma_archive_fails(entries, i + 1, n as int);
                        assert(fails_at(entries, i as int));
                    }
                    return Err(e);
                },
            }
            i += 1;
        }
        Ok(store)
    }
}

/// Once an archive has failed at some entry, it fails as a whole.
pub proof fn lemma_archive_fails(
    entries: Seq<Option<(Seq<char>, Option<Seq<u8>>)>>,
    k: int,
    n: int,
)
    requires
        0 <= k <= n,
        archive_voices(entries, k) is None,
    ensures
        archive_voices(entries, n) is None,
    decreases n - k,
{
    if k < n {
        lemma_archive_fails(entries, k + 1, n);
    }
}

} // verus!
