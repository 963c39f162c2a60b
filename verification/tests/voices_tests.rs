use kokoro_tts::archive::{add_archive_entry, strip_npy, voice_of_file, VoiceFile};
use kokoro_tts::store::VoiceStore;
use kokoro_tts::voices::{
    parse_npy_f32, parse_raw_f32, Voice, EXPECTED_BYTES, EXPECTED_FLOATS, STYLE_DIM, VOICE_ROWS,
};
use kokoro_tts::KokoroError;
use std::io::{Cursor, Write};

fn ramp_voice() -> Voice {
    let data: Vec<u32> = (0..510 * 256).map(|i| (i as f32).to_bits()).collect();
    Voice::new(data).unwrap()
}

fn flat_voice(value: f32) -> Voice {
    Voice::new(vec![value.to_bits(); EXPECTED_FLOATS]).unwrap()
}

fn npy_file(version: u8, header: &[u8], floats: &[f32]) -> Vec<u8> {
    let mut file = vec![0x93, b'N', b'U', b'M', b'P', b'Y', version, 0];
    if version == 2 {
        file.extend_from_slice(&(header.len() as u32).to_le_bytes());
    } else {
        file.extend_from_slice(&(header.len() as u16).to_le_bytes());
    }
    file.extend_from_slice(header);
    for f in floats {
        file.extend_from_slice(&f.to_le_bytes());
    }
    file
}

fn voice_message(r: Result<Vec<u32>, KokoroError>) -> String {
    match r {
        Err(KokoroError::Voice(m)) => m,
        other => panic!("expected a voice error, got {:?}", other),
    }
}

#[test]
fn test_parse_npy_invalid_magic() {
    let data = b"not a numpy file";
    assert!(parse_npy_f32(data).is_err());
}

#[test]
fn test_voice_embedding_bounds() {
    let voice = ramp_voice();

    let emb = voice.embedding(0).unwrap();
    assert_eq!(emb.len(), 256);
    assert_eq!(f32::from_bits(emb[0]), 0.0);
    assert_eq!(f32::from_bits(emb[255]), 255.0);

    let emb = voice.embedding(1).unwrap();
    assert_eq!(f32::from_bits(emb[0]), 256.0);

    assert!(voice.embedding(510).is_err());
}

#[test]
fn test_parse_raw_f32() {
    let bytes: Vec<u8> = vec![0, 0, 128, 63, 0, 0, 0, 64];
    let floats: Vec<f32> = parse_raw_f32(&bytes).into_iter().map(f32::from_bits).collect();
    assert_eq!(floats, vec![1.0, 2.0]);
}

#[test]
fn the_last_row_is_row_509_and_there_is_none_beyond() {
    let voice = ramp_voice();
    let last = voice.embedding(509).unwrap();
    assert_eq!(last.len(), STYLE_DIM);
    assert_eq!(f32::from_bits(last[0]), (509 * 256) as f32);
    assert_eq!(f32::from_bits(last[255]), (510 * 256 - 1) as f32);
    assert!(matches!(voice.embedding(510), Err(KokoroError::VoiceIndexOutOfRange(510))));
    assert!(matches!(voice.embedding(511), Err(KokoroError::VoiceIndexOutOfRange(511))));
    assert!(matches!(
        voice.embedding(usize::MAX),
        Err(KokoroError::VoiceIndexOutOfRange(usize::MAX))
    ));
    assert_eq!(VOICE_ROWS * STYLE_DIM, EXPECTED_FLOATS);
    assert_eq!(EXPECTED_FLOATS * 4, EXPECTED_BYTES);
}

#[test]
fn a_voice_has_exactly_130560_values() {
    assert!(Voice::new(vec![0; EXPECTED_FLOATS - 1]).is_none());
    assert!(Voice::new(vec![0; EXPECTED_FLOATS + 1]).is_none());
    assert!(Voice::new(Vec::new()).is_none());
    assert!(Voice::new(vec![0; EXPECTED_FLOATS]).is_some());
}

#[test]
fn raw_words_are_little_endian_and_a_ragged_end_is_dropped() {
    assert_eq!(parse_raw_f32(&[0x78, 0x56, 0x34, 0x12, 0xff, 0xff, 0xff]), vec![0x12345678]);
    assert_eq!(parse_raw_f32(&[0xff, 0xff, 0xff, 0xff]), vec![u32::MAX]);
    assert_eq!(parse_raw_f32(&[1, 2, 3]), Vec::<u32>::new());
}

#[test]
fn array_files_of_both_versions_are_read() {
    let v1 = npy_file(1, b"{'descr': '<f4'}\n", &[1.5, -2.0]);
    assert_eq!(parse_npy_f32(&v1).unwrap(), vec![1.5f32.to_bits(), (-2.0f32).to_bits()]);
    let v2 = npy_file(2, b"{'descr': '<f4', 'shape': (3,)}\n", &[0.25, 0.5, 1.0]);
    assert_eq!(
        parse_npy_f32(&v2).unwrap(),
        vec![0.25f32.to_bits(), 0.5f32.to_bits(), 1.0f32.to_bits()]
    );
    let empty = npy_file(1, b"", &[]);
    assert_eq!(parse_npy_f32(&empty).unwrap(), Vec::<u32>::new());
}

#[test]
fn each_fault_of_an_array_file_is_told() {
    assert_eq!(voice_message(parse_npy_f32(b"short")), "Invalid .npy magic bytes");
    assert_eq!(voice_message(parse_npy_f32(b"\x93NUMPX\x01\x00\x00\x00")), "Invalid .npy magic bytes");
    let v3 = npy_file(3, b"", &[]);
    assert_eq!(voice_message(parse_npy_f32(&v3)), "Unsupported .npy version: 3");
    let v200 = npy_file(200, b"", &[]);
    assert_eq!(voice_message(parse_npy_f32(&v200)), "Unsupported .npy version: 200");
    let mut ragged = npy_file(1, b"hdr", &[1.0]);
    ragged.push(0);
    assert_eq!(voice_message(parse_npy_f32(&ragged)), "NPY data length not aligned to f32");
    let cut = vec![0x93, b'N', b'U', b'M', b'P', b'Y', 1, 0, 50, 0, 1, 2, 3];
    assert_eq!(voice_message(parse_npy_f32(&cut)), "NPY header exceeds the data");
    let cut2 = vec![0x93, b'N', b'U', b'M', b'P', b'Y', 2, 0, 0, 0];
    assert_eq!(voice_message(parse_npy_f32(&cut2)), "NPY header exceeds the data");
}

#[test]
fn names_are_listed_in_lexicographic_order() {
    let mut store = VoiceStore::new();
    for name in ["bm_lewis", "af_nova", "am_adam", "af", "Zed", "af_bella", "\u{e9}clair"] {
        store.insert(name, flat_voice(1.0));
    }
    assert_eq!(store.len(), 7);
    assert_eq!(
        store.names(),
        vec!["Zed", "af", "af_bella", "af_nova", "am_adam", "bm_lewis", "\u{e9}clair"]
    );
    let mut sorted = store.names();
    sorted.sort();
    assert_eq!(sorted, store.names());
}

#[test]
fn a_voice_is_found_by_its_exact_name_only() {
    let mut store = VoiceStore::new();
    store.insert("af_nova", flat_voice(1.0));
    store.insert("af", flat_voice(2.0));
    assert_eq!(f32::from_bits(store.get("af_nova").unwrap().embedding(3).unwrap()[0]), 1.0);
    assert_eq!(f32::from_bits(store.get("af").unwrap().embedding(3).unwrap()[0]), 2.0);
    for missing in ["AF_NOVA", "af_", "af_nova ", ""] {
        match store.get(missing) {
            Err(KokoroError::UnknownVoice(name)) => assert_eq!(name, missing),
            _ => panic!("{:?} should be unknown", missing),
        }
    }
}

#[test]
fn a_voice_put_in_again_replaces_the_first() {
    let mut store = VoiceStore::new();
    store.insert("a", flat_voice(1.0));
    store.insert("b", flat_voice(2.0));
    store.insert("a", flat_voice(3.0));
    assert_eq!(store.names(), vec!["a", "b"]);
    assert_eq!(f32::from_bits(store.get("a").unwrap().embedding(0).unwrap()[0]), 3.0);
    assert_eq!(f32::from_bits(store.get("b").unwrap().embedding(0).unwrap()[0]), 2.0);
}

fn file(file_name: &str, content: Option<Vec<u8>>) -> VoiceFile {
    VoiceFile { file_name: file_name.to_string(), content }
}

#[test]
fn a_directory_gives_the_voices_of_its_files_of_the_right_size() {
    let good: Vec<u8> = std::iter::repeat(1.0f32.to_le_bytes()).take(EXPECTED_FLOATS).flatten().collect();
    assert_eq!(good.len(), EXPECTED_BYTES);
    let files = vec![
        file("zeta.bin", Some(good.clone())),
        file("small.bin", Some(vec![0u8; 16])),
        file("alpha.bin", Some(good.clone())),
        file("large.bin", Some(vec![0u8; EXPECTED_BYTES + 4])),
    ];
    let store = VoiceStore::load_dir(&files, "/voices").unwrap();
    assert_eq!(store.names(), vec!["alpha", "zeta"]);
    assert_eq!(f32::from_bits(store.get("zeta").unwrap().embedding(509).unwrap()[255]), 1.0);
}

#[test]
fn a_file_that_cannot_be_read_or_is_no_voice_file_is_passed_over() {
    let good: Vec<u8> = vec![0u8; EXPECTED_BYTES];
    let files = vec![
        file("broken.bin", None),
        file("notes.txt", Some(good.clone())),
        file(".bin", Some(good.clone())),
        file("upper.BIN", Some(good.clone())),
        file("bin", Some(good.clone())),
        file("af_nova.bin", Some(good.clone())),
        file("a.b.bin", Some(good.clone())),
    ];
    let store = VoiceStore::load_dir(&files, "/voices").unwrap();
    assert_eq!(store.names(), vec!["a.b", "af_nova"]);
    let unreadable = vec![file("broken.bin", None), file("notes.txt", Some(good))];
    assert!(matches!(VoiceStore::load_dir(&unreadable, "d"), Err(KokoroError::Voice(_))));
}

#[test]
fn a_voice_file_is_known_by_its_extension() {
    assert_eq!(voice_of_file("af_nova.bin").as_deref(), Some("af_nova"));
    assert_eq!(voice_of_file("a.b.bin").as_deref(), Some("a.b"));
    assert_eq!(voice_of_file("..bin").as_deref(), Some("."));
    for other in [".bin", "bin", "af_nova", "af_nova.bin.bak", "af_nova.BIN", "af_nova.bin ", ""] {
        assert_eq!(voice_of_file(other), None, "{:?}", other);
    }
    for name in ["af_nova.bin", "a.b.bin", "..bin", ".bin", "bin", "af_nova", "x.BIN", "x.bi", ".hidden.bin"] {
        let path = std::path::Path::new(name);
        let expected = if path.extension().and_then(|e| e.to_str()) == Some("bin") {
            path.file_stem().and_then(|s| s.to_str()).filter(|s| !s.is_empty()).map(String::from)
        } else {
            None
        };
        assert_eq!(voice_of_file(name), expected, "{:?}", name);
    }
}

#[test]
fn a_directory_without_a_voice_fails_the_load() {
    let files = vec![file("small.bin", Some(vec![0u8; 16]))];
    match VoiceStore::load_dir(&files, "/voices") {
        Err(KokoroError::Voice(m)) => assert_eq!(m, "No valid voice files found in /voices"),
        _ => panic!("the load should fail"),
    }
    assert!(matches!(VoiceStore::load_dir(&Vec::new(), "d"), Err(KokoroError::Voice(_))));
}

#[test]
fn an_entry_is_stored_under_its_name_without_npy() {
    assert_eq!(strip_npy("af_nova.npy"), "af_nova");
    assert_eq!(strip_npy("af_nova"), "af_nova");
    assert_eq!(strip_npy(".npy"), "");
    assert_eq!(strip_npy("a.npy.npy"), "a.npy");
    assert_eq!(strip_npy("npy"), "npy");
    assert_eq!(strip_npy("a.NPY"), "a.NPY");
}

#[test]
fn an_entry_of_the_wrong_size_is_refused_and_leaves_the_store() {
    let mut store = VoiceStore::new();
    let small = npy_file(1, b"hdr\n", &[1.0, 2.0, 3.0]);
    match add_archive_entry(&mut store, "tiny.npy", &small) {
        Err(KokoroError::Voice(m)) => {
            assert_eq!(m, "Voice 'tiny' has unexpected size: 3 (expected 130560)")
        }
        _ => panic!("the entry should be refused"),
    }
    assert_eq!(store.len(), 0);
    match add_archive_entry(&mut store, "junk.npy", b"junk") {
        Err(KokoroError::Voice(m)) => assert_eq!(m, "Invalid .npy magic bytes"),
        _ => panic!("the entry should be refused"),
    }
    let full = npy_file(1, b"hdr\n", &vec![0.5; EXPECTED_FLOATS]);
    assert!(add_archive_entry(&mut store, "full.npy", &full).is_ok());
    assert_eq!(store.names(), vec!["full"]);
}

fn archive(entries: &[(&str, Vec<u8>)], method: zip::CompressionMethod) -> Vec<u8> {
    let mut writer = zip::ZipWriter::new(Cursor::new(Vec::new()));
    let options = zip::write::SimpleFileOptions::default().compression_method(method);
    for (name, data) in entries {
        writer.start_file(*name, options).unwrap();
        writer.write_all(data).unwrap();
    }
    writer.finish().unwrap().into_inner()
}

#[test]
fn an_archive_gives_the_voices_of_its_entries() {
    let one = npy_file(1, b"{'descr': '<f4'}\n", &vec![1.0; EXPECTED_FLOATS]);
    let two = npy_file(2, b"{'descr': '<f4'}\n", &vec![2.0; EXPECTED_FLOATS]);
    let bytes = archive(
        &[("bf_emma.npy", one), ("af_nova.npy", two)],
        zip::CompressionMethod::Deflated,
    );
    let store = VoiceStore::load_npz(bytes).unwrap();
    assert_eq!(store.names(), vec!["af_nova", "bf_emma"]);
    let emb = store.get("af_nova").unwrap().embedding(10).unwrap();
    assert_eq!(emb.len(), 256);
    assert_eq!(f32::from_bits(emb[0]), 2.0);
    assert_eq!(f32::from_bits(store.get("bf_emma").unwrap().embedding(0).unwrap()[0]), 1.0);
}

#[test]
fn one_bad_entry_fails_the_whole_archive() {
    let good = npy_file(1, b"h\n", &vec![1.0; EXPECTED_FLOATS]);
    let bad = npy_file(1, b"h\n", &[1.0]);
    let bytes = archive(&[("a.npy", good), ("b.npy", bad)], zip::CompressionMethod::Stored);
    match VoiceStore::load_npz(bytes) {
        Err(KokoroError::Voice(m)) => {
            assert_eq!(m, "Voice 'b' has unexpected size: 1 (expected 130560)")
        }
        _ => panic!("the load should fail"),
    }
}

#[test]
fn what_is_no_archive_fails_the_load() {
    match VoiceStore::load_npz(b"this is not a zip archive".to_vec()) {
        Err(KokoroError::Voice(m)) => assert!(m.starts_with("Failed to read NPZ archive: ")),
        _ => panic!("the load should fail"),
    }
}

#[test]
fn an_archive_without_entries_gives_an_empty_store() {
    let bytes = archive(&[], zip::CompressionMethod::Stored);
    let store = VoiceStore::load_npz(bytes).unwrap();
    assert_eq!(store.len(), 0);
    assert!(store.names().is_empty());
}

#[test]
fn an_entry_whose_content_cannot_be_read_is_told_from_one_that_holds_no_voice() {
    let good = npy_file(1, b"h\n", &vec![1.0; EXPECTED_FLOATS]);
    let mut bytes = archive(&[("a.npy", good)], zip::CompressionMethod::Stored);
    let at = bytes.windows(6).position(|w| w == b"\x93NUMPY").unwrap();
    bytes[at + 100] ^= 0xff;
    match VoiceStore::load_npz(bytes) {
        Err(KokoroError::Voice(m)) => {
            assert!(m.starts_with("Failed to read NPZ entry data: "), "{}", m)
        }
        _ => panic!("the load should fail"),
    }
}
