use kokoro_tts::commands::{
    build_download_args, build_sync_args, install_command, install_result, job_record,
    job_started, parse_dependency, python_deps_result, unknown_dependency, Dependency,
};
use kokoro_tts::health::{
    ffmpeg_status, first_line_of, gemma_status, import_check_args, model_found, model_status,
    music_check_args, ollama_status, python_deps_status, subdir, tts_check_args, uv_status,
};
use kokoro_tts::models::{AudioJob, Genre, Story, StoryPart, StoryWithParts};
use kokoro_tts::ollama::{
    accept_chunk, generate_request, generate_url, status_error, stream_error, LineBuffer,
    OllamaStreamChunk, BASE_URL,
};
use kokoro_tts::text::{has_prefix, same_text, trim_text};

#[test]
fn dependencies_are_known_by_their_names() {
    assert_eq!(parse_dependency("ollama"), Some(Dependency::Ollama));
    assert_eq!(parse_dependency("gemma3"), Some(Dependency::Gemma3));
    assert_eq!(parse_dependency("uv"), Some(Dependency::Uv));
    assert_eq!(parse_dependency("ffmpeg"), Some(Dependency::Ffmpeg));
    assert_eq!(parse_dependency("python_deps"), Some(Dependency::PythonDeps));
    assert_eq!(parse_dependency("tts_model"), Some(Dependency::TtsModel));
    assert_eq!(parse_dependency("music_model"), Some(Dependency::MusicModel));
    assert_eq!(parse_dependency("Ollama"), None);
    assert_eq!(parse_dependency(""), None);
    assert_eq!(unknown_dependency("git"), "Unknown dependency: git");
}

#[test]
fn programs_are_installed_by_one_command() {
    let brew = install_command(Dependency::Ollama).unwrap();
    assert_eq!((brew.program.as_str(), brew.args), ("brew", vec!["install".to_string(), "ollama".to_string()]));
    let pull = install_command(Dependency::Gemma3).unwrap();
    assert_eq!((pull.program.as_str(), pull.args), ("ollama", vec!["pull".to_string(), "gemma3".to_string()]));
    let uv = install_command(Dependency::Uv).unwrap();
    assert_eq!((uv.program.as_str(), uv.args), ("brew", vec!["install".to_string(), "uv".to_string()]));
    let ffmpeg = install_command(Dependency::Ffmpeg).unwrap();
    assert_eq!((ffmpeg.program.as_str(), ffmpeg.args), ("brew", vec!["install".to_string(), "ffmpeg".to_string()]));
    assert!(install_command(Dependency::PythonDeps).is_none());
    assert!(install_command(Dependency::TtsModel).is_none());
    assert!(install_command(Dependency::MusicModel).is_none());
}

#[test]
fn models_are_downloaded_and_packages_synced_with_these_arguments() {
    assert_eq!(
        build_download_args("/s/tts", "/s/tts/download_model.py", None),
        vec!["run", "--project", "/s/tts", "python", "/s/tts/download_model.py"]
    );
    assert_eq!(
        build_download_args("/s/music", "/s/music/download_model.py", Some("/m/ck")),
        vec!["run", "--project", "/s/music", "python", "/s/music/download_model.py", "--checkpoints-dir", "/m/ck"]
    );
    assert_eq!(build_sync_args("/s/tts"), vec!["sync", "--project", "/s/tts"]);
}

#[test]
fn a_silent_installation_is_reported_in_words() {
    let r = install_result(true, String::new(), "Completed");
    assert!(r.success);
    assert_eq!(r.output, "Completed");
    let r = install_result(false, "error: no formula".to_string(), "Completed with no output");
    assert!(!r.success);
    assert_eq!(r.output, "error: no formula");
    let r = python_deps_result(true, "resolved 3", false, "failed\n");
    assert!(!r.success);
    assert_eq!(r.output, "=== TTS deps ===\nresolved 3\n=== Music deps ===\nfailed");
    let r = python_deps_result(true, "", true, "");
    assert!(r.success);
    assert_eq!(r.output, "=== TTS deps ===\n\n=== Music deps ===");
}

#[test]
fn the_end_of_a_job_is_written_down() {
    let info = job_started("job-1".to_string());
    assert_eq!((info.job_id.as_str(), info.status.as_str()), ("job-1", "voice_generating"));
    let done = job_record(Ok("/audio/p_final.mp3".to_string()));
    assert_eq!(done.job_status, "complete");
    assert_eq!(done.error_message, None);
    assert_eq!(done.part_status, "audio_ready");
    assert_eq!(done.audio_path.as_deref(), Some("/audio/p_final.mp3"));
    let failed = job_record(Err("ffmpeg mixing failed: x".to_string()));
    assert_eq!(failed.job_status, "failed");
    assert_eq!(failed.error_message.as_deref(), Some("ffmpeg mixing failed: x"));
    assert_eq!(failed.part_status, "audio_failed");
    assert_eq!(failed.audio_path, None);
}

#[test]
fn the_status_of_the_programs_is_read_from_their_output() {
    let s = ollama_status(true);
    assert_eq!((s.name.as_str(), s.installed, s.version.as_deref()), ("Ollama", true, Some("Running")));
    assert_eq!(s.install_command, "brew install ollama && ollama serve");
    let s = ollama_status(false);
    assert_eq!((s.installed, s.version), (false, None));
    let s = uv_status(Some("uv 0.4.1 (abc)\n"));
    assert_eq!((s.name.as_str(), s.installed, s.version.as_deref()), ("uv", true, Some("uv 0.4.1 (abc)")));
    assert_eq!(s.install_command, "brew install uv");
    let s = uv_status(None);
    assert_eq!((s.installed, s.version), (false, None));
    let s = ffmpeg_status(Some("ffmpeg version 7.0\r\nbuilt with clang\n"));
    assert_eq!((s.name.as_str(), s.installed, s.version.as_deref()), ("ffmpeg", true, Some("ffmpeg version 7.0")));
    assert_eq!(s.install_command, "brew install ffmpeg");
    assert_eq!(ffmpeg_status(Some("")).version.as_deref(), Some(""));
    assert_eq!(ffmpeg_status(None).installed, false);
}

#[test]
fn the_first_line_ends_at_the_first_line_feed() {
    for text in ["", "one", "one\n", "one\ntwo", "one\r\ntwo", "\nrest", "a\rb\nc", "tail\r"] {
        assert_eq!(first_line_of(text), text.lines().next().unwrap_or(""), "{:?}", text);
    }
}

#[test]
fn the_story_model_is_there_when_a_listed_model_begins_with_gemma3() {
    let names = vec!["llama3:8b".to_string(), "gemma3:4b".to_string()];
    let s = gemma_status(Some(&names));
    assert_eq!((s.name.as_str(), s.installed, s.version.as_deref()), ("Gemma 3", true, Some("Available")));
    assert_eq!(s.install_command, "ollama pull gemma3");
    let others = vec!["llama3:8b".to_string(), "gemma2".to_string(), "my-gemma3".to_string()];
    assert_eq!(gemma_status(Some(&others)).installed, false);
    assert_eq!(gemma_status(Some(&Vec::new())).installed, false);
    let s = gemma_status(None);
    assert_eq!((s.installed, s.version), (false, None));
}

#[test]
fn a_model_is_found_when_its_check_prints_installed() {
    assert!(model_found(true, "installed\n"));
    assert!(model_found(true, "  installed  "));
    assert!(!model_found(false, "installed"));
    assert!(!model_found(true, "missing"));
    assert!(!model_found(true, "installed now"));
    assert!(!model_found(true, ""));
    let s = model_status("TTS Model", true);
    assert_eq!((s.name.as_str(), s.installed, s.version.as_deref()), ("TTS Model", true, Some("Downloaded")));
    assert_eq!(s.install_command, "Download via setup wizard");
    let s = model_status("Music Model", false);
    assert_eq!((s.name.as_str(), s.installed, s.version), ("Music Model", false, None));
}

#[test]
fn the_python_packages_are_there_when_both_sets_are() {
    let s = python_deps_status(true, true, "/s/tts", "/s/music");
    assert_eq!((s.name.as_str(), s.installed, s.version.as_deref()), ("Python ML deps", true, Some("Installed")));
    assert_eq!(s.install_command, "uv sync --project /s/tts && uv sync --project /s/music");
    let s = python_deps_status(true, false, "t", "m");
    assert_eq!((s.installed, s.version.as_deref()), (false, Some("TTS ok, music missing")));
    let s = python_deps_status(false, true, "t", "m");
    assert_eq!((s.installed, s.version.as_deref()), (false, Some("Music ok, TTS missing")));
    let s = python_deps_status(false, false, "t", "m");
    assert_eq!((s.installed, s.version), (false, None));
}

#[test]
fn the_checks_are_run_with_these_arguments() {
    assert_eq!(subdir("/app/scripts", "tts"), "/app/scripts/tts");
    assert_eq!(
        tts_check_args("/s/tts"),
        vec!["run", "--frozen", "--project", "/s/tts", "python", "/s/tts/check_model.py"]
    );
    assert_eq!(
        music_check_args("/s/music", "/m/acestep/checkpoints"),
        vec![
            "run",
            "--frozen",
            "--project",
            "/s/music",
            "python",
            "/s/music/check_model.py",
            "--checkpoints-dir",
            "/m/acestep/checkpoints"
        ]
    );
    assert_eq!(
        import_check_args("/s/tts", "import x"),
        vec!["run", "--frozen", "--project", "/s/tts", "python", "-c", "import x"]
    );
}

#[test]
fn the_server_is_asked_for_a_streamed_generation() {
    let request = generate_request("gemma3", "system words", "prompt words");
    assert_eq!(request.model, "gemma3");
    assert_eq!(request.system, "system words");
    assert_eq!(request.prompt, "prompt words");
    assert!(request.stream);
    assert_eq!(generate_url(BASE_URL), "http://localhost:11434/api/generate");
}

#[test]
fn only_the_beginning_of_an_error_body_is_reported() {
    assert_eq!(status_error("404 Not Found", "no such model"), "Ollama returned status 404 Not Found: no such model");
    let long = "\u{e9}".repeat(600);
    let message = status_error("500", &long);
    assert_eq!(message, format!("Ollama returned status 500: {}", "\u{e9}".repeat(500)));
    let exact = "x".repeat(500);
    assert_eq!(status_error("500", &exact), format!("Ollama returned status 500: {}", exact));
    assert_eq!(stream_error(3, "reset"), "Stream error after 3 chunks: reset");
    assert_eq!(stream_error(0, ""), "Stream error after 0 chunks: ");
}

#[test]
fn lines_are_handed_out_when_they_are_complete() {
    let mut buffer = LineBuffer::new();
    assert!(buffer.feed("{\"response\":\"He").is_empty());
    assert_eq!(buffer.feed("llo\"}\n  \n{\"done\""), vec!["{\"response\":\"Hello\"}"]);
    assert_eq!(buffer.feed(":true}\r\n{\"a\":1}\n{\"b\""), vec!["{\"done\":true}", "{\"a\":1}"]);
    assert!(buffer.feed("").is_empty());
    assert_eq!(buffer.feed("\n"), vec!["{\"b\""]);
    assert!(buffer.feed("\n\n").is_empty());
}

#[test]
fn a_line_of_the_answer_gives_its_tokens() {
    let mut story = "Once".to_string();
    let chunk = OllamaStreamChunk { response: Some(" upon".to_string()), done: false };
    let tokens = accept_chunk(&mut story, &chunk);
    assert_eq!(story, "Once upon");
    assert_eq!(tokens.len(), 1);
    assert_eq!((tokens[0].token.as_str(), tokens[0].done), (" upon", false));
    let last = OllamaStreamChunk { response: Some(String::new()), done: true };
    let tokens = accept_chunk(&mut story, &last);
    assert_eq!(story, "Once upon");
    assert_eq!(tokens.len(), 2);
    assert_eq!((tokens[0].token.as_str(), tokens[0].done), ("", false));
    assert_eq!((tokens[1].token.as_str(), tokens[1].done), ("", true));
    let bare = OllamaStreamChunk { response: None, done: true };
    let tokens = accept_chunk(&mut story, &bare);
    assert_eq!(story, "Once upon");
    assert_eq!(tokens.len(), 1);
    assert!(tokens[0].done);
    let nothing = OllamaStreamChunk { response: None, done: false };
    assert!(accept_chunk(&mut story, &nothing).is_empty());
}

#[test]
fn strings_are_compared_and_trimmed_as_the_standard_library_does() {
    assert!(same_text("abc", "abc"));
    assert!(!same_text("abc", "abd"));
    assert!(!same_text("abc", "ab"));
    assert!(same_text("", ""));
    assert!(has_prefix("gemma3:4b", "gemma3"));
    assert!(has_prefix("gemma3", "gemma3"));
    assert!(!has_prefix("gemma", "gemma3"));
    assert!(has_prefix("anything", ""));
    let spaces: Vec<char> = (0u32..0x3100).filter_map(char::from_u32).collect();
    for c in spaces {
        let text = format!("{}x{}", c, c);
        assert_eq!(trim_text(&text), text.trim(), "U+{:04X}", c as u32);
    }
}

#[test]
fn the_records_of_the_application_hold_their_fields() {
    let genre = Genre {
        id: "adventure".to_string(),
        name: "Adventure".to_string(),
        description: "Exciting journeys".to_string(),
        icon: Some("compass".to_string()),
        display_order: 0,
        created_at: "2024-01-01".to_string(),
    };
    let story = Story {
        id: "test-id".to_string(),
        title: "Test Story".to_string(),
        genre_id: "adventure".to_string(),
        status: "draft".to_string(),
        is_sample: 0,
        created_at: "2024-01-01".to_string(),
        updated_at: "2024-01-01".to_string(),
    };
    let part = StoryPart {
        id: "part-1".to_string(),
        story_id: "test-id".to_string(),
        part_number: 1,
        content: "Once.".to_string(),
        audio_path: None,
        status: "text_ready".to_string(),
        created_at: "2024-01-01".to_string(),
        updated_at: "2024-01-01".to_string(),
    };
    let job = AudioJob {
        id: "j1".to_string(),
        story_part_id: "part-1".to_string(),
        voice_path: None,
        final_path: None,
        status: "pending".to_string(),
        error_message: None,
        created_at: "2024-01-01".to_string(),
        updated_at: "2024-01-01".to_string(),
    };
    let whole = StoryWithParts { story: story.clone(), genre: genre.clone(), parts: vec![part.clone()] };
    assert_eq!(whole.story.id, story.id);
    assert_eq!(whole.genre.name, "Adventure");
    assert_eq!(whole.parts[0].part_number, 1);
    assert_eq!(job.clone().status, "pending");
}
