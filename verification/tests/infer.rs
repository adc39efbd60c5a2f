use handy::infer::{
    cli_args, line_command, parse_engine_kind, response_line, wav_sample_kind, EngineKind,
    LineCommand, SampleKind, TranscriptionOutcome,
};

fn object(fields: &[(&str, &str)]) -> String {
    let mut m = serde_json::Map::new();
    for (k, v) in fields {
        m.insert(k.to_string(), serde_json::Value::from(*v));
    }
    serde_json::Value::Object(m).to_string()
}

#[test]
fn command_line() {
    let args: Vec<String> = ["rust-infer", "WhisPer", "/m/model.bin", "extra"]
        .iter()
        .map(|s| s.to_string())
        .collect();
    assert_eq!(cli_args(&args), Some(("whisper".to_string(), "/m/model.bin".to_string())));
    assert_eq!(cli_args(&args[..2].to_vec()), None);
    assert_eq!(parse_engine_kind("whisper"), Some(EngineKind::Whisper));
    assert_eq!(parse_engine_kind("gigaam"), Some(EngineKind::GigaAm));
    assert_eq!(parse_engine_kind("moonshine"), Some(EngineKind::Moonshine));
    assert_eq!(parse_engine_kind("parakeet"), Some(EngineKind::Parakeet));
    assert_eq!(parse_engine_kind("sensevoice"), Some(EngineKind::SenseVoice));
    assert_eq!(parse_engine_kind("Whisper"), None);
    assert_eq!(parse_engine_kind("vosk"), None);
}

#[test]
fn input_lines() {
    assert!(matches!(line_command("   \t"), LineCommand::Skip));
    assert!(matches!(line_command(" EXIT \r"), LineCommand::Exit));
    assert!(matches!(line_command("exit"), LineCommand::Transcribe(p) if p == "exit"));
    assert!(matches!(line_command("  /tmp/a b.wav\n"), LineCommand::Transcribe(p) if p == "/tmp/a b.wav"));
}

#[test]
fn wav_formats() {
    assert_eq!(wav_sample_kind(false, 16), Ok(SampleKind::Int16));
    assert_eq!(wav_sample_kind(true, 32), Ok(SampleKind::Float32));
    assert_eq!(wav_sample_kind(false, 24), Err("Only 16-bit integer WAV is supported".to_string()));
    assert_eq!(wav_sample_kind(true, 64), Err("Only 32-bit float WAV is supported".to_string()));
}

#[test]
fn response_lines_match_serde_json() {
    let text = "He said \"hi\"\n\u{1}\u{444}";
    assert_eq!(
        response_line(&TranscriptionOutcome::Text(text.to_string())),
        object(&[("status", "success"), ("text", text)])
    );
    assert_eq!(
        response_line(&TranscriptionOutcome::TranscriptionFailed("model \\ broke".to_string())),
        object(&[("status", "error"), ("error", "Transcription failed: model \\ broke")])
    );
    assert_eq!(
        response_line(&TranscriptionOutcome::WavFailed("No such file".to_string())),
        r#"{"error":"Failed to read WAV: No such file","status":"error"}"#
    );
    assert_eq!(
        response_line(&TranscriptionOutcome::Text(String::new())),
        r#"{"status":"success","text":""}"#
    );
}

#[test]
fn response_text_is_escaped_as_json() {
    let line = response_line(&TranscriptionOutcome::Text("a\"\\\u{1f}\u{8}\u{7f}\t\u{e9}".to_string()));
    let expected = String::from(r#"{"status":"success","text":"a\"\\\u001f\b"#) + "\u{7f}" + r#"\t"# + "\u{e9}" + r#""}"#;
    assert_eq!(line, expected);
}
