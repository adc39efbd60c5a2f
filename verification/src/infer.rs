//! The line protocol of the stand-alone inference process: its command line,
//! the commands it reads one per line, the WAV formats it accepts, and the
//! JSON line it answers with.
use vstd::prelude::*;
use crate::text::{chars_eq, chars_of, lowercase_chars, string_of, lowercase_spec, trim, trim_spec};

verus! {

/// `serde_json::Error`, carried as an opaque value.
#[verifier::external_type_specification]
#[verifier::external_body]
pub struct ExSerdeJsonError(serde_json::Error);

/// The lower-case hexadecimal digit for `d` in `0..16`.
pub open spec fn hex_digit(d: int) -> char {
    seq!['0', '1', '2', '3', '4', '5', '6', '7', '8', '9', 'a', 'b', 'c', 'd', 'e', 'f'][d]
}

/// How `serde_json` writes one character inside a string literal: `"` and
/// `\` behind a backslash; backspace, tab, line feed, form feed and carriage
/// return as `\b`, `\t`, `\n`, `\f`, `\r`; the other control characters
/// below U+0020 as `\u00` and two lower-case hexadecimal digits; every other
/// character as it is.
pub open spec fn json_escape_char(c: char) -> Seq<char> {
    let u = c as u32;
    if c == '"' {
        seq!['\\', '"']
    } else if c == '\\' {
        seq!['\\', '\\']
    } else if u == 0x08 {
        seq!['\\', 'b']
    } else if u == 0x09 {
        seq!['\\', 't']
    } else if u == 0x0a {
        seq!['\\', 'n']
    } else if u == 0x0c {
        seq!['\\', 'f']
    } else if u == 0x0d {
        seq!['\\', 'r']
    } else if u < 0x20 {
        seq!['\\', 'u', '0', '0', hex_digit((u / 16) as int), hex_digit((u % 16) as int)]
    } else {
        seq![c]
    }
}

/// The characters of `s`, each written as `json_escape_char` writes it.
pub open spec fn json_escape(s: Seq<char>) -> Seq<char>
    decreases s.len(),
{
    if s.len() == 0 {
        seq![]
    } else {
        json_escape(s.drop_last()) + json_escape_char(s.last())
    }
}

/// The JSON string literal that `serde_json` writes for a string: its
/// escaped characters between double quotes.
pub open spec fn json_string_literal(s: Seq<char>) -> Seq<char> {
    seq!['"'] + json_escape(s) + seq!['"']
}

/// `serde_json::to_string` of a `&str`: its JSON string literal, as the
/// compact formatter writes it (`format_escaped_str` with the `ESCAPE`
/// table of serde_json's `ser.rs`). Serializing a string into a `Vec<u8>`
/// cannot fail, so the result is always `Ok`.
#[verifier::external_body]
fn json_quote(s: &str) -> (r: Result<String, serde_json::Error>)
    ensures
        r is Ok,
        r is Ok ==> r->Ok_0@ == json_string_literal(s@),
{
    serde_json::to_string(s)
}

/// Speech-recognition engines the process can load.
#[derive(Debug, Clone, Copy, PartialEq, Eq, Structural)]
pub enum EngineKind {
    GigaAm,
    Whisper,
    Moonshine,
    Parakeet,
    SenseVoice,
}

/// Sample formats of WAV input that are accepted.
#[derive(Debug, Clone, Copy, PartialEq, Eq, Structural)]
pub enum SampleKind {
    /// 16-bit signed integers.
    Int16,
    /// 32-bit floats.
    Float32,
}

/// What one input line asks for.
pub enum LineCommand {
    /// A blank line: ignored.
    Skip,
    /// `EXIT`: stop.
    Exit,
    /// Transcribe the WAV file at this path.
    Transcribe(String),
}

/// The result of handling one transcription request.
pub enum TranscriptionOutcome {
    /// The transcript.
    Text(String),
    /// The engine failed with this message.
    TranscriptionFailed(String),
    /// The WAV file could not be read, with this message.
    WavFailed(String),
}

pub open spec fn engine_kind_spec(name: Seq<char>) -> Option<EngineKind> {
    if name == "gigaam"@ {
        Some(EngineKind::GigaAm)
    } else if name == "whisper"@ {
        Some(EngineKind::Whisper)
    } else if name == "moonshine"@ {
        Some(EngineKind::Moonshine)
    } else if name == "parakeet"@ {
        Some(EngineKind::Parakeet)
    } else if name == "sensevoice"@ {
        Some(EngineKind::SenseVoice)
    } else {
        None
    }
}

pub open spec fn line_command_view(c: LineCommand) -> Option<Option<Seq<char>>> {
    match c {
        LineCommand::Skip => None,
        LineCommand::Exit => Some(None),
        LineCommand::Transcribe(p) => Some(Some(p@)),
    }
}

/// Blank lines are skipped, `EXIT` stops, anything else (trimmed) is a path.
pub open spec fn line_command_spec(line: Seq<char>) -> Option<Option<Seq<char>>> {
    let t = trim_spec(line);
    if t.len() == 0 {
        None
    } else if t == "EXIT"@ {
        Some(None)
    } else {
        Some(Some(t))
    }
}

/// `{"error":<message>,"status":"error"}` (keys in the sorted order that
/// serde_json's map uses).
pub open spec fn error_line(message: Seq<char>) -> Seq<char> {
    "{\"error\":"@ + json_string_literal(message) + ",\"status\":\"error\"}"@
}

pub open spec fn response_spec(o: TranscriptionOutcome) -> Seq<char> {
    match o {
        TranscriptionOutcome::Text(t) => "{\"status\":\"success\",\"text\":"@ + json_string_literal(t@)
            + "}"@,
        TranscriptionOutcome::TranscriptionFailed(d) => error_line("Transcription failed: "@ + d@),
        TranscriptionOutcome::WavFailed(d) => error_line("Failed to read WAV: "@ + d@),
    }
}

/// The engine and model path given on the command line: the engine name,
/// lower-cased, and the model path, when at least two arguments follow the
/// program name.
pub fn cli_args(args: &Vec<String>) -> (r: Option<(String, String)>)
    ensures
        match r {
            None => args.len() < 3,
            Some((engine, model)) => args.len() >= 3 && engine@ == lowercase_spec(args[1]@)
                && model@ == args[2]@,
        },
{
    if args.len() < 3 {
        return None;
    }
    let engine = string_of(&lowercase_chars(&chars_of(args[1].as_str())));
    Some((engine, args[2].clone()))
}

/// The engine with this (lower-case) name.
pub fn parse_engine_kind(name: &str) -> (r: Option<EngineKind>)
    ensures
        r == engine_kind_spec(name@),
{
    let n = chars_of(name);
    if chars_eq(&n, &chars_of("gigaam")) {
        Some(EngineKind::GigaAm)
    } else if chars_eq(&n, &chars_of("whisper")) {
        Some(EngineKind::Whisper)
    } else if chars_eq(&n, &chars_of("moonshine")) {
        Some(EngineKind::Moonshine)
    } else if chars_eq(&n, &chars_of("parakeet")) {
        Some(EngineKind::Parakeet)
    } else if chars_eq(&n, &chars_of("sensevoice")) {
        Some(EngineKind::SenseVoice)
    } else {
        None
    }
}

/// What an input line asks for.
pub fn line_command(line: &str) -> (r: LineCommand)
    ensures
        line_command_view(r) == line_command_spec(line@),
{
    let t = trim(line);
    let tv = chars_of(t.as_str());
    if tv.len() == 0 {
        LineCommand::Skip
    } else if chars_eq(&tv, &chars_of("EXIT")) {
        LineCommand::Exit
    } else {
        LineCommand::Transcribe(t)
    }
}

/// The sample format of a WAV file: 16-bit integers or 32-bit floats; any
/// other width is refused with a message naming what is supported.
pub fn wav_sample_kind(is_float: bool, bits_per_sample: u16) -> (r: Result<SampleKind, String>)
    ensures
        match r {
            Ok(k) => (!is_float && bits_per_sample == 16 && k == SampleKind::Int16) || (is_float
                && bits_per_sample == 32 && k == SampleKind::Float32),
            Err(e) => if is_float {
                bits_per_sample != 32 && e@ == "Only 32-bit float WAV is supported"@
            } else {
                bits_per_sample != 16 && e@ == "Only 16-bit integer WAV is supported"@
            },
        },
{
    if is_float {
        if bits_per_sample == 32 {
            Ok(SampleKind::Float32)
        } else {
            Err(String::from_str("Only 32-bit float WAV is supported"))
        }
    } else {
        if bits_per_sample == 16 {
            Ok(SampleKind::Int16)
        } else {
            Err(String::from_str("Only 16-bit integer WAV is supported"))
        }
    }
}

fn quote(s: &str) -> (r: String)
    ensures
        r@ == json_string_literal(s@),
{
    match json_quote(s) {
        Ok(q) => q,
        Err(_) => {
            proof {
                assert(false);
            }
            String::new()
        },
    }
}

fn error_response(prefix: &str, detail: &str) -> (r: String)
    ensures
        r@ == error_line(prefix@ + detail@),
{
    let mut msg = String::from_str(prefix);
    msg.append(detail);
    let q = quote(msg.as_str());
    let mut line = String::from_str("{\"error\":");
    line.append(q.as_str());
    line.append(",\"status\":\"error\"}");
    line
}

/// The JSON line answered for one request: `{"status":"success","text":...}`
/// for a transcript, `{"error":...,"status":"error"}` with the failure
/// otherwise.
pub fn response_line(outcome: &TranscriptionOutcome) -> (r: String)
    ensures
        r@ == response_spec(*outcome),
{
    match outcome {
        TranscriptionOutcome::Text(t) => {
            let q = quote(t.as_str());
            let mut line = String::from_str("{\"status\":\"success\",\"text\":");
            line.append(q.as_str());
            line.append("}");
            line
        },
        TranscriptionOutcome::TranscriptionFailed(d) => error_response(
            "Transcription failed: ",
            d.as_str(),
        ),
        TranscriptionOutcome::WavFailed(d) => error_response("Failed to read WAV: ", d.as_str()),
    }
}

} // verus!
