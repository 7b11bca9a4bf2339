//! Running external command line tools: which program paths are looked up
//! through `PATH`, how much of a tool's output is kept, and how that output
//! is quoted in error messages. Spawning and waiting live with the caller.
use std::path::Path;
use vstd::prelude::*;

use crate::text::{chars_of, extend_chars, string_from, trim, trim_chars};

verus! {

/// File system paths, carried through unchanged.
#[verifier::external_type_specification]
#[verifier::external_body]
pub struct ExPath(Path);

/// The most bytes of one output stream of a tool that are kept.
pub const MAX_CAPTURE_BYTES: usize = 65536;

/// What a finished tool wrote.
#[derive(Debug)]
pub struct Output {
    pub stdout: String,
    pub stderr: String,
}

/// `Path::to_string_lossy`: the path as text. Its exact characters depend
/// on the platform's path encoding, so nothing is stated of them.
#[verifier::external_body]
fn path_text(path: &Path) -> String {
    path.to_string_lossy().into_owned()
}

/// `Path::file_name`, tested for presence. Whether a path has a final
/// file-name component depends on the platform's path syntax, so nothing is
/// stated of it.
#[verifier::external_body]
fn has_file_name(path: &Path) -> bool {
    path.file_name().is_some()
}

/// A bare command name: a file name holding no `/` and no `\`.
pub open spec fn bare_command(has_file_name: bool, text: Seq<char>) -> bool {
    has_file_name && !text.contains('/') && !text.contains('\\')
}

/// Decides [`bare_command`] from whether the path has a file name and its
/// text.
pub fn bare_command_from(has_file_name: bool, text: &str) -> (r: bool)
    ensures
        r == bare_command(has_file_name, text@),
{
    if !has_file_name {
        return false;
    }
    let cs = chars_of(text);
    let mut i: usize = 0;
    while i < cs.len()
        invariant
            i <= cs.len(),
            cs@ == text@,
            forall|k: int| 0 <= k < i ==> cs@[k] != '/' && cs@[k] != '\\',
        decreases cs.len() - i,
    {
        if cs[i] == '/' || cs[i] == '\\' {
            assert(text@[i as int] == cs[i as int]);
            return false;
        }
        i = i + 1;
    }
    assert(!text@.contains('/'));
    assert(!text@.contains('\\'));
    true
}

/// A file name such as `ffmpeg` is deliberately left for `PATH` lookup; a
/// path containing a directory is validated by callers first.
///
/// The decision itself is [`bare_command_from`], exact over its inputs; the
/// two inputs come from `Path::file_name` and `Path::to_string_lossy`, which
/// follow the platform's path syntax and encoding, so no clause ties the
/// result to `path`.
pub fn is_bare_command(path: &Path) -> bool {
    let named = has_file_name(path);
    let text = path_text(path);
    bare_command_from(named, text.as_str())
}

/// `captured` after one chunk of a tool's output arrives: while fewer than
/// [`MAX_CAPTURE_BYTES`] bytes are kept, the chunk is appended up to that
/// limit; after that, chunks are dropped.
pub open spec fn captured_after(captured: Seq<u8>, chunk: Seq<u8>) -> Seq<u8> {
    if captured.len() < MAX_CAPTURE_BYTES {
        let room = MAX_CAPTURE_BYTES - captured.len();
        if chunk.len() <= room {
            captured + chunk
        } else {
            captured + chunk.take(room)
        }
    } else {
        captured
    }
}

/// Keeps one chunk of a tool's output within the capture limit.
pub fn capture_chunk(captured: &mut Vec<u8>, chunk: &[u8])
    ensures
        final(captured)@ == captured_after(old(captured)@, chunk@),
        old(captured)@.len() <= MAX_CAPTURE_BYTES ==> final(captured)@.len() <= MAX_CAPTURE_BYTES,
{
    if captured.len() < MAX_CAPTURE_BYTES {
        let room = MAX_CAPTURE_BYTES - captured.len();
        let take = if chunk.len() <= room {
            chunk.len()
        } else {
            room
        };
        let mut k: usize = 0;
        while k < take
            invariant
                k <= take <= chunk@.len(),
                captured@ == old(captured)@ + chunk@.take(k as int),
            decreases take - k,
        {
            captured.push(chunk[k]);
            k = k + 1;
            assert(chunk@.take(k as int) == chunk@.take(k - 1).push(chunk@[k - 1]));
        }
        assert(chunk@.take(chunk@.len() as int) == chunk@);
    }
}

/// The part of a tool's output quoted in an error: `": "` and the trimmed
/// standard error, or the trimmed standard output when standard error is
/// blank; nothing when both are blank.
pub open spec fn tool_output_suffix(stdout: Seq<char>, stderr: Seq<char>) -> Seq<char> {
    let output = if trim(stderr).len() > 0 {
        stderr
    } else {
        stdout
    };
    if trim(output).len() == 0 {
        Seq::empty()
    } else {
        ": "@ + trim(output)
    }
}

/// Formats a tool's output for an error message, as
/// [`tool_output_suffix`] describes.
pub fn format_tool_output(stdout: &str, stderr: &str) -> (r: String)
    ensures
        r@ == tool_output_suffix(stdout@, stderr@),
{
    let err = trim_chars(&chars_of(stderr));
    let chosen = if err.len() > 0 {
        err
    } else {
        trim_chars(&chars_of(stdout))
    };
    if chosen.len() == 0 {
        return String::new();
    }
    let mut out = chars_of(": ");
    extend_chars(&mut out, &chosen);
    string_from(&out)
}

/// The error of a run cancelled by the user.
pub fn cancellation_error(stdout: &str, stderr: &str) -> (r: String)
    ensures
        r@ == "processing cancelled"@ + tool_output_suffix(stdout@, stderr@),
{
    let mut out = chars_of("processing cancelled");
    let suffix = chars_of(format_tool_output(stdout, stderr).as_str());
    extend_chars(&mut out, &suffix);
    string_from(&out)
}

/// The error when waiting for a tool failed: the program, the wait
/// error's text and the tool's output.
pub fn wait_error(program: &str, error: &str, stdout: &str, stderr: &str) -> (r: String)
    ensures
        r@ == "could not wait for "@ + program@ + ": "@ + error@ + tool_output_suffix(stdout@, stderr@),
{
    let mut out = chars_of("could not wait for ");
    extend_chars(&mut out, &chars_of(program));
    extend_chars(&mut out, &chars_of(": "));
    extend_chars(&mut out, &chars_of(error));
    extend_chars(&mut out, &chars_of(format_tool_output(stdout, stderr).as_str()));
    string_from(&out)
}

/// The error when a tool exited unsuccessfully: the program, its exit
/// status as text and the tool's output.
pub fn exit_error(program: &str, status: &str, stdout: &str, stderr: &str) -> (r: String)
    ensures
        r@ == program@ + " exited with "@ + status@ + tool_output_suffix(stdout@, stderr@),
{
    let mut out = chars_of(program);
    extend_chars(&mut out, &chars_of(" exited with "));
    extend_chars(&mut out, &chars_of(status));
    extend_chars(&mut out, &chars_of(format_tool_output(stdout, stderr).as_str()));
    string_from(&out)
}

} // verus!
