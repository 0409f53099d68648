//! The restricted process sandbox that runs generated code: its settings,
//! the limits a request gets, the script it writes, and how the output of
//! a run is bounded and summarized.
use crate::protocol::StateRef;
use crate::state::io_error_text;
use crate::text::{chars_of, decimal, push_decimal, push_str, string_of};
use vstd::prelude::*;
use vstd::utf8::{decode_utf8, valid_utf8};

verus! {

/// The language of a script.
#[derive(Debug, Clone, Copy, PartialEq, Eq, Structural)]
pub enum SandboxLanguage {
    Python,
    Shell,
}

/// A script to run. A zero timeout or output bound means "use the
/// sandbox's default".
#[derive(Debug, Clone)]
pub struct SandboxRequest {
    pub code: String,
    pub language: SandboxLanguage,
    pub input_refs: Vec<StateRef>,
    pub timeout_ms: u64,
    pub max_output_bytes: usize,
}

/// What a run produced.
#[derive(Debug, Clone)]
pub struct SandboxResult {
    pub run_id: u128,
    pub success: bool,
    pub exit_code: Option<i32>,
    pub summary: String,
    pub stdout: String,
    pub stderr: String,
    pub duration_ms: u64,
    pub output_ref: Option<StateRef>,
}

/// Why a run failed.
#[derive(Debug)]
pub enum SandboxError {
    /// Starting or talking to the process failed.
    Io(std::io::Error),
    /// The process ran longer than the given milliseconds and was killed.
    Timeout(u64),
}

impl SandboxError {
    /// The error's message: the time limit in milliseconds, or the I/O
    /// error's own text after `sandbox io error: `.
    pub fn message(&self) -> (m: String)
        ensures
            self matches SandboxError::Timeout(ms) ==> m@ == "sandbox timed out after "@ + decimal(
                ms as nat,
            ) + " ms"@,
            self is Io ==> "sandbox io error: "@.is_prefix_of(m@),
    {
        match self {
            SandboxError::Timeout(ms) => {
                let mut m = String::from_str("sandbox timed out after ");
                push_decimal(&mut m, *ms as u128);
                push_str(&mut m, " ms");
                m
            },
            SandboxError::Io(error) => {
                let mut m = String::from_str("sandbox io error: ");
                let ghost prefix = m@;
                let text = io_error_text(error);
                push_str(&mut m, text.as_str());
                assert(m@.subrange(0, prefix.len() as int) =~= prefix);
                m
            },
        }
    }
}

/// The settings of the process sandbox.
#[derive(Debug, Clone)]
pub struct RestrictedProcessSandbox {
    pub python_bin: String,
    pub shell_bin: String,
    pub default_timeout_ms: u64,
    pub max_output_bytes: usize,
    pub max_memory_bytes: u64,
    pub max_file_bytes: u64,
    pub max_cpu_seconds: u64,
}

impl Default for RestrictedProcessSandbox {
    /// `python3` and `sh`, 5 s timeout, 64 KiB of output, 256 MiB of memory,
    /// 16 MiB files and 5 s of CPU.
    fn default() -> (s: Self)
        ensures
            s.python_bin@ == "python3"@,
            s.shell_bin@ == "sh"@,
            s.default_timeout_ms == 5000,
            s.max_output_bytes == 64 * 1024,
            s.max_memory_bytes == 256 * 1024 * 1024,
            s.max_file_bytes == 16 * 1024 * 1024,
            s.max_cpu_seconds == 5,
    {
        RestrictedProcessSandbox {
            python_bin: String::from_str("python3"),
            shell_bin: String::from_str("sh"),
            default_timeout_ms: 5_000,
            max_output_bytes: 64 * 1024,
            max_memory_bytes: 256 * 1024 * 1024,
            max_file_bytes: 16 * 1024 * 1024,
            max_cpu_seconds: 5,
        }
    }
}

/// The name of the script file for a language.
pub open spec fn script_name(language: SandboxLanguage) -> Seq<char> {
    match language {
        SandboxLanguage::Python => "main.py"@,
        SandboxLanguage::Shell => "main.sh"@,
    }
}

/// The name of the script file for a language.
pub fn script_file_name(language: SandboxLanguage) -> (s: String)
    ensures
        s@ == script_name(language),
{
    match language {
        SandboxLanguage::Python => String::from_str("main.py"),
        SandboxLanguage::Shell => String::from_str("main.sh"),
    }
}

impl RestrictedProcessSandbox {
    /// The program that runs a script of the language.
    pub fn interpreter(&self, language: SandboxLanguage) -> (s: &String)
        ensures
            s == (match language {
                SandboxLanguage::Python => &self.python_bin,
                SandboxLanguage::Shell => &self.shell_bin,
            }),
    {
        match language {
            SandboxLanguage::Python => &self.python_bin,
            SandboxLanguage::Shell => &self.shell_bin,
        }
    }

    /// The timeout of a request: its own, or the default when it gives 0.
    pub fn timeout_for(&self, request: &SandboxRequest) -> (t: u64)
        ensures
            t == if request.timeout_ms == 0 {
                self.default_timeout_ms
            } else {
                request.timeout_ms
            },
    {
        if request.timeout_ms == 0 {
            self.default_timeout_ms
        } else {
            request.timeout_ms
        }
    }

    /// The output bound of a request: its own, or the default when it gives
    /// 0.
    pub fn output_bound_for(&self, request: &SandboxRequest) -> (n: usize)
        ensures
            n == if request.max_output_bytes == 0 {
                self.max_output_bytes
            } else {
                request.max_output_bytes
            },
    {
        if request.max_output_bytes == 0 {
            self.max_output_bytes
        } else {
            request.max_output_bytes
        }
    }

    /// The CPU limit given to a process: the setting, but at least one
    /// second.
    pub fn cpu_limit(&self) -> (n: u64)
        ensures
            n == if self.max_cpu_seconds < 1 {
                1
            } else {
                self.max_cpu_seconds
            },
    {
        if self.max_cpu_seconds < 1 {
            1
        } else {
            self.max_cpu_seconds
        }
    }
}

/// What `String::from_utf8_lossy` makes of some bytes.
pub uninterp spec fn utf8_lossy(bytes: Seq<u8>) -> Seq<char>;

/// `String::from_utf8_lossy(bytes).to_string()`. The result is named
/// `utf8_lossy`; std documents that valid UTF-8 is decoded unchanged and
/// that each invalid sequence (one byte or more) becomes one U+FFFD, so
/// there are never more characters than bytes.
#[verifier::external_body]
pub(crate) fn from_utf8_lossy(bytes: &[u8]) -> (s: String)
    ensures
        s@ == utf8_lossy(bytes@),
        valid_utf8(bytes@) ==> s@ == decode_utf8(bytes@),
        s@.len() <= bytes@.len(),
{
    String::from_utf8_lossy(bytes).to_string()
}

/// The output kept of a run: at most `max` bytes, decoded leniently, with
/// a `[truncated]` line when bytes were cut.
pub open spec fn bounded_output(bytes: Seq<u8>, max: nat) -> Seq<char> {
    if bytes.len() > max {
        utf8_lossy(bytes.take(max as int)) + "\n[truncated]"@
    } else {
        utf8_lossy(bytes)
    }
}

/// Keeps at most `max` bytes of a run's output.
pub fn bounded_utf8(bytes: Vec<u8>, max: usize) -> (s: String)
    ensures
        s@ == bounded_output(bytes@, max as nat),
        s@.len() <= max + 12,
{
    let truncated = bytes.len() > max;
    let mut kept: Vec<u8> = Vec::new();
    let mut i: usize = 0;
    while i < bytes.len() && i < max
        invariant
            i <= bytes.len(),
            i <= max,
            kept@ == bytes@.take(i as int),
        decreases bytes.len() - i,
    {
        kept.push(bytes[i]);
        i = i + 1;
        assert(kept@ == bytes@.take(i as int));
    }
    if !truncated {
        assert(kept@ == bytes@);
    }
    let mut out = from_utf8_lossy(kept.as_slice());
    assert(kept@.len() <= max);
    if truncated {
        proof {
            reveal_strlit("\n[truncated]");
        }
        push_str(&mut out, "\n[truncated]");
    }
    out
}

/// The first line of a text, as `str::lines` yields it: up to the first
/// `\n`, without a `\r` right before that `\n`; the whole text, `\r` and
/// all, when it has no `\n`; empty for an empty text.
pub open spec fn first_line(s: Seq<char>) -> Seq<char> {
    if exists|i: int| 0 <= i < s.len() && s[i] == '\n' {
        let line = s.take(choose_newline(s));
        if line.len() > 0 && line.last() == '\r' {
            line.drop_last()
        } else {
            line
        }
    } else {
        s
    }
}

/// The position of the first `\n`.
pub open spec fn choose_newline(s: Seq<char>) -> int {
    choose|i: int| 0 <= i < s.len() && s[i] == '\n' && forall|j: int| 0 <= j < i ==> s[j] != '\n'
}

/// The first line of a text.
pub fn first_line_of(s: &str) -> (r: String)
    ensures
        r@ == first_line(s@),
{
    let cs = chars_of(s);
    let mut i: usize = 0;
    while i < cs.len() && cs[i] != '\n'
        invariant
            i <= cs.len(),
            forall|j: int| 0 <= j < i ==> cs@[j] != '\n',
        decreases cs.len() - i,
    {
        i = i + 1;
    }
    let mut end = i;
    if i < cs.len() && end > 0 && cs[end - 1] == '\r' {
        end = end - 1;
    }
    let mut line: Vec<char> = Vec::new();
    let mut k: usize = 0;
    while k < end
        invariant
            k <= end <= i <= cs.len(),
            line@ == cs@.take(k as int),
        decreases end - k,
    {
        line.push(cs[k]);
        k = k + 1;
        assert(line@ == cs@.take(k as int));
    }
    proof {
        if i < cs.len() {
            assert(exists|p: int| 0 <= p < cs@.len() && cs@[p] == '\n');
            let c = choose_newline(cs@);
            assert(0 <= c < cs@.len() && cs@[c] == '\n' && forall|j: int|
                0 <= j < c ==> cs@[j] != '\n') by {
                assert(0 <= i < cs@.len() && cs@[i as int] == '\n' && forall|j: int|
                    0 <= j < i ==> cs@[j] != '\n');
            }
            if c < i {
                assert(cs@[c] != '\n');
            }
            if c > i {
                assert(cs@[i as int] != '\n');
            }
            assert(c == i);
            assert(cs@.take(i as int).take(end as int) == cs@.take(end as int));
        } else {
            assert(cs@.take(i as int) == cs@);
        }
        if end < i {
            assert(cs@.take(i as int).drop_last() == cs@.take(end as int));
        } else {
            assert(cs@.take(i as int) == cs@.take(end as int));
        }
    }
    string_of(&line)
}

/// `true` or `false`, as `Display` writes a `bool`.
pub open spec fn bool_text(b: bool) -> Seq<char> {
    if b {
        "true"@
    } else {
        "false"@
    }
}

/// The one-line summary of a run: whether it succeeded and the first line
/// of its output (standard output on success, standard error otherwise).
pub open spec fn run_summary(success: bool, stdout: Seq<char>, stderr: Seq<char>) -> Seq<char> {
    "success="@ + bool_text(success) + "; preview="@ + first_line(
        if success {
            stdout
        } else {
            stderr
        },
    )
}

/// Summarizes a run in one line.
pub fn summarize(success: bool, stdout: &str, stderr: &str) -> (s: String)
    ensures
        s@ == run_summary(success, stdout@, stderr@),
{
    let source = if success {
        stdout
    } else {
        stderr
    };
    let preview = first_line_of(source);
    let mut s = String::from_str("success=");
    if success {
        push_str(&mut s, "true");
    } else {
        push_str(&mut s, "false");
    }
    push_str(&mut s, "; preview=");
    push_str(&mut s, preview.as_str());
    s
}

/// What a finished run reports: it succeeded when the process exited with
/// status 0 (as `ExitStatus::success` says), both outputs bounded to
/// `max_output_bytes` and decoded, and the one-line summary of the output
/// that counts.
pub fn finished_run(
    run_id: u128,
    exit_code: Option<i32>,
    stdout: Vec<u8>,
    stderr: Vec<u8>,
    max_output_bytes: usize,
    duration_ms: u64,
) -> (r: SandboxResult)
    ensures
        r.run_id == run_id,
        r.success == (exit_code == Some(0i32)),
        r.exit_code == exit_code,
        r.stdout@ == bounded_output(stdout@, max_output_bytes as nat),
        r.stderr@ == bounded_output(stderr@, max_output_bytes as nat),
        r.stdout@.len() <= max_output_bytes + 12,
        r.stderr@.len() <= max_output_bytes + 12,
        r.summary@ == run_summary(
            r.success,
            bounded_output(stdout@, max_output_bytes as nat),
            bounded_output(stderr@, max_output_bytes as nat),
        ),
        r.duration_ms == duration_ms,
        r.output_ref is None,
{
    let success = match exit_code {
        Some(code) => code == 0,
        None => false,
    };
    let out = bounded_utf8(stdout, max_output_bytes);
    let err = bounded_utf8(stderr, max_output_bytes);
    let summary = summarize(success, out.as_str(), err.as_str());
    SandboxResult {
        run_id,
        success,
        exit_code,
        summary,
        stdout: out,
        stderr: err,
        duration_ms,
        output_ref: None,
    }
}

} // verus!
