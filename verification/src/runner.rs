use vstd::prelude::*;
use vstd::string::StringExecFns;
use crate::text::decimal;
use crate::text::push_decimal;
use crate::text::utf8_lossy;
use crate::text::decode_lossy;
use vstd::utf8::valid_utf8;
use vstd::utf8::decode_utf8;

verus! {

/// What a finished command printed and how it exited.
pub struct ExecutionResult {
    pub stdout: String,
    pub stderr: String,
    pub exit_code: Option<i32>,
}

/// The limits under which commands are run: a wall-clock timeout, an
/// optional cap on the address space of the child, and a cap on the bytes
/// kept of each output stream.
pub struct CommandRunner {
    timeout_secs: u64,
    max_memory_bytes: Option<u64>,
    max_output_bytes: u64,
}

/// Bytes in one mebibyte.
pub open spec fn mib() -> int {
    1024 * 1024int
}

impl CommandRunner {
    /// The timeout, in whole seconds.
    pub closed spec fn timeout(&self) -> u64 {
        self.timeout_secs
    }

    /// The cap on the child's address space, in bytes, if any.
    pub closed spec fn memory_cap(&self) -> Option<u64> {
        self.max_memory_bytes
    }

    /// The cap on the bytes kept of each output stream.
    pub closed spec fn output_cap(&self) -> u64 {
        self.max_output_bytes
    }

    /// Builds the limits; a memory cap given in mebibytes is kept in bytes.
    pub fn new(timeout_secs: u64, max_memory_mb: Option<u64>, max_output_bytes: u64) -> (r: Self)
        requires
            max_memory_mb matches Some(mb) ==> mb * mib() <= u64::MAX,
        ensures
            r.timeout() == timeout_secs,
            r.output_cap() == max_output_bytes,
            match max_memory_mb {
                Some(mb) => r.memory_cap() == Some((mb * mib()) as u64),
                None => r.memory_cap() is None,
            },
    {
        let max_memory_bytes = match max_memory_mb {
            Some(mb) => {
                assert(mb * 1024 <= u64::MAX && mb * 1024 * 1024 == mb * mib()) by (nonlinear_arith)
                    requires
                        mb * mib() <= u64::MAX,
                        mib() == 1048576,
                ;
                Some(mb * 1024 * 1024)
            },
            None => None,
        };
        CommandRunner { timeout_secs, max_memory_bytes, max_output_bytes }
    }

    /// The timeout, in whole seconds.
    pub fn timeout_secs(&self) -> (r: u64)
        ensures
            r == self.timeout(),
    {
        self.timeout_secs
    }

    /// The cap on the child's address space, in bytes, if any.
    pub fn max_memory_bytes(&self) -> (r: Option<u64>)
        ensures
            r == self.memory_cap(),
    {
        self.max_memory_bytes
    }

    /// The cap on the bytes kept of each output stream.
    pub fn max_output_bytes(&self) -> (r: u64)
        ensures
            r == self.output_cap(),
    {
        self.max_output_bytes
    }
}

/// How an attempt to run a command ended, as the process layer saw it.
/// Error texts are the `Display` texts of the underlying I/O errors.
pub enum RunOutcome {
    /// The child process could not be started.
    SpawnFailed(String),
    /// Reading the child's standard output failed.
    StdoutReadFailed(String),
    /// Reading the child's standard error failed (standard output was read).
    StderrReadFailed(String),
    /// Waiting for the child's exit failed.
    WaitFailed(String),
    /// The child exited; `stdout` and `stderr` are the bytes read from it.
    Exited { code: Option<i32>, stdout: Vec<u8>, stderr: Vec<u8> },
    /// The timeout elapsed before the child was done.
    TimedOut,
}

/// The bytes kept of an output stream under a cap: its first `cap` bytes.
pub open spec fn kept(bytes: Seq<u8>, cap: nat) -> Seq<u8> {
    if bytes.len() <= cap {
        bytes
    } else {
        bytes.take(cap as int)
    }
}

/// How a timeout of whole seconds is shown by the `Debug` form of a
/// `Duration`: "0ns" for zero, otherwise the seconds followed by "s".
pub open spec fn seconds_debug(secs: nat) -> Seq<char> {
    if secs == 0 {
        seq!['0', 'n', 's']
    } else {
        decimal(secs).push('s')
    }
}

/// Keeps the first `cap` bytes of `bytes`.
fn keep_prefix(bytes: Vec<u8>, cap: u64) -> (r: Vec<u8>)
    ensures
        r@ == kept(bytes@, cap as nat),
{
    let mut bytes = bytes;
    if (bytes.len() as u64) > cap {
        bytes.truncate(cap as usize);
    }
    bytes
}

fn append_seconds_debug(s: &mut String, secs: u64)
    ensures
        final(s)@ == old(s)@ + seconds_debug(secs as nat),
{
    if secs == 0 {
        proof {
            reveal_strlit("0ns");
        }
        s.append("0ns");
    } else {
        push_decimal(s, secs);
        proof {
            reveal_strlit("s");
        }
        s.append("s");
        assert(final(s)@ =~= old(s)@ + seconds_debug(secs as nat));
    }
}

impl RunOutcome {
    /// Which failure reading a child's output streams reports, given how
    /// reading each went: a failure on standard output comes first, then one
    /// on standard error; when both were read there is none, and the child
    /// is waited for.
    pub fn read_failure(stdout: Result<(), String>, stderr: Result<(), String>) -> (r: Option<RunOutcome>)
        ensures
            match (stdout, stderr) {
                (Err(e), _) => r matches Some(RunOutcome::StdoutReadFailed(m)) && m@ == e@,
                (Ok(_), Err(e)) => r matches Some(RunOutcome::StderrReadFailed(m)) && m@ == e@,
                (Ok(_), Ok(_)) => r is None,
            },
    {
        match (stdout, stderr) {
            (Err(e), _) => Some(RunOutcome::StdoutReadFailed(e)),
            (Ok(_), Err(e)) => Some(RunOutcome::StderrReadFailed(e)),
            (Ok(_), Ok(_)) => None,
        }
    }
}

impl CommandRunner {
    /// Turns the outcome of running `program` into what running a command
    /// reports: each failure becomes its message, a timeout names the
    /// program and the timeout, and an exit keeps at most the output cap of
    /// bytes of each stream, decoded lossily as UTF-8, with the exit code.
    pub fn finish_run(&self, program: &str, outcome: RunOutcome) -> (r: Result<ExecutionResult, String>)
        ensures
            match outcome {
                RunOutcome::SpawnFailed(e) => r matches Err(m)
                    && m@ == "Failed to spawn command '"@ + program@ + "': "@ + e@,
                RunOutcome::StdoutReadFailed(e) => r matches Err(m)
                    && m@ == "Failed to read stdout: "@ + e@,
                RunOutcome::StderrReadFailed(e) => r matches Err(m)
                    && m@ == "Failed to read stderr: "@ + e@,
                RunOutcome::WaitFailed(e) => r matches Err(m)
                    && m@ == "Failed to wait for child: "@ + e@,
                RunOutcome::TimedOut => r matches Err(m)
                    && m@ == "Command '"@ + program@ + "' timed out after "@ + seconds_debug(self.timeout() as nat),
                RunOutcome::Exited { code, stdout, stderr } => r matches Ok(x)
                    && x.stdout@ == utf8_lossy(kept(stdout@, self.output_cap() as nat))
                    && x.stderr@ == utf8_lossy(kept(stderr@, self.output_cap() as nat))
                    && (valid_utf8(kept(stdout@, self.output_cap() as nat)) ==> x.stdout@ == decode_utf8(
                    kept(stdout@, self.output_cap() as nat),
                ))
                    && (valid_utf8(kept(stderr@, self.output_cap() as nat)) ==> x.stderr@ == decode_utf8(
                    kept(stderr@, self.output_cap() as nat),
                ))
                    && x.exit_code == code,
            },
    {
        match outcome {
            RunOutcome::SpawnFailed(e) => {
                let mut m = String::from_str("Failed to spawn command '");
                m.append(program);
                m.append("': ");
                m.append(e.as_str());
                Err(m)
            },
            RunOutcome::StdoutReadFailed(e) => {
                let mut m = String::from_str("Failed to read stdout: ");
                m.append(e.as_str());
                Err(m)
            },
            RunOutcome::StderrReadFailed(e) => {
                let mut m = String::from_str("Failed to read stderr: ");
                m.append(e.as_str());
                Err(m)
            },
            RunOutcome::WaitFailed(e) => {
                let mut m = String::from_str("Failed to wait for child: ");
                m.append(e.as_str());
                Err(m)
            },
            RunOutcome::TimedOut => {
                let mut m = String::from_str("Command '");
                m.append(program);
                m.append("' timed out after ");
                append_seconds_debug(&mut m, self.timeout_secs);
                Err(m)
            },
            RunOutcome::Exited { code, stdout, stderr } => {
                let out = keep_prefix(stdout, self.max_output_bytes);
                let err = keep_prefix(stderr, self.max_output_bytes);
                Ok(
                    ExecutionResult {
                        stdout: decode_lossy(out.as_slice()),
                        stderr: decode_lossy(err.as_slice()),
                        exit_code: code,
                    },
                )
            },
        }
    }
}

} // verus!
