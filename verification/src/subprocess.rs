//! Bounded, argv-only execution of external tools.
//!
//! The runner's limits, the accounting of captured output, the permit pool
//! that caps concurrent children, and the decisions taken while a child runs
//! are all here; the caller performs the process and pipe work and hands the
//! observations back.

use vstd::prelude::*;
use crate::text::{chars_of, lossy_string, owned, string_of, trim, trim_chars, utf8_lossy};
use crate::json::{decimal_digits, push_decimal, push_str};
use crate::extensions::model::{push_signed, signed_decimal};

verus! {

pub const DEFAULT_TIMEOUT_MS: u64 = 15000;
pub const DEFAULT_POLL_INTERVAL_MS: u64 = 10;
pub const DEFAULT_MAX_STDOUT_BYTES: usize = 4194304;
pub const DEFAULT_MAX_STDERR_BYTES: usize = 262144;
pub const DEFAULT_MAX_CONCURRENT_CHILDREN: usize = 2;

/// Limits applied to every subprocess started by one runner; durations are
/// in milliseconds.
#[derive(Debug, Clone, Copy, PartialEq, Eq, Structural)]
pub struct SubprocessLimits {
    pub timeout_ms: u64,
    pub poll_interval_ms: u64,
    pub max_stdout_bytes: usize,
    pub max_stderr_bytes: usize,
    pub max_concurrent_children: usize,
}

impl Default for SubprocessLimits {
    fn default() -> (limits: Self)
        ensures
            limits == (SubprocessLimits {
                timeout_ms: DEFAULT_TIMEOUT_MS,
                poll_interval_ms: DEFAULT_POLL_INTERVAL_MS,
                max_stdout_bytes: DEFAULT_MAX_STDOUT_BYTES,
                max_stderr_bytes: DEFAULT_MAX_STDERR_BYTES,
                max_concurrent_children: DEFAULT_MAX_CONCURRENT_CHILDREN,
            }),
    {
        SubprocessLimits {
            timeout_ms: DEFAULT_TIMEOUT_MS,
            poll_interval_ms: DEFAULT_POLL_INTERVAL_MS,
            max_stdout_bytes: DEFAULT_MAX_STDOUT_BYTES,
            max_stderr_bytes: DEFAULT_MAX_STDERR_BYTES,
            max_concurrent_children: DEFAULT_MAX_CONCURRENT_CHILDREN,
        }
    }
}

/// An argv-only subprocess request: a program and its arguments, as the
/// bytes of platform strings.
#[derive(Debug, Clone, PartialEq, Eq)]
pub struct SubprocessCommand {
    pub program: Vec<u8>,
    pub arguments: Vec<Vec<u8>>,
}

impl SubprocessCommand {
    pub fn new(program: Vec<u8>) -> (command: Self)
        ensures
            command.program@ == program@,
            command.arguments@.len() == 0,
    {
        SubprocessCommand { program, arguments: Vec::new() }
    }

    pub fn arg(self, argument: Vec<u8>) -> (command: Self)
        ensures
            command.program@ == self.program@,
            command.arguments@ == self.arguments@.push(argument),
    {
        let mut command = self;
        command.arguments.push(argument);
        command
    }

    pub fn args(self, arguments: Vec<Vec<u8>>) -> (command: Self)
        ensures
            command.program@ == self.program@,
            command.arguments@ == self.arguments@ + arguments@,
    {
        let mut command = self;
        let mut rest = arguments;
        command.arguments.append(&mut rest);
        command
    }

    pub fn program(&self) -> (program: &[u8])
        ensures
            program@ == self.program@,
    {
        self.program.as_slice()
    }

    pub fn arguments(&self) -> (arguments: &[Vec<u8>])
        ensures
            arguments@ == self.arguments@,
    {
        self.arguments.as_slice()
    }

    /// The program as text, with invalid UTF-8 replaced.
    pub fn display_program(&self) -> (name: String)
        ensures
            name@ == utf8_lossy(self.program@),
    {
        lossy_string(self.program.as_slice())
    }
}

/// Successful bounded process output.
#[derive(Debug, Clone, PartialEq, Eq)]
pub struct SubprocessOutput {
    pub stdout: Vec<u8>,
    pub stderr: Vec<u8>,
    pub exit_code: Option<i32>,
    pub elapsed_ms: u64,
}

/// Which stream exceeded its configured in-memory capture limit.
#[derive(Debug, Clone, Copy, PartialEq, Eq, Structural)]
pub enum OutputStream {
    Stdout,
    Stderr,
}

impl OutputStream {
    /// The stream's name as it appears in messages.
    pub fn name(self) -> (name: &'static str)
        ensures
            self == OutputStream::Stdout ==> name@ == "stdout"@,
            self == OutputStream::Stderr ==> name@ == "stderr"@,
    {
        match self {
            OutputStream::Stdout => "stdout",
            OutputStream::Stderr => "stderr",
        }
    }
}

/// Typed failures exposed to adapters and tests; durations in milliseconds.
#[derive(Debug, Clone, PartialEq, Eq)]
pub enum SubprocessError {
    InvalidConfiguration { message: String },
    Spawn { program: String, message: String },
    Wait { program: String, message: String },
    Timeout { program: String, timeout_ms: u64 },
    Cancelled { program: String },
    Exit { program: String, code: Option<i32>, stderr: String },
    Truncated {
        program: String,
        stream: OutputStream,
        limit_bytes: usize,
        observed_bytes: usize,
    },
    Parse { program: String, message: String },
    OutputRead { program: String, stream: OutputStream, message: String },
    Internal { message: String },
}

pub open spec fn digit_char(d: nat) -> char {
    ((d + 48) as u8) as char
}

/// The fractional part of a number of seconds given in thousandths,
/// without trailing zeros.
pub open spec fn fraction_text(frac: nat) -> Seq<char> {
    if frac == 0 {
        seq![]
    } else if frac % 100 == 0 {
        seq!['.', digit_char(frac / 100)]
    } else if frac % 10 == 0 {
        seq!['.', digit_char(frac / 100), digit_char((frac / 10) % 10)]
    } else {
        seq!['.', digit_char(frac / 100), digit_char((frac / 10) % 10), digit_char(frac % 10)]
    }
}

/// How a duration of `ms` milliseconds is written for people: seconds with
/// their fraction from one second on, milliseconds below, `0ns` for none.
pub open spec fn duration_text(ms: nat) -> Seq<char> {
    if ms >= 1000 {
        decimal_digits(ms / 1000) + fraction_text(ms % 1000) + "s"@
    } else if ms > 0 {
        decimal_digits(ms) + "ms"@
    } else {
        "0ns"@
    }
}

fn push_digit(out: &mut Vec<char>, d: u64)
    requires
        d < 10,
    ensures
        final(out)@ == old(out)@.push(digit_char(d as nat)),
{
    out.push(((d + 48) as u8) as char);
}

fn push_duration(out: &mut Vec<char>, ms: u64)
    ensures
        final(out)@ == old(out)@ + duration_text(ms as nat),
{
    let ghost start = out@;
    if ms >= 1000 {
        push_decimal(out, ms / 1000);
        let ghost head = out@;
        let frac = ms % 1000;
        if frac != 0 {
            out.push('.');
            push_digit(out, frac / 100);
            if frac % 100 != 0 {
                push_digit(out, (frac / 10) % 10);
                if frac % 10 != 0 {
                    push_digit(out, frac % 10);
                    assert(out@ =~= head + fraction_text(frac as nat));
                } else {
                    assert(out@ =~= head + fraction_text(frac as nat));
                }
            } else {
                assert(out@ =~= head + fraction_text(frac as nat));
            }
        } else {
            assert(out@ =~= head + fraction_text(frac as nat));
        }
        let ghost body = out@;
        out.push('s');
        proof { reveal_strlit("s"); }
        assert(out@ =~= body + "s"@);
        assert(duration_text(ms as nat) == decimal_digits((ms / 1000) as nat) + fraction_text(frac as nat) + "s"@);
        assert(out@ =~= start + duration_text(ms as nat));
    } else if ms > 0 {
        push_decimal(out, ms);
        push_str(out, "ms");
        assert(out@ =~= start + duration_text(ms as nat));
    } else {
        push_str(out, "0ns");
        assert(out@ =~= start + duration_text(ms as nat));
    }
}

pub open spec fn stream_name(s: OutputStream) -> Seq<char> {
    match s {
        OutputStream::Stdout => "stdout"@,
        OutputStream::Stderr => "stderr"@,
    }
}

pub open spec fn exit_code_text(code: Option<i32>) -> Seq<char> {
    match code {
        Some(c) => "Some("@ + signed_decimal(c as int) + ")"@,
        None => "None"@,
    }
}

/// The message of a subprocess failure.
pub open spec fn subprocess_error_text(e: SubprocessError) -> Seq<char> {
    match e {
        SubprocessError::InvalidConfiguration { message } => "invalid subprocess configuration: "@ + message@,
        SubprocessError::Spawn { program, message } => "failed to spawn "@ + program@ + ": "@ + message@,
        SubprocessError::Wait { program, message } => "failed while waiting for "@ + program@ + ": "@ + message@,
        SubprocessError::Timeout { program, timeout_ms } =>
            program@ + " exceeded timeout of "@ + duration_text(timeout_ms as nat),
        SubprocessError::Cancelled { program } => program@ + " was cancelled"@,
        SubprocessError::Exit { program, code, stderr } =>
            program@ + " exited unsuccessfully with code "@ + exit_code_text(code) + ": "@ + stderr@,
        SubprocessError::Truncated { program, stream, limit_bytes, observed_bytes } =>
            program@ + " "@ + stream_name(stream) + " exceeded "@ + decimal_digits(limit_bytes as nat)
                + " byte capture limit ("@ + decimal_digits(observed_bytes as nat) + " bytes observed)"@,
        SubprocessError::Parse { program, message } => "failed to parse "@ + program@ + " output: "@ + message@,
        SubprocessError::OutputRead { program, stream, message } =>
            "failed reading "@ + program@ + " "@ + stream_name(stream) + ": "@ + message@,
        SubprocessError::Internal { message } => "subprocess runner failure: "@ + message@,
    }
}

impl SubprocessError {
    /// The failure's message.
    pub fn describe(&self) -> (text: String)
        ensures
            text@ == subprocess_error_text(*self),
    {
        let mut t: Vec<char> = Vec::new();
        match self {
            SubprocessError::InvalidConfiguration { message } => {
                push_str(&mut t, "invalid subprocess configuration: ");
                push_str(&mut t, message.as_str());
            },
            SubprocessError::Spawn { program, message } => {
                push_str(&mut t, "failed to spawn ");
                push_str(&mut t, program.as_str());
                push_str(&mut t, ": ");
                push_str(&mut t, message.as_str());
            },
            SubprocessError::Wait { program, message } => {
                push_str(&mut t, "failed while waiting for ");
                push_str(&mut t, program.as_str());
                push_str(&mut t, ": ");
                push_str(&mut t, message.as_str());
            },
            SubprocessError::Timeout { program, timeout_ms } => {
                push_str(&mut t, program.as_str());
                push_str(&mut t, " exceeded timeout of ");
                push_duration(&mut t, *timeout_ms);
            },
            SubprocessError::Cancelled { program } => {
                push_str(&mut t, program.as_str());
                push_str(&mut t, " was cancelled");
            },
            SubprocessError::Exit { program, code, stderr } => {
                push_str(&mut t, program.as_str());
                push_str(&mut t, " exited unsuccessfully with code ");
                match code {
                    Some(c) => {
                        push_str(&mut t, "Some(");
                        push_signed(&mut t, *c);
                        push_str(&mut t, ")");
                    },
                    None => push_str(&mut t, "None"),
                }
                push_str(&mut t, ": ");
                push_str(&mut t, stderr.as_str());
            },
            SubprocessError::Truncated { program, stream, limit_bytes, observed_bytes } => {
                push_str(&mut t, program.as_str());
                push_str(&mut t, " ");
                push_str(&mut t, stream.name());
                push_str(&mut t, " exceeded ");
                push_decimal(&mut t, *limit_bytes as u64);
                push_str(&mut t, " byte capture limit (");
                push_decimal(&mut t, *observed_bytes as u64);
                push_str(&mut t, " bytes observed)");
            },
            SubprocessError::Parse { program, message } => {
                push_str(&mut t, "failed to parse ");
                push_str(&mut t, program.as_str());
                push_str(&mut t, " output: ");
                push_str(&mut t, message.as_str());
            },
            SubprocessError::OutputRead { program, stream, message } => {
                push_str(&mut t, "failed reading ");
                push_str(&mut t, program.as_str());
                push_str(&mut t, " ");
                push_str(&mut t, stream.name());
                push_str(&mut t, ": ");
                push_str(&mut t, message.as_str());
            },
            SubprocessError::Internal { message } => {
                push_str(&mut t, "subprocess runner failure: ");
                push_str(&mut t, message.as_str());
            },
        }
        assert(t@ =~= subprocess_error_text(*self));
        string_of(&t)
    }
}

/// The reason a limit set is refused, or none when it is usable.
pub open spec fn limits_refusal(limits: SubprocessLimits) -> Option<Seq<char>> {
    if limits.timeout_ms == 0 {
        Some("timeout must be greater than zero"@)
    } else if limits.poll_interval_ms == 0 {
        Some("poll interval must be greater than zero"@)
    } else if limits.max_concurrent_children == 0 {
        Some("max_concurrent_children must be greater than zero"@)
    } else {
        None
    }
}

/// Output captured from one stream: the first `limit` bytes, and the count of
/// every byte read (saturating).
#[derive(Debug)]
pub struct BoundedRead {
    pub captured: Vec<u8>,
    pub observed_bytes: usize,
    pub limit: usize,
}

impl BoundedRead {
    /// A capture of nothing yet.
    pub fn new(limit: usize) -> (read: Self)
        ensures
            read.captured@.len() == 0,
            read.observed_bytes == 0,
            read.limit == limit,
    {
        BoundedRead { captured: Vec::new(), observed_bytes: 0, limit }
    }

    /// Accounts for one chunk read from the stream: keeps what still fits
    /// under the limit and counts every byte.
    pub fn absorb(&mut self, chunk: &[u8])
        requires
            old(self).captured@.len() <= old(self).limit,
        ensures
            final(self).limit == old(self).limit,
            final(self).captured@.len() <= final(self).limit,
            final(self).captured@ == (old(self).captured@ + chunk@).take(
                vstd::math::min((old(self).captured@.len() + chunk@.len()) as int, old(self).limit as int),
            ),
            final(self).observed_bytes == vstd::math::min(
                old(self).observed_bytes + chunk@.len(),
                usize::MAX as int,
            ),
    {
        let count = chunk.len();
        let held = self.captured.len();
        let remaining = self.limit - held;
        let keep = if count < remaining { count } else { remaining };
        let mut i: usize = 0;
        while i < keep
            invariant
                keep <= count == chunk@.len(),
                held + keep <= self.limit,
                i <= keep,
                self.captured@ == old(self).captured@ + chunk@.take(i as int),
                held == old(self).captured@.len(),
                self.limit == old(self).limit,
                self.observed_bytes == old(self).observed_bytes,
            decreases keep - i,
        {
            self.captured.push(chunk[i]);
            i = i + 1;
            assert(chunk@.take(i as int) =~= chunk@.take(i - 1).push(chunk@[i - 1]));
        }
        self.observed_bytes = self.observed_bytes.saturating_add(count);
        assert(self.captured@ =~= (old(self).captured@ + chunk@).take(
            vstd::math::min((held + count) as int, self.limit as int),
        ));
    }

    /// Whether more bytes arrived than the limit allows.
    pub fn truncated(&self) -> (r: bool)
        ensures
            r == (self.observed_bytes > self.limit),
    {
        self.observed_bytes > self.limit
    }
}

/// What the permit pool tells a caller that wants to start a child.
#[derive(Debug, Clone, Copy, PartialEq, Eq, Structural)]
pub enum PermitStep {
    /// The caller was cancelled before a permit was free.
    Cancelled,
    /// A permit was taken; release it when the child is done.
    Acquired,
    /// The deadline passed before a permit was free.
    TimedOut,
    /// Wait this many milliseconds for a permit, then ask again.
    Wait(u64),
}

/// The count of children running under one runner and its maximum.
#[derive(Debug)]
pub struct PermitPool {
    pub maximum: usize,
    pub active: usize,
}

impl PermitPool {
    pub open spec fn valid(&self) -> bool {
        self.active <= self.maximum
    }

    pub fn new(maximum: usize) -> (pool: Self)
        ensures
            pool.maximum == maximum,
            pool.active == 0,
            pool.valid(),
    {
        PermitPool { maximum, active: 0 }
    }

    /// One round of the acquisition loop: cancellation wins, then a free
    /// permit, then the deadline; otherwise wait the smaller of the poll
    /// interval and the time left.
    pub fn acquire_step(&mut self, cancelled: bool, now_ms: u64, deadline_ms: u64, poll_interval_ms: u64) -> (step: PermitStep)
        requires
            old(self).valid(),
        ensures
            final(self).valid(),
            final(self).maximum == old(self).maximum,
            step == (if cancelled {
                PermitStep::Cancelled
            } else if old(self).active < old(self).maximum {
                PermitStep::Acquired
            } else if now_ms >= deadline_ms {
                PermitStep::TimedOut
            } else {
                PermitStep::Wait(vstd::math::min(poll_interval_ms as int, deadline_ms - now_ms) as u64)
            }),
            step == PermitStep::Acquired ==> final(self).active == old(self).active + 1,
            step != PermitStep::Acquired ==> final(self).active == old(self).active,
    {
        if cancelled {
            return PermitStep::Cancelled;
        }
        if self.active < self.maximum {
            self.active = self.active + 1;
            return PermitStep::Acquired;
        }
        if now_ms >= deadline_ms {
            return PermitStep::TimedOut;
        }
        let remaining = deadline_ms - now_ms;
        PermitStep::Wait(if poll_interval_ms < remaining { poll_interval_ms } else { remaining })
    }

    /// Gives a permit back.
    pub fn release(&mut self)
        requires
            old(self).valid(),
        ensures
            final(self).valid(),
            final(self).maximum == old(self).maximum,
            final(self).active == (if old(self).active == 0 { 0 } else { old(self).active - 1 }),
    {
        self.active = self.active.saturating_sub(1);
    }
}

/// Taking a permit and giving it back leaves the pool as it was.
pub proof fn lemma_acquire_release(before: PermitPool, acquired: PermitPool, released: PermitPool)
    requires
        before.valid(),
        acquired.valid(),
        acquired.maximum == before.maximum,
        acquired.active == before.active + 1,
        released.maximum == acquired.maximum,
        released.active == (if acquired.active == 0 { 0 } else { acquired.active - 1 }),
    ensures
        released.maximum == before.maximum,
        released.active == before.active,
{
}

/// What the caller learned from polling the child once.
#[derive(Debug, Clone, PartialEq, Eq)]
pub enum ChildPoll {
    /// The child has exited.
    Exited,
    /// The child is still running.
    Running,
    /// Polling failed with this message.
    Failed(String),
}

/// What the caller does next while a child runs.
#[derive(Debug, Clone, PartialEq, Eq)]
pub enum WaitAction {
    /// Collect the child's output.
    Collect,
    /// Sleep this many milliseconds, then poll again.
    Sleep(u64),
    /// Kill the child, reap it and its readers, and fail with this error.
    Abandon(SubprocessError),
}

/// Bounded, reusable runner settings.
#[derive(Debug, Clone, Copy, PartialEq, Eq, Structural)]
pub struct SubprocessRunner {
    pub limits: SubprocessLimits,
}

impl SubprocessRunner {
    /// Accepts the limits unless a duration or the concurrency is zero.
    pub fn new(limits: SubprocessLimits) -> (runner: Result<Self, SubprocessError>)
        ensures
            match limits_refusal(limits) {
                Some(message) => runner matches Err(SubprocessError::InvalidConfiguration { message: m }) && m@ == message,
                None => runner == Ok::<Self, SubprocessError>(SubprocessRunner { limits }),
            },
    {
        if limits.timeout_ms == 0 {
            return Err(SubprocessError::InvalidConfiguration { message: owned("timeout must be greater than zero") });
        }
        if limits.poll_interval_ms == 0 {
            return Err(SubprocessError::InvalidConfiguration { message: owned("poll interval must be greater than zero") });
        }
        if limits.max_concurrent_children == 0 {
            return Err(SubprocessError::InvalidConfiguration {
                message: owned("max_concurrent_children must be greater than zero"),
            });
        }
        Ok(SubprocessRunner { limits })
    }

    pub fn limits(&self) -> (limits: SubprocessLimits)
        ensures
            limits == self.limits,
    {
        self.limits
    }

    /// One round of the wait loop: cancellation first, then the poll result,
    /// then the deadline; otherwise sleep the smaller of the poll interval
    /// and the time left.
    pub fn wait_step(&self, program: &str, cancelled: bool, poll: ChildPoll, now_ms: u64, deadline_ms: u64) -> (action: WaitAction)
        ensures
            cancelled ==> (action matches WaitAction::Abandon(SubprocessError::Cancelled { program: p }) && p@ == program@),
            !cancelled && poll == ChildPoll::Exited ==> action == WaitAction::Collect,
            !cancelled ==> (poll matches ChildPoll::Failed(message) ==> (action matches WaitAction::Abandon(SubprocessError::Wait { program: p, message: m })
                && p@ == program@ && m == message)),
            !cancelled && poll == ChildPoll::Running && now_ms >= deadline_ms ==> (action matches WaitAction::Abandon(SubprocessError::Timeout { program: p, timeout_ms: t })
                && p@ == program@ && t == self.limits.timeout_ms),
            !cancelled && poll == ChildPoll::Running && now_ms < deadline_ms ==> action == WaitAction::Sleep(
                vstd::math::min(self.limits.poll_interval_ms as int, deadline_ms - now_ms) as u64,
            ),
    {
        if cancelled {
            return WaitAction::Abandon(SubprocessError::Cancelled { program: owned(program) });
        }
        match poll {
            ChildPoll::Exited => WaitAction::Collect,
            ChildPoll::Failed(message) => WaitAction::Abandon(SubprocessError::Wait { program: owned(program), message }),
            ChildPoll::Running => {
                if now_ms >= deadline_ms {
                    WaitAction::Abandon(SubprocessError::Timeout { program: owned(program), timeout_ms: self.limits.timeout_ms })
                } else {
                    let remaining = deadline_ms - now_ms;
                    let poll_ms = self.limits.poll_interval_ms;
                    WaitAction::Sleep(if poll_ms < remaining { poll_ms } else { remaining })
                }
            },
        }
    }

    /// The result of a child that exited: a truncated stream fails first
    /// (stdout before stderr), then an unsuccessful exit with its trimmed
    /// standard error; otherwise the captured output.
    pub fn finish(
        &self,
        program: &str,
        stdout: BoundedRead,
        stderr: BoundedRead,
        success: bool,
        exit_code: Option<i32>,
        elapsed_ms: u64,
    ) -> (result: Result<SubprocessOutput, SubprocessError>)
        requires
            stdout.limit == self.limits.max_stdout_bytes,
            stderr.limit == self.limits.max_stderr_bytes,
        ensures
            stdout.observed_bytes > stdout.limit ==> (result matches Err(SubprocessError::Truncated { program: p, stream, limit_bytes, observed_bytes })
                && p@ == program@ && stream == OutputStream::Stdout && limit_bytes == stdout.limit
                && observed_bytes == stdout.observed_bytes),
            stdout.observed_bytes <= stdout.limit && stderr.observed_bytes > stderr.limit ==> (result matches Err(SubprocessError::Truncated { program: p, stream, limit_bytes, observed_bytes })
                && p@ == program@ && stream == OutputStream::Stderr && limit_bytes == stderr.limit
                && observed_bytes == stderr.observed_bytes),
            stdout.observed_bytes <= stdout.limit && stderr.observed_bytes <= stderr.limit && !success ==> (result matches Err(SubprocessError::Exit { program: p, code, stderr: text })
                && p@ == program@ && code == exit_code && text@ == trim(utf8_lossy(stderr.captured@))
                && (vstd::utf8::valid_utf8(stderr.captured@) ==> text@ == trim(vstd::utf8::decode_utf8(stderr.captured@)))),
            stdout.observed_bytes <= stdout.limit && stderr.observed_bytes <= stderr.limit && success ==> (result matches Ok(output)
                && output.stdout@ == stdout.captured@ && output.stderr@ == stderr.captured@
                && output.exit_code == exit_code && output.elapsed_ms == elapsed_ms),
    {
        if stdout.truncated() {
            return Err(SubprocessError::Truncated {
                program: owned(program),
                stream: OutputStream::Stdout,
                limit_bytes: self.limits.max_stdout_bytes,
                observed_bytes: stdout.observed_bytes,
            });
        }
        if stderr.truncated() {
            return Err(SubprocessError::Truncated {
                program: owned(program),
                stream: OutputStream::Stderr,
                limit_bytes: self.limits.max_stderr_bytes,
                observed_bytes: stderr.observed_bytes,
            });
        }
        if !success {
            let text = lossy_string(stderr.captured.as_slice());
            let chars = chars_of(text.as_str());
            let trimmed = trim_chars(&chars);
            return Err(SubprocessError::Exit { program: owned(program), code: exit_code, stderr: string_of(&trimmed) });
        }
        Ok(SubprocessOutput {
            stdout: stdout.captured,
            stderr: stderr.captured,
            exit_code,
            elapsed_ms,
        })
    }
}

} // verus!
