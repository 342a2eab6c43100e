use optiflow::subprocess::{
    BoundedRead, ChildPoll, OutputStream, PermitPool, PermitStep, SubprocessError, SubprocessLimits,
    SubprocessRunner, WaitAction,
};

fn test_limits() -> SubprocessLimits {
    SubprocessLimits {
        timeout_ms: 2000,
        poll_interval_ms: 5,
        max_stdout_bytes: 1024,
        max_stderr_bytes: 1024,
        max_concurrent_children: 2,
    }
}

#[test]
fn rejects_invalid_limits() {
    let mut limits = test_limits();
    limits.max_concurrent_children = 0;
    let error = SubprocessRunner::new(limits).unwrap_err();
    assert!(matches!(error, SubprocessError::InvalidConfiguration { .. }));
}

#[test]
fn zero_durations_are_refused_with_their_reason() {
    let mut limits = test_limits();
    limits.timeout_ms = 0;
    assert_eq!(
        SubprocessRunner::new(limits).unwrap_err(),
        SubprocessError::InvalidConfiguration { message: "timeout must be greater than zero".to_owned() }
    );
    let mut limits = test_limits();
    limits.poll_interval_ms = 0;
    assert_eq!(
        SubprocessRunner::new(limits).unwrap_err(),
        SubprocessError::InvalidConfiguration { message: "poll interval must be greater than zero".to_owned() }
    );
    assert_eq!(SubprocessRunner::new(test_limits()).unwrap().limits(), test_limits());
}

#[test]
fn default_limits_are_the_documented_ones() {
    let limits = SubprocessLimits::default();
    assert_eq!(limits.timeout_ms, 15000);
    assert_eq!(limits.max_stdout_bytes, 4 * 1024 * 1024);
    assert_eq!(limits.max_stderr_bytes, 256 * 1024);
    assert_eq!(limits.max_concurrent_children, 2);
}

#[test]
fn bounded_read_keeps_the_prefix_and_counts_everything() {
    let mut read = BoundedRead::new(64);
    read.absorb(&[b'0'; 4000]);
    read.absorb(&[b'1'; 96]);
    assert_eq!(read.captured.len(), 64);
    assert_eq!(read.observed_bytes, 4096);
    assert!(read.truncated());
    let runner = SubprocessRunner::new(SubprocessLimits { max_stdout_bytes: 64, ..test_limits() }).unwrap();
    let error = runner.finish("sh", read, BoundedRead::new(1024), true, Some(0), 1).unwrap_err();
    assert!(matches!(
        error,
        SubprocessError::Truncated { stream: OutputStream::Stdout, limit_bytes: 64, observed_bytes: 4096, .. }
    ));
}

#[test]
fn unsuccessful_exit_reports_trimmed_standard_error() {
    let runner = SubprocessRunner::new(test_limits()).unwrap();
    let mut stderr = BoundedRead::new(1024);
    stderr.absorb(b"  denied\n");
    let error = runner.finish("sh", BoundedRead::new(1024), stderr, false, Some(7), 3).unwrap_err();
    assert_eq!(
        error,
        SubprocessError::Exit { program: "sh".to_owned(), code: Some(7), stderr: "denied".to_owned() }
    );
}

#[test]
fn successful_exit_returns_the_captured_output() {
    let runner = SubprocessRunner::new(test_limits()).unwrap();
    let mut stdout = BoundedRead::new(1024);
    stdout.absorb(b"hello");
    let output = runner.finish("sh", stdout, BoundedRead::new(1024), true, Some(0), 9).unwrap();
    assert_eq!(output.stdout, b"hello");
    assert_eq!(output.exit_code, Some(0));
    assert_eq!(output.elapsed_ms, 9);
}

#[test]
fn wait_loop_decisions_follow_cancellation_then_exit_then_deadline() {
    let runner = SubprocessRunner::new(test_limits()).unwrap();
    assert!(matches!(
        runner.wait_step("sh", true, ChildPoll::Exited, 0, 10),
        WaitAction::Abandon(SubprocessError::Cancelled { .. })
    ));
    assert_eq!(runner.wait_step("sh", false, ChildPoll::Exited, 50, 10), WaitAction::Collect);
    assert!(matches!(
        runner.wait_step("sh", false, ChildPoll::Running, 10, 10),
        WaitAction::Abandon(SubprocessError::Timeout { timeout_ms: 2000, .. })
    ));
    assert_eq!(runner.wait_step("sh", false, ChildPoll::Running, 8, 10), WaitAction::Sleep(2));
    assert_eq!(runner.wait_step("sh", false, ChildPoll::Running, 0, 100), WaitAction::Sleep(5));
}

#[test]
fn permits_are_bounded_and_released() {
    let mut pool = PermitPool::new(1);
    assert_eq!(pool.acquire_step(false, 0, 100, 10), PermitStep::Acquired);
    assert_eq!(pool.acquire_step(false, 0, 100, 10), PermitStep::Wait(10));
    assert_eq!(pool.acquire_step(false, 100, 100, 10), PermitStep::TimedOut);
    assert_eq!(pool.acquire_step(true, 0, 100, 10), PermitStep::Cancelled);
    pool.release();
    assert_eq!(pool.active, 0);
    assert_eq!(pool.acquire_step(false, 0, 100, 10), PermitStep::Acquired);
}

#[test]
fn subprocess_errors_describe_themselves() {
    for ms in [0u64, 1, 250, 999, 1000, 1005, 1050, 1500, 1234, 60000, 90061] {
        let error = SubprocessError::Timeout { program: "ffprobe".to_owned(), timeout_ms: ms };
        assert_eq!(
            error.describe(),
            format!("ffprobe exceeded timeout of {:?}", std::time::Duration::from_millis(ms)),
            "{ms}"
        );
    }
    let exit = SubprocessError::Exit { program: "ffprobe".to_owned(), code: Some(-2), stderr: "bad".to_owned() };
    assert_eq!(exit.describe(), "ffprobe exited unsuccessfully with code Some(-2): bad");
    let signalled = SubprocessError::Exit { program: "ffprobe".to_owned(), code: None, stderr: String::new() };
    assert_eq!(signalled.describe(), "ffprobe exited unsuccessfully with code None: ");
    let truncated = SubprocessError::Truncated {
        program: "ffprobe".to_owned(),
        stream: OutputStream::Stdout,
        limit_bytes: 16,
        observed_bytes: 40,
    };
    assert_eq!(truncated.describe(), "ffprobe stdout exceeded 16 byte capture limit (40 bytes observed)");
    assert_eq!(SubprocessError::Cancelled { program: "ffprobe".to_owned() }.describe(), "ffprobe was cancelled");
}
