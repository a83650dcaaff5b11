use citadel::runner::CommandRunner;
use citadel::runner::RunOutcome;

#[test]
fn new_keeps_limits_and_converts_megabytes() {
    let r = CommandRunner::new(10, Some(512), 1024 * 1024);
    assert_eq!(r.timeout_secs(), 10);
    assert_eq!(r.max_memory_bytes(), Some(512 * 1024 * 1024));
    assert_eq!(r.max_output_bytes(), 1024 * 1024);
    let r = CommandRunner::new(3, None, 7);
    assert_eq!(r.max_memory_bytes(), None);
}

#[test]
fn spawn_failure_names_program() {
    let r = CommandRunner::new(10, None, 100);
    let out = r.finish_run("python3", RunOutcome::SpawnFailed("No such file or directory (os error 2)".to_string()));
    assert_eq!(
        out.err().unwrap(),
        "Failed to spawn command 'python3': No such file or directory (os error 2)"
    );
}

#[test]
fn read_and_wait_failures() {
    let r = CommandRunner::new(10, None, 100);
    assert_eq!(r.finish_run("ls", RunOutcome::StdoutReadFailed("boom".to_string())).err().unwrap(), "Failed to read stdout: boom");
    assert_eq!(r.finish_run("ls", RunOutcome::StderrReadFailed("bang".to_string())).err().unwrap(), "Failed to read stderr: bang");
    assert_eq!(r.finish_run("ls", RunOutcome::WaitFailed("gone".to_string())).err().unwrap(), "Failed to wait for child: gone");
}

#[test]
fn timeout_message_shows_duration() {
    let r = CommandRunner::new(10, Some(512), 100);
    assert_eq!(r.finish_run("sleep", RunOutcome::TimedOut).err().unwrap(), "Command 'sleep' timed out after 10s");
    let r = CommandRunner::new(0, None, 100);
    assert_eq!(r.finish_run("sleep", RunOutcome::TimedOut).err().unwrap(), "Command 'sleep' timed out after 0ns");
    let r = CommandRunner::new(12345, None, 100);
    assert_eq!(r.finish_run("x", RunOutcome::TimedOut).err().unwrap(), "Command 'x' timed out after 12345s");
}

#[test]
fn exit_keeps_output_and_code() {
    let r = CommandRunner::new(10, None, 100);
    let res = r
        .finish_run(
            "echo",
            RunOutcome::Exited { code: Some(0), stdout: b"hello\n".to_vec(), stderr: Vec::new() },
        )
        .ok()
        .unwrap();
    assert_eq!(res.stdout, "hello\n");
    assert_eq!(res.stderr, "");
    assert_eq!(res.exit_code, Some(0));
}

#[test]
fn output_is_capped_in_bytes() {
    let r = CommandRunner::new(10, None, 4);
    let res = r
        .finish_run(
            "cat",
            RunOutcome::Exited { code: None, stdout: b"abcdefgh".to_vec(), stderr: b"xyz".to_vec() },
        )
        .ok()
        .unwrap();
    assert_eq!(res.stdout, "abcd");
    assert_eq!(res.stderr, "xyz");
    assert_eq!(res.exit_code, None);
    let r = CommandRunner::new(10, None, 0);
    let res = r
        .finish_run("cat", RunOutcome::Exited { code: Some(1), stdout: b"abc".to_vec(), stderr: b"d".to_vec() })
        .ok()
        .unwrap();
    assert_eq!(res.stdout, "");
    assert_eq!(res.stderr, "");
}

#[test]
fn output_is_decoded_lossily() {
    let r = CommandRunner::new(10, None, 100);
    let res = r
        .finish_run(
            "x",
            RunOutcome::Exited { code: Some(2), stdout: vec![b'a', 0xff, b'b'], stderr: "héllo".as_bytes().to_vec() },
        )
        .ok()
        .unwrap();
    assert_eq!(res.stdout, "a\u{FFFD}b");
    assert_eq!(res.stderr, "héllo");
    // a cap inside a multi-byte character leaves a replacement character
    let r = CommandRunner::new(10, None, 2);
    let res = r
        .finish_run("x", RunOutcome::Exited { code: Some(0), stdout: "hé".as_bytes().to_vec(), stderr: Vec::new() })
        .ok()
        .unwrap();
    assert_eq!(res.stdout, "h\u{FFFD}");
}

#[test]
fn read_failures_are_ranked() {
    let r = RunOutcome::read_failure(Err("a".to_string()), Err("b".to_string()));
    assert!(matches!(r, Some(RunOutcome::StdoutReadFailed(ref e)) if e == "a"));
    let r = RunOutcome::read_failure(Ok(()), Err("b".to_string()));
    assert!(matches!(r, Some(RunOutcome::StderrReadFailed(ref e)) if e == "b"));
    assert!(RunOutcome::read_failure(Ok(()), Ok(())).is_none());
}
