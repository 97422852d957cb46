use std::io::Read;

use crankshaft_docker::container::Container;
use crankshaft_docker::run::{Action, ContainerState, Event, LogStream, Phase, Run, Violation};
use crankshaft_docker::status::{posix_exit_code, posix_status, windows_status};
use crankshaft_docker::upload::{upload_archive, UPLOAD_MODE, UPLOAD_ROOT};

fn log(stream: LogStream, bytes: &[u8]) -> Event {
    Event::Log { stream, message: bytes.to_vec() }
}

/// Drives a run through attach, start, the started hook and the given log
/// chunks, up to the point where it waits for the exit code.
fn collect(run: &mut Run, logs: Vec<Event>) {
    assert_eq!(run.step(Event::Begin), Action::Attach { stdout: true, stderr: true, stream: true });
    assert_eq!(run.step(Event::Attached), Action::Start);
    assert_eq!(run.step(Event::Started), Action::NotifyStarted);
    assert_eq!(run.step(Event::Notified), Action::ReadLog);
    for e in logs {
        assert_eq!(run.step(e), Action::ReadLog);
    }
    assert_eq!(run.step(Event::LogsEnded), Action::Wait);
}

fn read_back(archive: &[u8]) -> Vec<(String, u32, Vec<u8>)> {
    let mut entries = Vec::new();
    let mut ar = tar::Archive::new(archive);
    for entry in ar.entries().unwrap() {
        let mut entry = entry.unwrap();
        let path = entry.path().unwrap().to_string_lossy().into_owned();
        let mode = entry.header().mode().unwrap();
        let mut body = Vec::new();
        entry.read_to_end(&mut body).unwrap();
        entries.push((path, mode, body));
    }
    entries
}

#[test]
fn upload_round_trip_strips_leading_slashes() {
    let archive = upload_archive("//inputs/data.txt", b"hello, world").unwrap();
    let entries = read_back(&archive);
    assert_eq!(entries.len(), 1);
    assert_eq!(entries[0].0, "inputs/data.txt");
    assert_eq!(entries[0].1, 0o644);
    assert_eq!(entries[0].2, b"hello, world".to_vec());
    assert_eq!(UPLOAD_MODE, 0o644);
    assert_eq!(UPLOAD_ROOT, "/");
}

#[test]
fn upload_relative_path_kept() {
    let contents: Vec<u8> = (0..2000u32).map(|i| (i % 251) as u8).collect();
    let archive = upload_archive("a/b/c.bin", &contents).unwrap();
    let entries = read_back(&archive);
    assert_eq!(entries.len(), 1);
    assert_eq!(entries[0].0, "a/b/c.bin");
    assert_eq!(entries[0].2, contents);
}

#[test]
fn exit_zero_separates_output() {
    let mut run = Run::new(true, true);
    collect(
        &mut run,
        vec![
            log(LogStream::StdOut, b"out1 "),
            log(LogStream::StdErr, b"err1"),
            log(LogStream::Other, b"ignored"),
            log(LogStream::StdOut, b"out2"),
        ],
    );
    assert_eq!(run.step(Event::WaitExited(0)), Action::Finish(0));
    let out = run.into_output().unwrap();
    assert_eq!(out.exit_code, 0);
    assert_eq!(out.stdout, b"out1 out2".to_vec());
    assert_eq!(out.stderr, b"err1".to_vec());
    assert_eq!(posix_exit_code(posix_status(out.exit_code)), 0);
}

#[test]
fn exit_code_from_wait_event() {
    let mut run = Run::new(true, false);
    assert_eq!(run.step(Event::Begin), Action::Attach { stdout: true, stderr: false, stream: true });
    assert_eq!(run.step(Event::Attached), Action::Start);
    assert_eq!(run.step(Event::Started), Action::NotifyStarted);
    assert_eq!(run.step(Event::Notified), Action::ReadLog);
    assert_eq!(run.step(Event::LogsEnded), Action::Wait);
    assert_eq!(run.step(Event::WaitExited(42)), Action::Finish(42));
    assert_eq!(run.phase(), Phase::Exited(42));
    let out = run.into_output().unwrap();
    assert_eq!(out.exit_code, 42);
    assert_eq!(posix_exit_code(posix_status(out.exit_code)), 42);
}

#[test]
fn exit_code_from_wait_error() {
    let mut a = Run::new(true, true);
    let mut b = Run::new(true, true);
    collect(&mut a, vec![log(LogStream::StdOut, b"x")]);
    collect(&mut b, vec![log(LogStream::StdOut, b"x")]);
    assert_eq!(a.step(Event::WaitErrorCode(3)), Action::Finish(3));
    assert_eq!(b.step(Event::WaitExited(3)), Action::Finish(3));
    let a = a.into_output().unwrap();
    let b = b.into_output().unwrap();
    assert_eq!(a.exit_code, b.exit_code);
    assert_eq!(a.stdout, b.stdout);
    assert_eq!(a.stderr, b.stderr);
}

#[test]
fn exit_code_from_inspection() {
    let mut run = Run::new(true, true);
    collect(&mut run, vec![]);
    assert_eq!(run.step(Event::WaitEnded), Action::Inspect);
    let state = ContainerState { exit_code: Some(7) };
    assert_eq!(run.step(Event::Inspected(Some(state))), Action::Finish(7));
    assert_eq!(run.into_output().unwrap().exit_code, 7);
}

#[test]
fn inspection_without_state_is_fatal() {
    let mut run = Run::new(true, true);
    collect(&mut run, vec![]);
    assert_eq!(run.step(Event::WaitEnded), Action::Inspect);
    assert_eq!(run.step(Event::Inspected(None)), Action::Abort(Violation::NoState));
    assert_eq!(run.phase(), Phase::Broken(Violation::NoState));
    assert!(run.into_output().is_none());
}

#[test]
fn inspection_without_exit_code_is_fatal() {
    let mut run = Run::new(true, true);
    collect(&mut run, vec![]);
    assert_eq!(run.step(Event::WaitEnded), Action::Inspect);
    let state = ContainerState { exit_code: None };
    assert_eq!(run.step(Event::Inspected(Some(state))), Action::Abort(Violation::NoExitCode));
    assert!(run.into_output().is_none());
}

#[test]
fn started_hook_asked_once_after_start() {
    let mut run = Run::new(false, true);
    let events = vec![
        Event::Begin,
        Event::Attached,
        Event::Started,
        Event::Notified,
        log(LogStream::StdErr, b"e"),
        Event::LogsEnded,
        Event::WaitExited(1),
        Event::Started,
        Event::Notified,
    ];
    let actions: Vec<Action> = events.into_iter().map(|e| run.step(e)).collect();
    let notify: Vec<usize> = actions
        .iter()
        .enumerate()
        .filter(|(_, a)| **a == Action::NotifyStarted)
        .map(|(i, _)| i)
        .collect();
    assert_eq!(notify, vec![2]);
    assert_eq!(actions[1], Action::Start);
    assert_eq!(actions[6], Action::Finish(1));
    assert_eq!(actions[7], Action::Halt);
    assert_eq!(actions[8], Action::Halt);
}

#[test]
fn started_before_attach_is_out_of_order() {
    let mut run = Run::new(true, true);
    assert_eq!(run.step(Event::Started), Action::Abort(Violation::OutOfOrder));
    assert_eq!(run.step(Event::Begin), Action::Halt);
}

#[test]
fn engine_errors_end_the_run() {
    let mut run = Run::new(true, true);
    assert!(matches!(run.step(Event::Begin), Action::Attach { .. }));
    assert_eq!(run.step(Event::EngineFailed), Action::Fail);
    assert_eq!(run.phase(), Phase::Failed);
    assert!(run.into_output().is_none());

    let mut run = Run::new(true, true);
    collect(&mut run, vec![log(LogStream::StdOut, b"partial")]);
    assert_eq!(run.step(Event::EngineFailed), Action::Fail);
    assert!(run.into_output().is_none());
}

#[test]
fn posix_status_encoding() {
    assert_eq!(posix_status(0), 0);
    assert_eq!(posix_status(1), 256);
    assert_eq!(posix_status(42), 42 << 8);
    assert_eq!(posix_exit_code(posix_status(255)), 255);
    assert_eq!(posix_exit_code(posix_status(256)), 0);
    assert_eq!(posix_exit_code(posix_status(-1)), 255);
    assert_eq!(posix_exit_code(0x2a00), 42);
}

#[test]
fn windows_status_is_code() {
    assert_eq!(windows_status(0), 0);
    assert_eq!(windows_status(3), 3);
    assert_eq!(windows_status(-1), u32::MAX);
}

fn client() -> bollard::Docker {
    bollard::Docker::connect_with_http("http://127.0.0.1:2375", 4, bollard::API_DEFAULT_VERSION)
        .unwrap()
}

#[test]
fn container_handle_keeps_name_and_flags() {
    let c = Container::new(client(), String::from("job-1"), true, false);
    assert_eq!(c.name(), "job-1");
    assert!(c.attach_stdout());
    assert!(!c.attach_stderr());
    let mut run = c.begin_run();
    assert_eq!(run.step(Event::Begin), Action::Attach { stdout: true, stderr: false, stream: true });
}

#[test]
fn removal_force_flags() {
    let c = Container::new(client(), String::from("job-2"), true, true);
    assert!(!c.remove_request().force);
    assert!(c.force_remove_request().force);
}

#[test]
fn container_upload_archive() {
    let c = Container::new(client(), String::from("job-3"), true, true);
    let archive = c.upload_archive("/etc/conf", b"k=v\n").unwrap();
    let entries = read_back(&archive);
    assert_eq!(entries, vec![(String::from("etc/conf"), 0o644, b"k=v\n".to_vec())]);
}

#[test]
fn upload_well_formed_path_gives_archive() {
    let archive = upload_archive("///data/in.txt", b"hello").unwrap();
    let mut ar = tar::Archive::new(&archive[..]);
    let mut entries = ar.entries().unwrap();
    let entry = entries.next().unwrap().unwrap();
    assert_eq!(entry.header().size().unwrap(), 5);
    assert_eq!(entry.header().entry_type(), tar::EntryType::Regular);
    drop(entry);
    assert!(entries.next().is_none());
    assert_eq!(read_back(&archive), vec![(String::from("data/in.txt"), 0o644, b"hello".to_vec())]);
}

#[test]
fn upload_leading_slashes_give_same_archive() {
    let plain = upload_archive("data/in.txt", b"abc").unwrap();
    for prefix in ["/", "//", "/////"] {
        let path = format!("{prefix}data/in.txt");
        assert_eq!(upload_archive(&path, b"abc").unwrap(), plain);
    }
}

#[test]
fn upload_path_limits() {
    assert!(upload_archive("../escape", b"x").is_none());
    assert!(upload_archive("a/../b", b"x").is_none());
    assert!(upload_archive("///", b"x").is_none());
    let longest = "a".repeat(100);
    assert!(upload_archive(&longest, b"x").is_some());
    let too_long = "a".repeat(101);
    assert!(upload_archive(&too_long, b"x").is_none());
    assert!(upload_archive("a/...b", b"x").is_some());
}
