use ydpro::lines::LineReader;
use ydpro::registry::Registry;
use ydpro::supervisor::{classify_exit, exit_code_message, spawn_failed, stderr_event, stdout_event, Event, ExitOutcome, JobOutput, Supervisor};
use ydpro::window::ErrorWindow;

fn s(x: &str) -> String {
    x.to_string()
}

#[test]
fn registry_hands_out_a_handle_once() {
    let mut r: Registry<u32> = Registry::new();
    assert!(r.insert(s("a"), 7).is_ok());
    assert!(r.contains(&s("a")));
    assert_eq!(r.take_and_remove(&s("a")), Some(7));
    assert_eq!(r.take_and_remove(&s("a")), None);
    assert_eq!(r.len(), 0);
}

#[test]
fn registry_refuses_duplicate_job() {
    let mut r: Registry<u32> = Registry::new();
    assert!(r.insert(s("a"), 1).is_ok());
    match r.insert(s("a"), 2) {
        Err(d) => assert_eq!(d.handle, 2),
        Ok(()) => panic!("duplicate accepted"),
    }
    assert_eq!(r.take_and_remove(&s("a")), Some(1));
}

#[test]
fn exit_before_cancel_gives_one_terminal_event() {
    let mut sup: Supervisor<u32> = Supervisor::new();
    sup.started(s("j"), 5).ok().unwrap();
    let w = ErrorWindow::new();
    let first = sup.exited(&s("j"), ExitOutcome::Exited { code: Some(0) }, &w);
    assert_eq!(first, Some(Event::Finished { job: s("j"), code: Some(0) }));
    assert!(sup.cancel(&s("j")).is_none());
}

#[test]
fn cancel_before_exit_gives_one_terminal_event() {
    let mut sup: Supervisor<u32> = Supervisor::new();
    sup.started(s("j"), 5).ok().unwrap();
    let w = ErrorWindow::new();
    let (h, ev) = sup.cancel(&s("j")).unwrap();
    assert_eq!(h, 5);
    assert_eq!(ev, Event::Cancelled { job: s("j") });
    assert!(sup.cancel(&s("j")).is_none());
    assert!(sup.exited(&s("j"), ExitOutcome::Exited { code: None }, &w).is_none());
}

#[test]
fn window_keeps_last_ten_of_fifteen() {
    let mut w = ErrorWindow::new();
    for i in 1..=15 {
        w.push(format!("line {}", i));
        assert!(w.len() <= 10);
    }
    let expected: Vec<String> = (6..=15).map(|i| format!("line {}", i)).collect();
    assert_eq!(w.snapshot(), expected);
}

#[test]
fn window_ignores_blank_lines() {
    let mut w = ErrorWindow::new();
    w.push(s(""));
    w.push(s("  \t "));
    assert!(w.is_empty());
    w.push(s(" x \r"));
    assert_eq!(w.snapshot(), vec![s("x")]);
}

#[test]
fn framing_emits_unterminated_last_line() {
    let mut r = LineReader::new();
    let lines = r.feed(b"a\nb\r\nc");
    assert_eq!(lines, vec![s("a"), s("b")]);
    assert_eq!(r.finish(), Some(s("c")));
    assert_eq!(r.finish(), None);
}

#[test]
fn framing_across_chunks() {
    let mut r = LineReader::new();
    assert!(r.feed(b"ab").is_empty());
    assert_eq!(r.feed(b"c\r"), Vec::<String>::new());
    assert_eq!(r.feed(b"\nd\n"), vec![s("abc"), s("d")]);
    assert_eq!(r.finish(), None);
}

#[test]
fn framing_replaces_invalid_bytes() {
    let mut r = LineReader::new();
    let lines = r.feed(&[0x66, 0xff, 0x67, 0x0a, 0x68, 0x0a]);
    assert_eq!(lines, vec![s("f\u{FFFD}g"), s("h")]);
}

#[test]
fn cancel_of_unknown_job_is_silent() {
    let mut sup: Supervisor<u32> = Supervisor::new();
    assert!(sup.cancel(&s("nope")).is_none());
    assert_eq!(sup.running_count(), 0);
}

#[test]
fn scenario_progress_then_finished() {
    let mut sup: Supervisor<u32> = Supervisor::new();
    sup.started(s("j1"), 1).ok().unwrap();
    let mut out = LineReader::new();
    let w = ErrorWindow::new();
    let mut events = Vec::new();
    for line in out.feed(b"50%\n") {
        events.push(stdout_event(&s("j1"), line));
    }
    events.push(sup.exited(&s("j1"), ExitOutcome::Exited { code: Some(0) }, &w).unwrap());
    assert_eq!(
        events,
        vec![
            Event::Progress { job: s("j1"), line: s("50%") },
            Event::Finished { job: s("j1"), code: Some(0) },
        ]
    );
    assert!(!sup.is_running(&s("j1")));
}

#[test]
fn scenario_failure_reports_last_ten_stderr_lines() {
    let mut sup: Supervisor<u32> = Supervisor::new();
    sup.started(s("j2"), 2).ok().unwrap();
    let mut err = LineReader::new();
    let mut w = ErrorWindow::new();
    let text: String = (1..=12).map(|i| format!("err {}\n", i)).collect();
    let mut progress = Vec::new();
    for line in err.feed(text.as_bytes()) {
        progress.push(stderr_event(&s("j2"), line, &mut w));
    }
    assert_eq!(progress.len(), 12);
    assert_eq!(progress[0], Event::Progress { job: s("j2"), line: s("[STDERR] err 1") });
    let ev = sup.exited(&s("j2"), ExitOutcome::Exited { code: Some(1) }, &w).unwrap();
    let expected: Vec<String> = (3..=12).map(|i| format!("err {}", i)).collect();
    assert_eq!(ev, Event::Failed { job: s("j2"), message: expected.join("\n") });
}

#[test]
fn scenario_cancel_while_running() {
    let mut sup: Supervisor<u32> = Supervisor::new();
    sup.started(s("j3"), 33).ok().unwrap();
    let (handle, ev) = sup.cancel(&s("j3")).unwrap();
    assert_eq!(handle, 33);
    assert_eq!(ev, Event::Cancelled { job: s("j3") });
    let w = ErrorWindow::new();
    assert!(sup.exited(&s("j3"), ExitOutcome::Exited { code: None }, &w).is_none());
}

#[test]
fn failure_without_diagnostics_names_exit_code() {
    let w = ErrorWindow::new();
    let ev = classify_exit(&s("j"), ExitOutcome::Exited { code: Some(3) }, &w);
    assert_eq!(ev, Event::Failed { job: s("j"), message: s("Process exited with code 3") });
    assert_eq!(exit_code_message(Some(-2)), s("Process exited with code -2"));
    assert_eq!(exit_code_message(None), s("Process exited without an exit code"));
}

#[test]
fn wait_failure_reports_its_error() {
    let w = ErrorWindow::new();
    let ev = classify_exit(&s("j"), ExitOutcome::WaitFailed { error: s("no child") }, &w);
    assert_eq!(ev, Event::Failed { job: s("j"), message: s("no child") });
}

#[test]
fn spawn_failure_is_a_failed_event() {
    let ev = spawn_failed(s("j"), s("not found"));
    assert!(ev.is_terminal());
    assert_eq!(ev.job(), &s("j"));
    assert_eq!(ev, Event::Failed { job: s("j"), message: s("not found") });
}

#[test]
fn job_output_frames_both_pipes() {
    let mut o = JobOutput::new(s("k"));
    assert_eq!(o.on_stdout(b"10%\n20"), vec![Event::Progress { job: s("k"), line: s("10%") }]);
    assert_eq!(
        o.on_stderr(b"warn\n\nbad"),
        vec![
            Event::Progress { job: s("k"), line: s("[STDERR] warn") },
            Event::Progress { job: s("k"), line: s("[STDERR] ") },
        ]
    );
    assert_eq!(
        o.on_closed(),
        vec![
            Event::Progress { job: s("k"), line: s("20") },
            Event::Progress { job: s("k"), line: s("[STDERR] bad") },
        ]
    );
    assert_eq!(o.window().snapshot(), vec![s("warn"), s("bad")]);
    assert!(o.on_closed().is_empty());
}

#[test]
fn failure_message_holds_trimmed_lines() {
    let mut sup: Supervisor<u32> = Supervisor::new();
    sup.started(s("t"), 1).ok().unwrap();
    let mut w = ErrorWindow::new();
    let ev = stderr_event(&s("t"), s(" x"), &mut w);
    assert_eq!(ev, Event::Progress { job: s("t"), line: s("[STDERR]  x") });
    stderr_event(&s("t"), s("  "), &mut w);
    stderr_event(&s("t"), s("\ty \t"), &mut w);
    let ev = sup.exited(&s("t"), ExitOutcome::Exited { code: Some(1) }, &w).unwrap();
    assert_eq!(ev, Event::Failed { job: s("t"), message: s("x\ny") });
}

#[test]
fn progress_is_relayed_only_while_registered() {
    let mut sup: Supervisor<u32> = Supervisor::new();
    sup.started(s("r"), 1).ok().unwrap();
    let mut o = JobOutput::new(s("r"));
    let evs = sup.relay(&s("r"), o.on_stdout(b"1\n"));
    assert_eq!(evs, vec![Event::Progress { job: s("r"), line: s("1") }]);
    assert!(sup.cancel(&s("r")).is_some());
    assert!(sup.relay(&s("r"), o.on_stdout(b"2\n")).is_empty());
    assert!(sup.relay(&s("r"), o.on_closed()).is_empty());
}
