use sunderclip_core::progress::{ProgressParser, block_signals_end};
use sunderclip_core::registry::TaskRegistry;
use sunderclip_core::runner::{TaskCommand, TaskEvent, TaskOutput, TaskRunner, output_text};

#[test]
fn parser_emits_after_twelve_lines() {
    let mut p = ProgressParser::new();
    let mut emitted = None;
    for i in 0..12 {
        let line = format!("frame={}\n", i);
        match p.push_line(&line) {
            Some(block) => {
                assert_eq!(i, 11);
                emitted = Some(block);
            },
            None => assert!(i < 11),
        }
    }
    let block = emitted.unwrap();
    assert!(block.starts_with("frame=0\n"));
    assert!(block.ends_with("frame=11\n"));
    assert_eq!(block.lines().count(), 12);
}

#[test]
fn parser_emits_on_end_sentinel() {
    let mut p = ProgressParser::new();
    assert!(p.push_line("frame=10\n").is_none());
    let block = p.push_line("progress=end\n").unwrap();
    assert_eq!(block, "frame=10\nprogress=end\n");
    assert!(block_signals_end(&block));
}

#[test]
fn sentinel_detection() {
    assert!(block_signals_end("speed=1x\nprogress=end\n"));
    assert!(!block_signals_end("speed=1x\nprogress=continue\n"));
}

#[test]
fn runner_forwards_ordinary_block() {
    let mut r = TaskRunner::new();
    let mut outputs: Vec<TaskOutput> = Vec::new();
    for i in 0..12 {
        let (out, cmd) = r.step(TaskEvent::LineRead(format!("k{}=v\n", i)));
        if let Some(o) = out {
            outputs.push(o);
        }
        assert!(matches!(cmd, TaskCommand::ReadLine));
    }
    assert_eq!(outputs.len(), 1);
    match &outputs[0] {
        TaskOutput::Progress(block) => assert!(block.contains("k0=v")),
        _ => panic!("expected a progress output"),
    }
    let (out, cmd) = r.step(TaskEvent::StreamEnd);
    assert!(out.is_none());
    assert!(matches!(cmd, TaskCommand::Finish));
}

#[test]
fn runner_holds_end_block_until_exit_ok() {
    let mut r = TaskRunner::new();
    let (out, cmd) = r.step(TaskEvent::LineRead(String::from("progress=end\n")));
    assert!(out.is_none());
    assert!(matches!(cmd, TaskCommand::WaitExit));
    let (out, cmd) = r.step(TaskEvent::ExitObserved(true, String::from("exit status: 0")));
    match out {
        Some(TaskOutput::Progress(block)) => assert_eq!(block, "progress=end\n"),
        _ => panic!("expected the held block"),
    }
    assert!(matches!(cmd, TaskCommand::ReadLine));
}

#[test]
fn runner_reports_failing_exit_as_error() {
    let mut r = TaskRunner::new();
    let (_, cmd) = r.step(TaskEvent::LineRead(String::from("progress=end\n")));
    assert!(matches!(cmd, TaskCommand::WaitExit));
    let (out, cmd) = r.step(TaskEvent::ExitObserved(false, String::from("exit status: 1")));
    let o = out.unwrap();
    assert_eq!(output_text(&o), "error:Not ok: exit status: 1");
    assert!(matches!(cmd, TaskCommand::Finish));
}

#[test]
fn runner_cancel_emits_single_cancelled() {
    let mut r = TaskRunner::new();
    let (out, _) = r.step(TaskEvent::LineRead(String::from("frame=1\n")));
    assert!(out.is_none());
    let (out, cmd) = r.step(TaskEvent::CancelRequested);
    let o = out.unwrap();
    assert!(matches!(o, TaskOutput::Cancelled));
    assert_eq!(output_text(&o), "cancelled");
    assert!(matches!(cmd, TaskCommand::Finish));
}

#[test]
fn runner_read_failure_is_terminal_error() {
    let mut r = TaskRunner::new();
    let (out, cmd) = r.step(TaskEvent::ReadFailed(String::from("stream did not decode")));
    assert_eq!(output_text(&out.unwrap()), "error:stream did not decode");
    assert!(matches!(cmd, TaskCommand::Finish));
}

#[test]
fn registry_assigns_monotonic_ids() {
    let mut reg = TaskRegistry::new();
    assert_eq!(reg.live_count(), 0);
    let (id0, _rx0) = reg.open_task();
    let (id1, _rx1) = reg.open_task();
    assert_eq!(id0, 0);
    assert_eq!(id1, 1);
    assert_eq!(reg.live_count(), 2);
}

#[test]
fn cancel_registered_id_signals_and_removes() {
    let mut reg = TaskRegistry::new();
    let (id, mut rx) = reg.open_task();
    assert_eq!(reg.cancel_render(id), Ok(true));
    assert_eq!(reg.live_count(), 0);
    assert!(rx.try_recv().is_ok());
    assert_eq!(reg.cancel_render(id), Err(false));
}

#[test]
fn cancel_unknown_id_fails_and_changes_nothing() {
    let mut reg = TaskRegistry::new();
    let (_id, mut rx) = reg.open_task();
    assert_eq!(reg.cancel_render(999), Err(false));
    assert_eq!(reg.live_count(), 1);
    assert!(rx.try_recv().is_err());
}

#[test]
fn deregister_is_idempotent() {
    let mut reg = TaskRegistry::new();
    let (id, _rx) = reg.open_task();
    assert!(reg.deregister(id));
    assert!(!reg.deregister(id));
    assert_eq!(reg.live_count(), 0);
}
