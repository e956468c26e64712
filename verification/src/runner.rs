//! The per-task state machine. The surrounding loop owns the child process
//! and the cancellation receiver; after every observation (a line read, the
//! stream ending, a read failure, a cancellation, an exit status) it hands
//! the observation to `TaskRunner::step`, forwards the returned output to
//! the caller's event channel, and obeys the returned command. The machine
//! guarantees that a task emits at most one terminal output, and nothing
//! after it.

use vstd::prelude::*;
use vstd::string::*;

use crate::progress::{ProgressParser, block_complete, block_signals_end, end_sentinel};
use crate::text::contains_seq;

verus! {

/// What a task reports to its caller's event channel.
pub enum TaskOutput {
    /// One complete progress block, verbatim.
    Progress(String),
    /// The task stopped because the caller asked for cancellation.
    Cancelled,
    /// The task failed; the payload describes why.
    Error(String),
}

/// What the surrounding loop observed since the last step.
pub enum TaskEvent {
    /// One line arrived on the process's progress stream.
    LineRead(String),
    /// The progress stream ended without a pending failure.
    StreamEnd,
    /// Reading or decoding the progress stream failed.
    ReadFailed(String),
    /// The caller asked for cancellation.
    CancelRequested,
    /// The awaited exit status arrived: whether it is success, and its
    /// rendered text for the failure report.
    ExitObserved(bool, String),
}

/// What the surrounding loop must do after a step.
pub enum TaskCommand {
    /// Race the next line against cancellation, then step again.
    ReadLine,
    /// Await the process's exit status (or cancellation), then step again.
    WaitExit,
    /// The task is over: reap the process and deregister the task.
    Finish,
}

/// The runner's phase. `Running` reads the stream; `AwaitingExit` holds a
/// finished end-sentinel block back until the exit status is known; `Done`
/// is terminal.
pub enum TaskPhase {
    Running,
    AwaitingExit,
    Done,
}

/// The mathematical state of a runner: its phase, the progress parser's
/// buffer, and the block held back while the exit status is awaited.
#[verifier::ext_equal]
pub struct RunnerModel {
    pub phase: TaskPhase,
    pub buffered: Seq<char>,
    pub line_count: int,
    pub pending: Option<Seq<char>>,
}

/// A `TaskEvent` with its text payloads abstracted to sequences.
pub enum EventModel {
    LineRead(Seq<char>),
    StreamEnd,
    ReadFailed(Seq<char>),
    CancelRequested,
    ExitObserved(bool, Seq<char>),
}

/// A `TaskOutput` with its text payloads abstracted to sequences.
pub enum OutputModel {
    Progress(Seq<char>),
    Cancelled,
    Error(Seq<char>),
}

/// The outputs that end a task's event sequence: cancellation and error.
pub open spec fn is_terminal_output(o: OutputModel) -> bool {
    o is Cancelled || o is Error
}

/// The error payload reported when the process signals progress completion
/// but exits with a failure status: it carries the status's own rendering.
pub open spec fn exit_failure_text(status: Seq<char>) -> Seq<char> {
    "Not ok: "@ + status
}

/// A well-formed runner state: while running, the current block is still
/// incomplete and nothing is held back; while awaiting the exit status, the
/// buffer has started over and exactly the finished block is held back.
pub open spec fn model_wf(m: RunnerModel) -> bool {
    &&& m.line_count >= 0
    &&& (m.phase is Running ==> !block_complete(m.buffered, m.line_count) && m.pending is None)
    &&& (m.phase is AwaitingExit ==> m.pending is Some && m.buffered.len() == 0 && m.line_count
        == 0)
    &&& (m.phase is Done ==> m.pending is None && m.buffered.len() == 0 && m.line_count == 0)
}

/// Which observations a phase can be handed: a running task is fed from the
/// read/cancel race, a task awaiting its exit status is fed the status or a
/// cancellation, and a finished task is fed nothing.
pub open spec fn event_allowed(m: RunnerModel, e: EventModel) -> bool {
    match m.phase {
        TaskPhase::Running => e is LineRead || e is StreamEnd || e is ReadFailed
            || e is CancelRequested,
        TaskPhase::AwaitingExit => e is ExitObserved || e is CancelRequested,
        TaskPhase::Done => false,
    }
}

/// The canonical finished state.
pub open spec fn done_model() -> RunnerModel {
    RunnerModel { phase: TaskPhase::Done, buffered: Seq::empty(), line_count: 0, pending: None }
}

/// A runner state paired with what the step emitted.
pub struct StepResult {
    pub next: RunnerModel,
    pub emit: Option<OutputModel>,
}

/// The transition relation, as one total function over models. A line grows
/// the current block; a completed block is forwarded at once, unless it
/// carries the end sentinel, in which case it is held back and the exit
/// status decides between forwarding it and failing the task. Stream end
/// finishes silently; a read failure or a failing exit status emits one
/// error; cancellation emits one cancelled output. Every emission of a
/// terminal output moves the machine to `Done`.
pub open spec fn step_model(m: RunnerModel, e: EventModel) -> StepResult {
    match e {
        EventModel::LineRead(line) => {
            let grown = m.buffered + line;
            let count = m.line_count + 1;
            if block_complete(grown, count) {
                if contains_seq(grown, end_sentinel()) {
                    StepResult {
                        next: RunnerModel {
                            phase: TaskPhase::AwaitingExit,
                            buffered: Seq::empty(),
                            line_count: 0,
                            pending: Some(grown),
                        },
                        emit: None,
                    }
                } else {
                    StepResult {
                        next: RunnerModel {
                            phase: TaskPhase::Running,
                            buffered: Seq::empty(),
                            line_count: 0,
                            pending: None,
                        },
                        emit: Some(OutputModel::Progress(grown)),
                    }
                }
            } else {
                StepResult {
                    next: RunnerModel {
                        phase: TaskPhase::Running,
                        buffered: grown,
                        line_count: count,
                        pending: None,
                    },
                    emit: None,
                }
            }
        },
        EventModel::StreamEnd => StepResult { next: done_model(), emit: None },
        EventModel::ReadFailed(msg) => StepResult {
            next: done_model(),
            emit: Some(OutputModel::Error(msg)),
        },
        EventModel::CancelRequested => StepResult {
            next: done_model(),
            emit: Some(OutputModel::Cancelled),
        },
        EventModel::ExitObserved(ok, status) => {
            if ok {
                StepResult {
                    next: RunnerModel {
                        phase: TaskPhase::Running,
                        buffered: Seq::empty(),
                        line_count: 0,
                        pending: None,
                    },
                    emit: Some(OutputModel::Progress(m.pending->0)),
                }
            } else {
                StepResult {
                    next: done_model(),
                    emit: Some(OutputModel::Error(exit_failure_text(status))),
                }
            }
        },
    }
}

/// The command a phase calls for.
pub open spec fn command_for(phase: TaskPhase) -> TaskCommand {
    match phase {
        TaskPhase::Running => TaskCommand::ReadLine,
        TaskPhase::AwaitingExit => TaskCommand::WaitExit,
        TaskPhase::Done => TaskCommand::Finish,
    }
}

/// The payloads of an event, abstracted.
pub open spec fn event_model(e: TaskEvent) -> EventModel {
    match e {
        TaskEvent::LineRead(line) => EventModel::LineRead(line@),
        TaskEvent::StreamEnd => EventModel::StreamEnd,
        TaskEvent::ReadFailed(msg) => EventModel::ReadFailed(msg@),
        TaskEvent::CancelRequested => EventModel::CancelRequested,
        TaskEvent::ExitObserved(ok, status) => EventModel::ExitObserved(ok, status@),
    }
}

/// The payloads of an output, abstracted.
pub open spec fn output_model(o: TaskOutput) -> OutputModel {
    match o {
        TaskOutput::Progress(block) => OutputModel::Progress(block@),
        TaskOutput::Cancelled => OutputModel::Cancelled,
        TaskOutput::Error(msg) => OutputModel::Error(msg@),
    }
}

/// An optional emission, abstracted.
pub open spec fn emit_model(o: Option<TaskOutput>) -> Option<OutputModel> {
    match o {
        Some(out) => Some(output_model(out)),
        None => None,
    }
}

/// The per-task state machine, in its executable form.
pub struct TaskRunner {
    phase: TaskPhase,
    parser: ProgressParser,
    pending: Option<String>,
}

impl TaskRunner {
    /// This runner's mathematical state.
    pub closed spec fn model(self) -> RunnerModel {
        RunnerModel {
            phase: self.phase,
            buffered: self.parser.buffered(),
            line_count: self.parser.line_count(),
            pending: match self.pending {
                Some(block) => Some(block@),
                None => None,
            },
        }
    }

    pub open spec fn wf(self) -> bool {
        model_wf(self.model())
    }

    /// A fresh runner for a task whose process has just been spawned.
    pub fn new() -> (r: TaskRunner)
        ensures
            r.wf(),
            r.model() == (RunnerModel {
                phase: TaskPhase::Running,
                buffered: Seq::<char>::empty(),
                line_count: 0,
                pending: None,
            }),
    {
        TaskRunner { phase: TaskPhase::Running, parser: ProgressParser::new(), pending: None }
    }

    fn finish_state(&mut self)
        ensures
            final(self).model() == done_model(),
    {
        self.phase = TaskPhase::Done;
        self.parser = ProgressParser::new();
        self.pending = None;
    }

    /// Advances the machine by one observation. Returns at most one output
    /// to forward to the caller, and the command for the loop's next move.
    pub fn step(&mut self, event: TaskEvent) -> (r: (Option<TaskOutput>, TaskCommand))
        requires
            old(self).wf(),
            event_allowed(old(self).model(), event_model(event)),
        ensures
            final(self).wf(),
            final(self).model() == step_model(old(self).model(), event_model(event)).next,
            emit_model(r.0) == step_model(old(self).model(), event_model(event)).emit,
            r.1 == command_for(final(self).model().phase),
    {
        match event {
            TaskEvent::LineRead(line) => {
                match self.parser.push_line(line.as_str()) {
                    Some(block) => {
                        if block_signals_end(block.as_str()) {
                            self.pending = Some(block);
                            self.phase = TaskPhase::AwaitingExit;
                            (None, TaskCommand::WaitExit)
                        } else {
                            (Some(TaskOutput::Progress(block)), TaskCommand::ReadLine)
                        }
                    },
                    None => (None, TaskCommand::ReadLine),
                }
            },
            TaskEvent::StreamEnd => {
                self.finish_state();
                (None, TaskCommand::Finish)
            },
            TaskEvent::ReadFailed(msg) => {
                self.finish_state();
                (Some(TaskOutput::Error(msg)), TaskCommand::Finish)
            },
            TaskEvent::CancelRequested => {
                self.finish_state();
                (Some(TaskOutput::Cancelled), TaskCommand::Finish)
            },
            TaskEvent::ExitObserved(ok, status) => {
                if ok {
                    let mut held: Option<String> = None;
                    core::mem::swap(&mut held, &mut self.pending);
                    match held {
                        Some(block) => {
                            self.phase = TaskPhase::Running;
                            proof {
                                reveal_strlit("progress=end");
                                assert(forall|i: int|
                                    !crate::text::occurs_at(
                                        self.parser.buffered(),
                                        end_sentinel(),
                                        i,
                                    ));
                            }
                            (Some(TaskOutput::Progress(block)), TaskCommand::ReadLine)
                        },
                        None => {
                            proof {
                                assert(false);
                            }
                            (None, TaskCommand::Finish)
                        },
                    }
                } else {
                    self.finish_state();
                    (
                        Some(TaskOutput::Error(exit_failure_message(status.as_str()))),
                        TaskCommand::Finish,
                    )
                }
            },
        }
    }
}

/// The sequence a single emission contributes to a trace.
pub open spec fn emit_seq(e: Option<OutputModel>) -> Seq<OutputModel> {
    match e {
        Some(o) => seq![o],
        None => Seq::empty(),
    }
}

/// All outputs a runner emits over a sequence of observations, in the
/// order the observations arrive — outputs are never reordered or dropped.
pub open spec fn run_model(m: RunnerModel, events: Seq<EventModel>) -> Seq<OutputModel>
    decreases events.len(),
{
    if events.len() == 0 {
        Seq::empty()
    } else {
        let sr = step_model(m, events[0]);
        emit_seq(sr.emit) + run_model(sr.next, events.drop_first())
    }
}

/// Whether each observation in `events` is allowed by the phase the runner
/// has reached when it arrives. In particular nothing is allowed after the
/// runner is done.
pub open spec fn trace_allowed(m: RunnerModel, events: Seq<EventModel>) -> bool
    decreases events.len(),
{
    events.len() == 0 || (event_allowed(m, events[0]) && trace_allowed(
        step_model(m, events[0]).next,
        events.drop_first(),
    ))
}

proof fn lemma_step_wf(m: RunnerModel, e: EventModel)
    requires
        model_wf(m),
        event_allowed(m, e),
    ensures
        model_wf(step_model(m, e).next),
        is_terminal_output(step_model(m, e).emit->0) && step_model(m, e).emit is Some
            ==> step_model(m, e).next.phase is Done,
{
    reveal_strlit("progress=end");
    assert(forall|i: int| !crate::text::occurs_at(Seq::<char>::empty(), end_sentinel(), i));
}

/// Over any allowed observation sequence, a task emits at most one
/// terminal output (`cancelled` or an error), and when one is emitted it
/// is the last output of the whole trace: after it the caller hears
/// nothing more.
pub proof fn lemma_single_terminal(m: RunnerModel, events: Seq<EventModel>)
    requires
        model_wf(m),
        trace_allowed(m, events),
    ensures
        ({
            let outs = run_model(m, events);
            forall|i: int|
                0 <= i < outs.len() && is_terminal_output(#[trigger] outs[i]) ==> i == outs.len()
                    - 1
        }),
    decreases events.len(),
{
    if events.len() > 0 {
        let sr = step_model(m, events[0]);
        let rest = events.drop_first();
        lemma_step_wf(m, events[0]);
        lemma_single_terminal(sr.next, rest);
        let outs = run_model(m, events);
        let head = emit_seq(sr.emit);
        let tail_outs = run_model(sr.next, rest);
        assert(outs == head + tail_outs);
        if sr.emit is Some && is_terminal_output(sr.emit->0) {
            assert(sr.next.phase is Done);
            if rest.len() > 0 {
                reveal_with_fuel(trace_allowed, 2);
                assert(!event_allowed(sr.next, rest[0]));
                assert(false);
            }
            assert(tail_outs =~= Seq::<OutputModel>::empty());
            assert(outs.len() == 1);
        } else {
            assert forall|i: int|
                0 <= i < outs.len() && is_terminal_output(#[trigger] outs[i]) implies i
                == outs.len() - 1 by {
                if i < head.len() {
                    assert(outs[i] == sr.emit->0);
                } else {
                    assert(outs[i] == tail_outs[i - head.len()]);
                }
            }
        }
    }
}

/// Cancellation observed by a live task is answered with exactly one
/// `cancelled` output and nothing after it, whatever else the stream had
/// been doing.
pub proof fn lemma_cancel_emits_once(m: RunnerModel, events: Seq<EventModel>)
    requires
        model_wf(m),
        trace_allowed(m, events),
        events.len() > 0,
        events[0] is CancelRequested,
    ensures
        run_model(m, events) =~= seq![OutputModel::Cancelled],
{
    let sr = step_model(m, events[0]);
    let rest = events.drop_first();
    if rest.len() > 0 {
        reveal_with_fuel(trace_allowed, 2);
        assert(!event_allowed(sr.next, rest[0]));
        assert(false);
    }
    assert(run_model(sr.next, rest) =~= Seq::<OutputModel>::empty());
    assert(run_model(m, events) =~= emit_seq(sr.emit) + run_model(sr.next, rest));
}

/// The error message for a failure exit status observed after the progress
/// stream signalled completion, per `exit_failure_text`.
pub fn exit_failure_message(status: &str) -> (s: String)
    ensures
        s@ == exit_failure_text(status@),
{
    let mut s = String::from_str("Not ok: ");
    s.append(status);
    s
}

/// The text actually written to the caller's event channel for one output:
/// a progress block verbatim, the literal `cancelled`, or `error:` followed
/// by the message.
pub open spec fn output_payload_text(o: OutputModel) -> Seq<char> {
    match o {
        OutputModel::Progress(block) => block,
        OutputModel::Cancelled => "cancelled"@,
        OutputModel::Error(msg) => "error:"@ + msg,
    }
}

/// Renders one output as the event-channel payload, per
/// `output_payload_text`.
pub fn output_text(o: &TaskOutput) -> (s: String)
    ensures
        s@ == output_payload_text(output_model(*o)),
{
    match o {
        TaskOutput::Progress(block) => block.clone(),
        TaskOutput::Cancelled => String::from_str("cancelled"),
        TaskOutput::Error(msg) => {
            let mut s = String::from_str("error:");
            s.append(msg.as_str());
            s
        },
    }
}

} // verus!
