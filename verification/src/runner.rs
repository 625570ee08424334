//! The decisions of the update runner: what it reports to the window at each step
//! of running the Omarchy update script.

use vstd::prelude::*;
use crate::text::{push_signed_decimal, signed_decimal_of};

verus! {

/// The shell script that runs the Omarchy updater unattended, asking for
/// privileges through `pkexec`.
pub const UPDATE_SCRIPT: &'static str = "\n            export OMARCHY_PATH=/usr/share/omarchy\n            export OMARCHY_UPDATE_UNATTENDED=1\n            pkexec env OMARCHY_PATH=/usr/share/omarchy /usr/share/omarchy/bin/omarchy-update -y\n        ";

/// What the runner tells the window: a piece of log text, or that the update is
/// over and whether it succeeded.
#[derive(Debug, Clone, PartialEq, Eq)]
pub enum UpdateEvent {
    Log(String),
    Finished(bool),
}

/// The characters of an `UpdateEvent`.
pub enum EventModel {
    Log(Seq<char>),
    Finished(bool),
}

impl View for UpdateEvent {
    type V = EventModel;

    open spec fn view(&self) -> EventModel {
        match self {
            UpdateEvent::Log(s) => EventModel::Log(s@),
            UpdateEvent::Finished(b) => EventModel::Finished(*b),
        }
    }
}

/// What happened while the update ran.
#[derive(Debug, Clone)]
pub enum RunStep {
    /// The runner is about to start the script.
    Starting,
    /// The script could not be started; the text of the error.
    SpawnFailed(String),
    /// The script wrote a line, without its line ending, on standard output or error.
    OutputLine(String),
    /// The script ended: whether it succeeded, and its exit code where it has one.
    Exited(bool, Option<i32>),
    /// Waiting for the script failed; the text of the error.
    WaitFailed(String),
}

/// Whether the update is over after `step`.
pub open spec fn is_terminal(step: RunStep) -> bool {
    match step {
        RunStep::Starting | RunStep::OutputLine(_) => false,
        _ => true,
    }
}

/// How `{:?}` prints an optional exit code.
pub open spec fn debug_code_of(code: Option<i32>) -> Seq<char> {
    match code {
        Some(n) => "Some("@ + signed_decimal_of(n as int) + ")"@,
        None => "None"@,
    }
}

/// What the runner reports for `step`.
pub open spec fn step_events(step: RunStep) -> Seq<EventModel> {
    match step {
        RunStep::Starting => seq![EventModel::Log("Starting Omarchy update...\n"@)],
        RunStep::SpawnFailed(e) => seq![
            EventModel::Log("Error initiating update: "@ + e@ + "\n"@),
            EventModel::Finished(false),
        ],
        RunStep::OutputLine(l) => seq![EventModel::Log(l@ + "\n"@)],
        RunStep::Exited(success, code) => if success {
            seq![
                EventModel::Log("\n\u{2713} System update completed successfully!\n"@),
                EventModel::Finished(true),
            ]
        } else {
            seq![
                EventModel::Log("\n\u{26a0} Update process finished (code: "@ + debug_code_of(code) + ")\n"@),
                EventModel::Finished(false),
            ]
        },
        RunStep::WaitFailed(e) => seq![
            EventModel::Log("\nFailed to wait on update process: "@ + e@ + "\n"@),
            EventModel::Finished(false),
        ],
    }
}

/// The views of a list of events.
pub open spec fn event_models(v: Seq<UpdateEvent>) -> Seq<EventModel> {
    v.map_values(|e: UpdateEvent| e@)
}

/// An optional exit code as `{:?}` prints it.
fn debug_code(code: &Option<i32>) -> (r: String)
    ensures
        r@ == debug_code_of(*code),
{
    match code {
        Some(n) => {
            let mut s = String::from_str("Some(");
            push_signed_decimal(&mut s, *n);
            s.append(")");
            s
        },
        None => String::from_str("None"),
    }
}

/// `a`, then `b`, then `c`.
fn joined(a: &str, b: &str, c: &str) -> (r: String)
    ensures
        r@ == a@ + b@ + c@,
{
    let mut s = String::from_str(a);
    s.append(b);
    s.append(c);
    s
}

/// The events that the runner sends for `step`, in order.
pub fn events_for(step: &RunStep) -> (r: Vec<UpdateEvent>)
    ensures
        event_models(r@) == step_events(*step),
{
    let mut out: Vec<UpdateEvent> = Vec::new();
    match step {
        RunStep::Starting => {
            out.push(UpdateEvent::Log(String::from_str("Starting Omarchy update...\n")));
        },
        RunStep::SpawnFailed(e) => {
            out.push(UpdateEvent::Log(joined("Error initiating update: ", e.as_str(), "\n")));
            out.push(UpdateEvent::Finished(false));
        },
        RunStep::OutputLine(l) => {
            out.push(UpdateEvent::Log(joined("", l.as_str(), "\n")));
            proof {
                reveal_strlit("");
            }
            assert(""@ + l@ + "\n"@ =~= l@ + "\n"@);
        },
        RunStep::Exited(success, code) => {
            if *success {
                out.push(
                    UpdateEvent::Log(
                        String::from_str("\n\u{2713} System update completed successfully!\n"),
                    ),
                );
                out.push(UpdateEvent::Finished(true));
            } else {
                let code_text = debug_code(code);
                let s = joined(
                    "\n\u{26a0} Update process finished (code: ",
                    code_text.as_str(),
                    ")\n",
                );
                out.push(UpdateEvent::Log(s));
                out.push(UpdateEvent::Finished(false));
            }
        },
        RunStep::WaitFailed(e) => {
            out.push(
                UpdateEvent::Log(joined("\nFailed to wait on update process: ", e.as_str(), "\n")),
            );
            out.push(UpdateEvent::Finished(false));
        },
    }
    assert(event_models(out@) =~= step_events(*step));
    out
}

/// The events of a whole run, step by step.
pub open spec fn run_events(steps: Seq<RunStep>) -> Seq<EventModel>
    decreases steps.len(),
{
    if steps.len() == 0 {
        seq![]
    } else {
        run_events(steps.drop_last()) + step_events(steps.last())
    }
}

proof fn lemma_ongoing_steps_only_log(steps: Seq<RunStep>)
    requires
        forall|i: int| 0 <= i < steps.len() ==> !is_terminal(#[trigger] steps[i]),
    ensures
        forall|i: int| 0 <= i < run_events(steps).len() ==> #[trigger] run_events(steps)[i] is Log,
    decreases steps.len(),
{
    if steps.len() > 0 {
        let init = steps.drop_last();
        assert forall|i: int| 0 <= i < init.len() implies !is_terminal(#[trigger] init[i]) by {
            assert(init[i] == steps[i]);
        }
        lemma_ongoing_steps_only_log(init);
        assert(!is_terminal(steps[steps.len() - 1]));
    }
}

/// A run that ends with the script started or not, finished or not, reports
/// log text until its last step and then exactly one `Finished`, as its last
/// event; that event says success exactly when the script exited successfully.
pub proof fn lemma_run_finishes_once(steps: Seq<RunStep>)
    requires
        steps.len() > 0,
        is_terminal(steps.last()),
        forall|i: int| 0 <= i < steps.len() - 1 ==> !is_terminal(#[trigger] steps[i]),
    ensures
        run_events(steps).len() > 0,
        run_events(steps).last() is Finished,
        forall|i: int|
            0 <= i < run_events(steps).len() - 1 ==> #[trigger] run_events(steps)[i] is Log,
        run_events(steps).last() == EventModel::Finished(true) <==> (steps.last() matches RunStep::Exited(
            s,
            _,
        ) && s),
{
    let init = steps.drop_last();
    assert forall|i: int| 0 <= i < init.len() implies !is_terminal(#[trigger] init[i]) by {
        assert(init[i] == steps[i]);
    }
    lemma_ongoing_steps_only_log(init);
    let ev = run_events(steps);
    let head = run_events(init);
    let tail = step_events(steps.last());
    assert(ev == head + tail);
    assert(tail.len() == 2 && tail[0] is Log && tail[1] is Finished);
    assert forall|i: int| 0 <= i < ev.len() - 1 implies #[trigger] ev[i] is Log by {
        if i < head.len() {
            assert(ev[i] == head[i]);
        } else {
            assert(ev[i] == tail[i - head.len()]);
        }
    }
}

/// Whether `events` is what a run has reported so far: it opened with the start
/// message, every event but the last is log text, and the last one is `Finished`
/// exactly when the run is over.
pub open spec fn well_formed_run(events: Seq<EventModel>, finished: bool) -> bool {
    &&& events.len() > 0
    &&& events[0] == EventModel::Log("Starting Omarchy update...\n"@)
    &&& forall|i: int| 0 <= i < events.len() - 1 ==> #[trigger] events[i] is Log
    &&& finished <==> events.last() is Finished
}

/// An update run in progress: it turns each step into the events to report, and
/// reports nothing once the run is over.
pub struct UpdateRun {
    finished: bool,
    reported: Ghost<Seq<EventModel>>,
}

impl UpdateRun {
    /// Everything reported so far, in order.
    pub closed spec fn reported(&self) -> Seq<EventModel> {
        self.reported@
    }

    /// Whether the run is over.
    pub closed spec fn is_over(&self) -> bool {
        self.finished
    }

    /// Whether the run's report so far is well formed.
    pub open spec fn wf(&self) -> bool {
        well_formed_run(self.reported(), self.is_over())
    }

    /// Starts a run, with the events to report for its start.
    pub fn start() -> (r: (UpdateRun, Vec<UpdateEvent>))
        ensures
            r.0.wf(),
            !r.0.is_over(),
            event_models(r.1@) == step_events(RunStep::Starting),
            r.0.reported() == step_events(RunStep::Starting),
    {
        let events = events_for(&RunStep::Starting);
        let run = UpdateRun { finished: false, reported: Ghost(step_events(RunStep::Starting)) };
        (run, events)
    }

    /// Whether the run is over.
    pub fn finished(&self) -> (r: bool)
        ensures
            r == self.is_over(),
    {
        self.finished
    }

    /// The events to report for `step`: those of `events_for` while the run goes
    /// on, and none once it is over. The run is over after a step that ends it.
    pub fn advance(&mut self, step: &RunStep) -> (r: Vec<UpdateEvent>)
        requires
            old(self).wf(),
        ensures
            final(self).wf(),
            old(self).is_over() ==> r@.len() == 0 && final(self).reported() == old(self).reported()
                && final(self).is_over(),
            !old(self).is_over() ==> event_models(r@) == step_events(*step)
                && final(self).reported() == old(self).reported() + step_events(*step)
                && final(self).is_over() == is_terminal(*step),
    {
        if self.finished {
            return Vec::new();
        }
        let events = events_for(step);
        let ghost before = self.reported@;
        let ghost after = before + step_events(*step);
        assert forall|i: int| 0 <= i < after.len() - 1 implies #[trigger] after[i] is Log by {
            if i < before.len() {
                assert(after[i] == before[i]);
                if i == before.len() - 1 {
                    assert(!(before.last() is Finished));
                }
            } else {
                assert(after[i] == step_events(*step)[i - before.len()]);
            }
        }
        assert(after[0] == before[0]);
        self.finished = match step {
            RunStep::Starting | RunStep::OutputLine(_) => false,
            _ => true,
        };
        self.reported = Ghost(after);
        events
    }
}

/// Whatever steps a run took, what it reported holds the start message first,
/// and at most one `Finished`, which is then the last event.
pub proof fn lemma_one_finish_per_run(run: UpdateRun)
    requires
        run.wf(),
    ensures
        run.reported()[0] == EventModel::Log("Starting Omarchy update...\n"@),
        forall|i: int, j: int|
            0 <= i < j < run.reported().len() ==> !(#[trigger] run.reported()[i] is Finished
                && #[trigger] run.reported()[j] is Finished),
        forall|i: int|
            0 <= i < run.reported().len() && (#[trigger] run.reported()[i] is Finished) ==> i
                == run.reported().len() - 1,
{
}

} // verus!
