//! The sampling loop as a state machine: what to do next, and where each
//! outcome leads. The caller performs the actions.

use vstd::prelude::*;
use vstd::string::*;
use crate::text::{decimal, decimal_of};

verus! {

/// Where the sampling loop stands.
#[derive(Debug, Clone, Copy, PartialEq, Eq, Structural)]
pub enum Stage {
    /// Nothing was started.
    Idle,
    /// The sampler runs; its output is not yet open.
    ProcessSpawned,
    /// Lines are read and stored.
    Streaming,
    /// The end marker was stored; the document waits to be handed over.
    DocumentComplete,
    /// A document waits to be decoded.
    Decoding,
    /// A decoded document waits to be merged with a fresh snapshot.
    Reconciling,
    /// A sample waits to be sent to the consumer.
    Published,
    /// The loop is over.
    Terminated,
}

/// What the caller does in a stage.
#[derive(Debug, Clone, Copy, PartialEq, Eq, Structural)]
pub enum Action {
    /// Start the sampler.
    Spawn,
    /// Open the output of the sampler.
    OpenOutput,
    /// Read the next line and feed it to the assembler.
    ReadLine,
    /// Take the document from the assembler.
    Finalize,
    /// Decode the document.
    Decode,
    /// Take a snapshot of the second source and merge it into the sample.
    Reconcile,
    /// Send the sample to the consumer.
    Publish,
    /// Leave the loop.
    Exit,
}

/// What came of an action.
#[derive(Debug, Clone, Copy, PartialEq, Eq, Structural)]
pub enum Event {
    /// The action succeeded; for a line read, the line is not the end marker.
    Done,
    /// The line read is the end marker.
    EndMarker,
    /// The output of the sampler has ended.
    EndOfStream,
    /// The action failed.
    Failed,
}

/// A stage, and whether the sampler is to be stopped on the way to it.
#[derive(Debug, Clone, Copy, PartialEq, Eq, Structural)]
pub struct Transition {
    pub stage: Stage,
    pub kill: bool,
}

impl Stage {
    /// What the caller does in this stage.
    pub open spec fn spec_action(self) -> Action {
        match self {
            Stage::Idle => Action::Spawn,
            Stage::ProcessSpawned => Action::OpenOutput,
            Stage::Streaming => Action::ReadLine,
            Stage::DocumentComplete => Action::Finalize,
            Stage::Decoding => Action::Decode,
            Stage::Reconciling => Action::Reconcile,
            Stage::Published => Action::Publish,
            Stage::Terminated => Action::Exit,
        }
    }

    /// Where an outcome leads. A started sampler is stopped whenever the
    /// loop ends: at the end of its output and after any failure. A failure
    /// to start it ends the loop with nothing to stop. After a sample was
    /// sent, reading goes on.
    pub open spec fn spec_next(self, event: Event) -> Transition {
        match (self, event) {
            (Stage::Idle, Event::Done) => Transition { stage: Stage::ProcessSpawned, kill: false },
            (Stage::Idle, _) => Transition { stage: Stage::Terminated, kill: false },
            (Stage::ProcessSpawned, Event::Done) => Transition {
                stage: Stage::Streaming,
                kill: false,
            },
            (Stage::Streaming, Event::Done) => Transition { stage: Stage::Streaming, kill: false },
            (Stage::Streaming, Event::EndMarker) => Transition {
                stage: Stage::DocumentComplete,
                kill: false,
            },
            (Stage::DocumentComplete, Event::Done) => Transition {
                stage: Stage::Decoding,
                kill: false,
            },
            (Stage::Decoding, Event::Done) => Transition { stage: Stage::Reconciling, kill: false },
            (Stage::Reconciling, Event::Done) => Transition {
                stage: Stage::Published,
                kill: false,
            },
            (Stage::Published, Event::Done) => Transition { stage: Stage::Streaming, kill: false },
            (Stage::Terminated, _) => Transition { stage: Stage::Terminated, kill: false },
            _ => Transition { stage: Stage::Terminated, kill: true },
        }
    }

    /// What the caller does in this stage.
    pub fn action(&self) -> (r: Action)
        ensures
            r == self.spec_action(),
    {
        match self {
            Stage::Idle => Action::Spawn,
            Stage::ProcessSpawned => Action::OpenOutput,
            Stage::Streaming => Action::ReadLine,
            Stage::DocumentComplete => Action::Finalize,
            Stage::Decoding => Action::Decode,
            Stage::Reconciling => Action::Reconcile,
            Stage::Published => Action::Publish,
            Stage::Terminated => Action::Exit,
        }
    }

    /// Where an outcome leads.
    pub fn next(&self, event: Event) -> (r: Transition)
        ensures
            r == self.spec_next(event),
    {
        match (self, event) {
            (Stage::Idle, Event::Done) => Transition { stage: Stage::ProcessSpawned, kill: false },
            (Stage::Idle, _) => Transition { stage: Stage::Terminated, kill: false },
            (Stage::ProcessSpawned, Event::Done) => Transition {
                stage: Stage::Streaming,
                kill: false,
            },
            (Stage::Streaming, Event::Done) => Transition { stage: Stage::Streaming, kill: false },
            (Stage::Streaming, Event::EndMarker) => Transition {
                stage: Stage::DocumentComplete,
                kill: false,
            },
            (Stage::DocumentComplete, Event::Done) => Transition {
                stage: Stage::Decoding,
                kill: false,
            },
            (Stage::Decoding, Event::Done) => Transition { stage: Stage::Reconciling, kill: false },
            (Stage::Reconciling, Event::Done) => Transition {
                stage: Stage::Published,
                kill: false,
            },
            (Stage::Published, Event::Done) => Transition { stage: Stage::Streaming, kill: false },
            (Stage::Terminated, _) => Transition { stage: Stage::Terminated, kill: false },
            _ => Transition { stage: Stage::Terminated, kill: true },
        }
    }

    /// Whether the sampler runs in this stage.
    pub open spec fn sampler_runs(self) -> bool {
        self != Stage::Idle && self != Stage::Terminated
    }
}

/// The stage after a run of outcomes.
pub open spec fn stage_after(start: Stage, events: Seq<Event>) -> Stage
    decreases events.len(),
{
    if events.len() == 0 {
        start
    } else {
        stage_after(start, events.drop_last()).spec_next(events.last()).stage
    }
}

/// The loop, once over, stays over, and stops nothing a second time.
pub proof fn lemma_terminated_is_final(events: Seq<Event>)
    ensures
        stage_after(Stage::Terminated, events) == Stage::Terminated,
        forall|e: Event| !(#[trigger] Stage::Terminated.spec_next(e)).kill,
    decreases events.len(),
{
    if events.len() > 0 {
        lemma_terminated_is_final(events.drop_last());
    }
}

/// The sampler is stopped exactly when the loop ends while it runs.
pub proof fn lemma_kill_on_every_end(stage: Stage, event: Event)
    ensures
        stage.spec_next(event).kill <==> (stage.sampler_runs() && stage.spec_next(event).stage
            == Stage::Terminated),
{
}

/// A sample is sent only after its document was completed, handed over,
/// decoded and merged, in this order and each with success: the stage of
/// sending is entered from the stage of merging alone, that one from
/// decoding alone, and so on back to the end marker.
pub proof fn lemma_publish_follows_pipeline(stage: Stage, event: Event)
    ensures
        stage.spec_next(event).stage == Stage::Published ==> stage == Stage::Reconciling && event
            == Event::Done,
        stage.spec_next(event).stage == Stage::Reconciling ==> stage == Stage::Decoding && event
            == Event::Done,
        stage.spec_next(event).stage == Stage::Decoding ==> stage == Stage::DocumentComplete
            && event == Event::Done,
        stage.spec_next(event).stage == Stage::DocumentComplete ==> stage == Stage::Streaming
            && event == Event::EndMarker,
{
}

/// Any failure ends the loop: there is no retry.
pub proof fn lemma_failure_is_fatal(stage: Stage)
    ensures
        stage.spec_next(Event::Failed).stage == Stage::Terminated,
        stage.spec_next(Event::EndOfStream).stage == Stage::Terminated,
{
}

/// The path of the sampler.
pub open spec fn spec_sampler_path() -> Seq<char> {
    "/usr/bin/powermetrics"@
}

/// The arguments with which the sampler is started: the sampling interval
/// in milliseconds, the three samplers for CPU power, GPU power and
/// thermals, and the property-list format.
pub open spec fn spec_sampler_arguments(sample_rate_ms: u64) -> Seq<Seq<char>> {
    seq![
        "--sample-rate"@,
        decimal(sample_rate_ms as nat),
        "--samplers"@,
        "cpu_power,gpu_power,thermal"@,
        "-f"@,
        "plist"@,
    ]
}

/// The path of the sampler.
pub fn sampler_path() -> (r: &'static str)
    ensures
        r@ == spec_sampler_path(),
{
    "/usr/bin/powermetrics"
}

/// The arguments with which the sampler is started.
pub fn sampler_arguments(sample_rate_ms: u64) -> (r: Vec<String>)
    ensures
        r@.len() == 6,
        forall|i: int| 0 <= i < 6 ==> (#[trigger] r@[i])@ == spec_sampler_arguments(sample_rate_ms)[i],
{
    let mut r: Vec<String> = Vec::new();
    r.push(String::from_str("--sample-rate"));
    r.push(decimal_of(sample_rate_ms));
    r.push(String::from_str("--samplers"));
    r.push(String::from_str("cpu_power,gpu_power,thermal"));
    r.push(String::from_str("-f"));
    r.push(String::from_str("plist"));
    r
}

} // verus!
