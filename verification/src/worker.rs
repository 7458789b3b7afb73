//! The worker that drives one device's install, as a state machine.
//!
//! A worker never sleeps or runs a command itself. Each call of
//! [`Worker::step`] takes the event that just happened, writes the device's
//! record, and answers with the action to perform next; whoever runs the
//! worker performs the action and comes back with the next event.

use crate::error::{error_text, InstallError};
use crate::progress::{
    upserted, ProgressRecord, ProgressTable, RecordView, Status, StatusView,
};
use vstd::prelude::*;

verus! {

/// Number of pacing pauses before the install command is launched.
pub const PACING_TICKS: u8 = 3;

/// Length of one pacing pause, in seconds.
pub const PAUSE_SECONDS: u64 = 1;

/// How far a worker has come.
#[derive(Clone, Copy, Debug, PartialEq, Eq, Structural)]
pub enum Stage {
    /// Not started.
    Created,
    /// The record is created, with an empty indicator; the pacing has
    /// not begun.
    Recorded,
    /// Pausing, with this many indicator characters on show.
    Pacing(u8),
    /// Waiting for the install command to finish.
    Awaiting,
    /// The terminal status is written; nothing follows.
    Settled,
}

/// What happened since the worker's last action.
#[derive(Debug, PartialEq, Eq)]
pub enum WorkerEvent {
    /// The worker was started.
    Started,
    /// The worker was asked to continue, and nothing had to be waited for.
    Continued,
    /// A pacing pause is over.
    PauseElapsed,
    /// The install command finished, or could not be launched.
    InstallFinished(Result<(), InstallError>),
}

/// What the worker's runner has to do next.
#[derive(Clone, Copy, Debug, PartialEq, Eq, Structural)]
pub enum WorkerAction {
    /// Nothing to wait for: report `Continued` at once.
    Continue,
    /// Pause for one pacing interval, then report `PauseElapsed`.
    Pause,
    /// Run the install command for the worker's device and package, wait
    /// for it, then report `InstallFinished`.
    RunInstall,
    /// The worker has settled: stop.
    Finish,
    /// The event does not belong to the worker's stage: nothing changed.
    Ignore,
}

/// An indicator of `n` characters.
pub open spec fn dots(n: nat) -> Seq<char> {
    Seq::new(n, |i: int| '.')
}

/// The record of a device whose install is in flight.
pub open spec fn installing(device: Seq<char>, shown: nat) -> RecordView {
    RecordView { device_id: device, status: StatusView::Installing, phase_indicator: dots(shown) }
}

/// The terminal status that the end of the install command gives.
pub open spec fn terminal_status(result: Result<(), InstallError>) -> StatusView {
    match result {
        Ok(()) => StatusView::Succeeded,
        Err(e) => StatusView::Failed(error_text(e)),
    }
}

/// A stage is valid when a pacing worker shows between one and
/// `PACING_TICKS` indicator characters.
pub open spec fn stage_wf(stage: Stage) -> bool {
    stage matches Stage::Pacing(shown) ==> 1 <= shown <= PACING_TICKS
}

/// The stage that follows `stage` on `event`.
pub open spec fn next_stage(stage: Stage, event: WorkerEvent) -> Stage {
    match (stage, event) {
        (Stage::Created, WorkerEvent::Started) => Stage::Recorded,
        (Stage::Recorded, WorkerEvent::Continued) => Stage::Pacing(1),
        (Stage::Pacing(shown), WorkerEvent::PauseElapsed) => if shown < PACING_TICKS {
            Stage::Pacing((shown + 1) as u8)
        } else {
            Stage::Awaiting
        },
        (Stage::Awaiting, WorkerEvent::InstallFinished(_)) => Stage::Settled,
        _ => stage,
    }
}

/// The action that a worker in `stage` answers `event` with.
pub open spec fn action_for(stage: Stage, event: WorkerEvent) -> WorkerAction {
    match (stage, event) {
        (Stage::Created, WorkerEvent::Started) => WorkerAction::Continue,
        (Stage::Recorded, WorkerEvent::Continued) => WorkerAction::Pause,
        (Stage::Pacing(shown), WorkerEvent::PauseElapsed) => if shown < PACING_TICKS {
            WorkerAction::Pause
        } else {
            WorkerAction::RunInstall
        },
        (Stage::Awaiting, WorkerEvent::InstallFinished(_)) => WorkerAction::Finish,
        _ => WorkerAction::Ignore,
    }
}

/// The record that a worker for `device` in `stage` leaves in the table on
/// `event`, if the step writes at all.
pub open spec fn written(stage: Stage, event: WorkerEvent, device: Seq<char>) -> Option<
    RecordView,
> {
    match (stage, event) {
        (Stage::Created, WorkerEvent::Started) => Some(installing(device, 0)),
        (Stage::Recorded, WorkerEvent::Continued) => Some(installing(device, 1)),
        (Stage::Pacing(shown), WorkerEvent::PauseElapsed) => if shown < PACING_TICKS {
            Some(installing(device, (shown + 1) as nat))
        } else {
            None
        },
        (Stage::Awaiting, WorkerEvent::InstallFinished(result)) => Some(
            RecordView {
                device_id: device,
                status: terminal_status(result),
                phase_indicator: Seq::<char>::empty(),
            },
        ),
        _ => None,
    }
}

/// The table's records after the step of a worker for `device`: the
/// written record takes its place if the worker belongs to the table's
/// current run (`current`), and nothing changes otherwise.
pub open spec fn records_after(
    records: Seq<RecordView>,
    current: bool,
    stage: Stage,
    event: WorkerEvent,
    device: Seq<char>,
) -> Seq<RecordView> {
    match written(stage, event, device) {
        Some(record) => if current {
            upserted(records, record)
        } else {
            records
        },
        None => records,
    }
}

/// What a worker writes is a record of its own device, with an indicator
/// only while the install is in flight: at most `PACING_TICKS` characters
/// with the status `Installing`, none with a terminal status; it never
/// writes `Pending`. The first record it writes has an empty indicator.
pub proof fn lemma_written_record(stage: Stage, event: WorkerEvent, device: Seq<char>)
    requires
        stage_wf(stage),
    ensures
        match written(stage, event, device) {
            Some(record) => {
                &&& record.device_id == device
                &&& record.status is Installing ==> record.phase_indicator.len() <= PACING_TICKS
                &&& stage == Stage::Created ==> record == installing(device, 0)
                &&& !(record.status is Installing) ==> record.status.is_terminal()
                    && record.phase_indicator.len() == 0
            },
            None => next_stage(stage, event) == stage || next_stage(stage, event)
                == Stage::Awaiting,
        },
{
}

/// An indicator of `n` characters.
pub fn indicator(n: u8) -> (text: String)
    ensures
        text@ == dots(n as nat),
{
    let mut text = String::new();
    let mut shown: u8 = 0;
    while shown < n
        invariant
            shown <= n,
            text@ == dots(shown as nat),
        decreases n - shown,
    {
        proof {
            reveal_strlit(".");
        }
        text.append(".");
        shown += 1;
        assert(text@ =~= dots(shown as nat));
    }
    text
}

/// The worker of one device in one install run. A pacing worker always
/// shows between one and `PACING_TICKS` indicator characters.
#[derive(Debug)]
pub struct Worker {
    device_id: String,
    package_path: String,
    generation: u64,
    stage: Stage,
}

impl Worker {
    /// The device that this worker installs onto.
    pub closed spec fn device(&self) -> Seq<char> {
        self.device_id@
    }

    /// The package file that this worker installs.
    pub closed spec fn package(&self) -> Seq<char> {
        self.package_path@
    }

    /// Generation of the run that this worker belongs to.
    pub closed spec fn run(&self) -> u64 {
        self.generation
    }

    /// How far the worker has come.
    pub closed spec fn at_stage(&self) -> Stage {
        self.stage
    }

    /// The worker's invariant: its stage is valid.
    #[verifier::type_invariant]
    pub open spec fn wf(&self) -> bool {
        stage_wf(self.at_stage())
    }

    /// A worker that has not started, for `device_id` and `package_path`
    /// in the run with generation `run`.
    pub fn new(device_id: String, package_path: String, run: u64) -> (worker: Self)
        ensures
            worker.device() == device_id@,
            worker.package() == package_path@,
            worker.run() == run,
            worker.at_stage() == Stage::Created,
            worker.wf(),
    {
        Worker { device_id, package_path, generation: run, stage: Stage::Created }
    }

    /// The device that this worker installs onto.
    pub fn device_id(&self) -> (id: &String)
        ensures
            id@ == self.device(),
    {
        &self.device_id
    }

    /// The package file that this worker installs.
    pub fn package_path(&self) -> (path: &String)
        ensures
            path@ == self.package(),
    {
        &self.package_path
    }

    /// Generation of the run that this worker belongs to.
    pub fn generation(&self) -> (g: u64)
        ensures
            g == self.run(),
    {
        self.generation
    }

    /// How far the worker has come.
    pub fn stage(&self) -> (stage: Stage)
        ensures
            stage == self.at_stage(),
    {
        self.stage
    }

    /// Whether the worker has settled.
    pub fn is_settled(&self) -> (settled: bool)
        ensures
            settled == (self.at_stage() == Stage::Settled),
    {
        match self.stage {
            Stage::Settled => true,
            _ => false,
        }
    }

    /// Takes `event`, writes the device's record into `table`, moves to
    /// the next stage and answers with the action to perform.
    ///
    /// On `Started` the record is created as `Installing` with an empty
    /// indicator, and the worker asks to continue. On `Continued` the
    /// first pacing round shows one character. Each elapsed pause shows
    /// one character more, until `PACING_TICKS` are on show; the pause
    /// after that launches the install command.
    /// Its end writes the terminal status with an empty indicator. An
    /// event that does not belong to the stage changes nothing, and a
    /// worker of another run than the table's never writes.
    pub fn step(&mut self, table: &mut ProgressTable, event: WorkerEvent) -> (action: WorkerAction)
        ensures
            action == action_for(old(self).at_stage(), event),
            final(self).at_stage() == next_stage(old(self).at_stage(), event),
            final(self).device() == old(self).device(),
            final(self).package() == old(self).package(),
            final(self).run() == old(self).run(),
            final(self).wf(),
            final(table)@ == records_after(
                old(table)@,
                old(self).run() == old(table).run(),
                old(self).at_stage(),
                event,
                old(self).device(),
            ),
            final(table).run() == old(table).run(),
            final(table).wf(),
    {
        proof {
            use_type_invariant(&*self);
            use_type_invariant(&*table);
        }
        match (self.stage, event) {
            (Stage::Created, WorkerEvent::Started) => {
                let created = ProgressRecord {
                    device_id: self.device_id.clone(),
                    status: Status::Installing,
                    phase_indicator: indicator(0),
                };
                table.write(self.generation, created);
                self.stage = Stage::Recorded;
                WorkerAction::Continue
            },
            (Stage::Recorded, WorkerEvent::Continued) => {
                let first = ProgressRecord {
                    device_id: self.device_id.clone(),
                    status: Status::Installing,
                    phase_indicator: indicator(1),
                };
                table.write(self.generation, first);
                self.stage = Stage::Pacing(1);
                WorkerAction::Pause
            },
            (Stage::Pacing(shown), WorkerEvent::PauseElapsed) => {
                if shown < PACING_TICKS {
                    let next = ProgressRecord {
                        device_id: self.device_id.clone(),
                        status: Status::Installing,
                        phase_indicator: indicator(shown + 1),
                    };
                    table.write(self.generation, next);
                    self.stage = Stage::Pacing(shown + 1);
                    WorkerAction::Pause
                } else {
                    self.stage = Stage::Awaiting;
                    WorkerAction::RunInstall
                }
            },
            (Stage::Awaiting, WorkerEvent::InstallFinished(result)) => {
                let status = match result {
                    Ok(()) => Status::Succeeded,
                    Err(e) => Status::Failed(e.message()),
                };
                let settled = ProgressRecord {
                    device_id: self.device_id.clone(),
                    status,
                    phase_indicator: String::new(),
                };
                table.write(self.generation, settled);
                self.stage = Stage::Settled;
                WorkerAction::Finish
            },
            _ => WorkerAction::Ignore,
        }
    }
}

} // verus!
