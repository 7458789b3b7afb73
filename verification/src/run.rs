//! What holds of an install run while its workers advance in any order.
//!
//! A run is seen here as the table's records, the devices it was started
//! for, and the stage of each device's worker. Each law speaks of one
//! step of one worker; together they cover every interleaving.

use crate::orchestrator::next_run;
use crate::progress::{
    distinct_devices, lemma_position_of, lemma_upserted, position_of, record_of, RecordView,
};
use crate::worker::{
    installing, next_stage, records_after, stage_wf, written, Stage, WorkerEvent, PACING_TICKS,
};
use vstd::prelude::*;

verus! {

/// What the table shows of a device whose worker is in `stage`: nothing
/// before the start, an empty indicator once the record is created, the
/// indicator of the stage while the install is in flight, and a terminal
/// status with an empty indicator at the end.
pub open spec fn tracks(records: Seq<RecordView>, device: Seq<char>, stage: Stage) -> bool {
    match stage {
        Stage::Created => record_of(records, device) is None,
        Stage::Recorded => record_of(records, device) == Some(installing(device, 0)),
        Stage::Pacing(shown) => record_of(records, device) == Some(
            installing(device, shown as nat),
        ),
        Stage::Awaiting => record_of(records, device) == Some(
            installing(device, PACING_TICKS as nat),
        ),
        Stage::Settled => match record_of(records, device) {
            Some(record) => record.device_id == device && record.status.is_terminal()
                && record.phase_indicator.len() == 0,
            None => false,
        },
    }
}

/// A step keeps every record's device among the run's devices: a worker
/// writes for its own device only, and drops no record.
pub proof fn lemma_step_stays_in_run(
    records: Seq<RecordView>,
    devices: Seq<Seq<char>>,
    k: int,
    stage: Stage,
    event: WorkerEvent,
)
    requires
        0 <= k < devices.len(),
        forall|j: int| 0 <= j < records.len() ==> devices.contains(#[trigger] records[j].device_id),
    ensures
        forall|j: int|
            0 <= j < records_after(records, true, stage, event, devices[k]).len()
                ==> devices.contains(
                (#[trigger] records_after(records, true, stage, event, devices[k])[j]).device_id,
            ),
{
    let device = devices[k];
    let after = records_after(records, true, stage, event, device);
    match written(stage, event, device) {
        Some(record) => {
            lemma_position_of(records, device);
            assert forall|j: int| 0 <= j < after.len() implies devices.contains(
                (#[trigger] after[j]).device_id,
            ) by {
                if j == position_of(records, device) {
                    assert(after[j] == record);
                } else {
                    assert(after[j] == records[j]);
                }
            }
        },
        None => {},
    }
}

/// The invariant of a run for `devices`, whose workers are in `stages`:
/// the records are those of distinct devices, each worker's device shows
/// what its stage says, and no record belongs to a device outside the run.
pub open spec fn run_inv(records: Seq<RecordView>, devices: Seq<Seq<char>>, stages: Seq<Stage>) -> bool {
    &&& distinct_devices(records)
    &&& devices.no_duplicates()
    &&& devices.len() == stages.len()
    &&& forall|i: int|
        0 <= i < devices.len() ==> stage_wf(#[trigger] stages[i]) && tracks(
            records,
            devices[i],
            stages[i],
        )
    &&& forall|j: int| 0 <= j < records.len() ==> devices.contains(#[trigger] records[j].device_id)
}

/// A run starts in its invariant: the table that `start_install` leaves
/// and the workers it hands out satisfy `run_inv`, for devices without
/// duplicates.
pub proof fn lemma_run_starts(devices: Seq<Seq<char>>, stages: Seq<Stage>)
    requires
        devices.no_duplicates(),
        devices.len() == stages.len(),
        forall|i: int| 0 <= i < stages.len() ==> stages[i] == Stage::Created,
    ensures
        run_inv(Seq::<RecordView>::empty(), devices, stages),
{
}

/// A step of any worker of the current run keeps the run's invariant,
/// whatever the event and in whatever order the workers step.
pub proof fn lemma_step_keeps_run(
    records: Seq<RecordView>,
    devices: Seq<Seq<char>>,
    stages: Seq<Stage>,
    k: int,
    event: WorkerEvent,
)
    requires
        run_inv(records, devices, stages),
        0 <= k < devices.len(),
    ensures
        run_inv(
            records_after(records, true, stages[k], event, devices[k]),
            devices,
            stages.update(k, next_stage(stages[k], event)),
        ),
{
    let device = devices[k];
    let after = records_after(records, true, stages[k], event, device);
    let stages_after = stages.update(k, next_stage(stages[k], event));
    assert(stage_wf(stages[k]) && tracks(records, device, stages[k]));
    lemma_step_stays_in_run(records, devices, k, stages[k], event);
    match written(stages[k], event, device) {
        Some(record) => {
            lemma_upserted(records, record);
            assert forall|i: int| 0 <= i < devices.len() implies stage_wf(
                #[trigger] stages_after[i],
            ) && tracks(after, devices[i], stages_after[i]) by {
                if i != k {
                    assert(devices[i] != device);
                    assert(stages_after[i] == stages[i]);
                    assert(stage_wf(stages[i]) && tracks(records, devices[i], stages[i]));
                    assert(record_of(after, devices[i]) == record_of(records, devices[i]));
                }
            }
        },
        None => {
            assert forall|i: int| 0 <= i < devices.len() implies stage_wf(
                #[trigger] stages_after[i],
            ) && tracks(after, devices[i], stages_after[i]) by {
                if i != k {
                    assert(stages_after[i] == stages[i]);
                    assert(stage_wf(stages[i]) && tracks(records, devices[i], stages[i]));
                }
            }
        },
    }
}

/// The devices that `records` track, in table order.
pub open spec fn tracked_devices(records: Seq<RecordView>) -> Seq<Seq<char>> {
    records.map_values(|r: RecordView| r.device_id)
}

/// Whether every worker for `device` has settled.
pub open spec fn all_settled(devices: Seq<Seq<char>>, stages: Seq<Stage>, device: Seq<char>) -> bool {
    forall|k: int| 0 <= k < devices.len() && devices[k] == device ==> #[trigger] stages[k] == Stage::Settled
}

/// Whether the record of `device` is a terminal one with an empty
/// indicator.
pub open spec fn shows_terminal(records: Seq<RecordView>, device: Seq<char>) -> bool {
    match record_of(records, device) {
        Some(record) => record.status.is_terminal() && record.phase_indicator.len() == 0,
        None => false,
    }
}

/// What holds of every run, also of one that names a device twice: the
/// records are those of distinct devices of the run, and a device whose
/// workers have all settled shows a terminal record.
pub open spec fn run_bound(records: Seq<RecordView>, devices: Seq<Seq<char>>, stages: Seq<Stage>) -> bool {
    &&& distinct_devices(records)
    &&& devices.len() == stages.len()
    &&& forall|j: int| 0 <= j < records.len() ==> devices.contains(#[trigger] records[j].device_id)
    &&& forall|i: int|
        0 <= i < devices.len() && all_settled(devices, stages, #[trigger] devices[i])
            ==> shows_terminal(records, devices[i])
}

/// The table that `start_install` leaves and the workers it hands out
/// satisfy `run_bound`, whatever the devices.
pub proof fn lemma_run_bound_starts(devices: Seq<Seq<char>>, stages: Seq<Stage>)
    requires
        devices.len() == stages.len(),
        forall|i: int| 0 <= i < stages.len() ==> stages[i] == Stage::Created,
    ensures
        run_bound(Seq::<RecordView>::empty(), devices, stages),
{
    assert forall|i: int|
        0 <= i < devices.len() && all_settled(devices, stages, #[trigger] devices[i]) implies shows_terminal(
        Seq::<RecordView>::empty(),
        devices[i],
    ) by {
        assert(stages[i] == Stage::Created);
    }
}

/// A step of any worker of the current run keeps `run_bound`, whatever
/// the event and in whatever order the workers step.
pub proof fn lemma_step_keeps_run_bound(
    records: Seq<RecordView>,
    devices: Seq<Seq<char>>,
    stages: Seq<Stage>,
    k: int,
    event: WorkerEvent,
)
    requires
        run_bound(records, devices, stages),
        0 <= k < devices.len(),
    ensures
        run_bound(
            records_after(records, true, stages[k], event, devices[k]),
            devices,
            stages.update(k, next_stage(stages[k], event)),
        ),
{
    let device = devices[k];
    let after = records_after(records, true, stages[k], event, device);
    let stages_after = stages.update(k, next_stage(stages[k], event));
    lemma_step_stays_in_run(records, devices, k, stages[k], event);
    match written(stages[k], event, device) {
        Some(record) => {
            lemma_upserted(records, record);
        },
        None => {},
    }
    assert forall|i: int|
        0 <= i < devices.len() && all_settled(devices, stages_after, #[trigger] devices[i]) implies shows_terminal(
        after,
        devices[i],
    ) by {
        if devices[i] == device {
            assert(stages_after[k] == Stage::Settled);
            if stages[k] == Stage::Settled {
                assert forall|m: int| 0 <= m < devices.len() && devices[m] == device implies #[trigger] stages[m]
                    == Stage::Settled by {
                    assert(stages_after[m] == Stage::Settled);
                }
                assert(all_settled(devices, stages, devices[k]));
            }
        } else {
            assert forall|m: int| 0 <= m < devices.len() && devices[m] == devices[i] implies #[trigger] stages[m]
                == Stage::Settled by {
                assert(stages_after[m] == Stage::Settled);
            }
            assert(all_settled(devices, stages, devices[i]));
            assert(record_of(after, devices[i]) == record_of(records, devices[i]));
        }
    }
}

/// Once every worker of a run has settled, the table holds exactly one
/// record per device of the run, each with a terminal status and an
/// empty indicator, and no record of any other device.
pub proof fn lemma_settled_run(
    records: Seq<RecordView>,
    devices: Seq<Seq<char>>,
    stages: Seq<Stage>,
)
    requires
        run_bound(records, devices, stages),
        forall|i: int| 0 <= i < stages.len() ==> stages[i] == Stage::Settled,
    ensures
        distinct_devices(records),
        tracked_devices(records).no_duplicates(),
        tracked_devices(records).to_set() == devices.to_set(),
        records.len() == devices.to_set().len(),
        devices.no_duplicates() ==> records.len() == devices.len(),
        forall|i: int|
            0 <= i < devices.len() ==> shows_terminal(records, #[trigger] devices[i]),
        forall|j: int|
            0 <= j < records.len() ==> {
                &&& devices.contains(#[trigger] records[j].device_id)
                &&& records[j].status.is_terminal()
                &&& records[j].phase_indicator.len() == 0
            },
{
    assert forall|i: int| 0 <= i < devices.len() implies shows_terminal(
        records,
        #[trigger] devices[i],
    ) by {
        assert(all_settled(devices, stages, devices[i]));
    }
    assert forall|j: int| 0 <= j < records.len() implies {
        &&& devices.contains(#[trigger] records[j].device_id)
        &&& records[j].status.is_terminal()
        &&& records[j].phase_indicator.len() == 0
    } by {
        let id = records[j].device_id;
        assert(devices.contains(id));
        let i = choose|i: int| 0 <= i < devices.len() && devices[i] == id;
        assert(shows_terminal(records, devices[i]));
        lemma_position_of(records, id);
        let p = position_of(records, id);
        if p < j {
            assert(records[p].device_id != records[j].device_id);
        }
        assert(p == j);
    }
    let ids = tracked_devices(records);
    assert forall|id: Seq<char>| ids.to_set().contains(id) <==> devices.to_set().contains(id) by {
        if ids.to_set().contains(id) {
            let j = choose|j: int| 0 <= j < ids.len() && ids[j] == id;
            assert(devices.contains(records[j].device_id));
        }
        if devices.to_set().contains(id) {
            let i = choose|i: int| 0 <= i < devices.len() && devices[i] == id;
            assert(shows_terminal(records, devices[i]));
            lemma_position_of(records, id);
            assert(ids[position_of(records, id)] == id);
        }
    }
    assert(ids.to_set() =~= devices.to_set());
    assert(ids.no_duplicates());
    ids.unique_seq_to_set();
    if devices.no_duplicates() {
        devices.unique_seq_to_set();
    }
}

/// A step writes only the record of the worker's own device: the record
/// of every other device is what it was.
pub proof fn lemma_step_isolated(
    records: Seq<RecordView>,
    current: bool,
    stage: Stage,
    event: WorkerEvent,
    device: Seq<char>,
    other: Seq<char>,
)
    requires
        distinct_devices(records),
        other != device,
    ensures
        record_of(records_after(records, current, stage, event, device), other) == record_of(
            records,
            other,
        ),
{
    match written(stage, event, device) {
        Some(record) => {
            lemma_upserted(records, record);
        },
        None => {},
    }
}

/// Runs are kept apart: the generation of a new run is never that of the
/// run before it, and the step of a worker whose generation is not the
/// table's leaves every record as it is.
pub proof fn lemma_other_run_discarded(
    records: Seq<RecordView>,
    worker_run: u64,
    table_run: u64,
    stage: Stage,
    event: WorkerEvent,
    device: Seq<char>,
)
    requires
        worker_run != table_run,
    ensures
        next_run(worker_run) != worker_run,
        records_after(records, worker_run == table_run, stage, event, device) == records,
{
}

/// The record of a device only moves forward. The first record that a
/// worker writes has an empty indicator. A step that writes while the
/// install is in flight shows exactly one indicator character more than
/// before, or the terminal status; and once the worker has settled, no
/// event changes the table or the stage again.
pub proof fn lemma_progress_monotonic(
    records: Seq<RecordView>,
    stage: Stage,
    event: WorkerEvent,
    device: Seq<char>,
)
    requires
        distinct_devices(records),
        stage_wf(stage),
        tracks(records, device, stage),
    ensures
        stage == Stage::Settled ==> next_stage(stage, event) == Stage::Settled && records_after(
            records,
            true,
            stage,
            event,
            device,
        ) == records,
        match (
            record_of(records, device),
            record_of(records_after(records, true, stage, event, device), device),
        ) {
            (Some(before), Some(after)) => {
                &&& before.status.is_terminal() ==> after == before
                &&& before.status is Installing ==> {
                    ||| after == before
                    ||| after.status.is_terminal()
                    ||| after.status is Installing && after.phase_indicator.len()
                        == before.phase_indicator.len() + 1
                }
            },
            (Some(before), None) => false,
            (None, Some(after)) => after == installing(device, 0),
            (None, None) => true,
        },
{
    match written(stage, event, device) {
        Some(record) => {
            lemma_upserted(records, record);
        },
        None => {},
    }
}

} // verus!
