//! Starting an install run.

use crate::error::InstallError;
use crate::progress::{ProgressTable, RecordView};
use crate::worker::{Stage, Worker};
use vstd::prelude::*;

verus! {

/// The generation that follows `run`; it counts modulo 2^64.
pub open spec fn next_run(run: u64) -> u64 {
    if run == u64::MAX {
        0
    } else {
        (run + 1) as u64
    }
}

/// Starts an install of the package at `package_path` onto `devices`.
///
/// With an empty path nothing happens: the error is `EmptyPackagePath`,
/// no worker is made and the table stays as it is. Otherwise the table is
/// cleared and moves to the next generation, and one worker per device is
/// handed out, in the order of `devices`, none of them started.
pub fn start_install(table: &mut ProgressTable, package_path: &str, devices: &Vec<String>) -> (result:
    Result<Vec<Worker>, InstallError>)
    ensures
        final(table).wf(),
        match result {
            Err(e) => {
                &&& package_path@.len() == 0
                &&& e == InstallError::EmptyPackagePath
                &&& final(table)@ == old(table)@
                &&& final(table).run() == old(table).run()
            },
            Ok(workers) => {
                &&& package_path@.len() > 0
                &&& final(table)@ == Seq::<RecordView>::empty()
                &&& final(table).run() == next_run(old(table).run())
                &&& final(table).run() != old(table).run()
                &&& workers@.len() == devices@.len()
                &&& forall|i: int|
                    0 <= i < workers@.len() ==> {
                        &&& (#[trigger] workers@[i]).device() == devices@[i]@
                        &&& workers@[i].package() == package_path@
                        &&& workers@[i].run() == final(table).run()
                        &&& workers@[i].at_stage() == Stage::Created
                        &&& workers@[i].wf()
                    }
            },
        },
{
    proof {
        use_type_invariant(&*table);
    }
    if package_path.is_empty() {
        return Err(InstallError::EmptyPackagePath);
    }
    let run: u64 = table.begin_run();
    let mut workers: Vec<Worker> = Vec::new();
    let mut at: usize = 0;
    while at < devices.len()
        invariant
            at <= devices@.len(),
            workers@.len() == at,
            forall|i: int|
                0 <= i < at ==> {
                    &&& (#[trigger] workers@[i]).device() == devices@[i]@
                    &&& workers@[i].package() == package_path@
                    &&& workers@[i].run() == run
                    &&& workers@[i].at_stage() == Stage::Created
                    &&& workers@[i].wf()
                },
        decreases devices@.len() - at,
    {
        workers.push(Worker::new(devices[at].clone(), package_path.to_owned(), run));
        at += 1;
    }
    Ok(workers)
}

} // verus!
