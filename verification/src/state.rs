//! The application state behind the three triggers of the presentation
//! layer: refresh the devices, pick a package, start the install.

use crate::display::{device_summary, summary_text};
use crate::error::{error_text, InstallError};
use crate::orchestrator::{next_run, start_install};
use crate::progress::{ProgressTable, RecordView};
use crate::registry::{device_ids, parse_device_listing, texts};
use crate::worker::{Stage, Worker};
use vstd::prelude::*;

verus! {

/// The prefix of the message that reports a failed registry query.
pub open spec fn query_failure_text(reason: Seq<char>) -> Seq<char> {
    "Unable to query devices: "@ + reason
}

/// The message that confirms the selected package.
pub open spec fn selection_text(path: Seq<char>) -> Seq<char> {
    "Selected APK: "@ + path
}

/// Reads the outcome of the device query: the ready devices of the
/// tool's output, or `LaunchFailure` with the reason when the tool could
/// not be started.
pub fn list_devices(query: Result<String, String>) -> (result: Result<Vec<String>, InstallError>)
    ensures
        match (query, result) {
            (Ok(output), Ok(ids)) => texts(ids@) == device_ids(output@),
            (Err(reason), Err(e)) => e == InstallError::LaunchFailure(reason),
            _ => false,
        },
{
    match query {
        Ok(output) => Ok(parse_device_listing(output.as_str())),
        Err(reason) => Err(InstallError::LaunchFailure(reason)),
    }
}

/// What the user has selected and what they are told.
#[derive(Debug)]
pub struct InstallerState {
    pub apk_path: String,
    pub devices: Vec<String>,
    pub device_message: String,
    pub apk_message: String,
}

impl InstallerState {
    /// The state at start: nothing selected, nothing listed, no message.
    pub fn new() -> (state: Self)
        ensures
            state.apk_path@.len() == 0,
            state.devices@.len() == 0,
            state.device_message@.len() == 0,
            state.apk_message@.len() == 0,
    {
        InstallerState {
            apk_path: String::new(),
            devices: Vec::new(),
            device_message: String::new(),
            apk_message: String::new(),
        }
    }

    /// Takes the answer of the file picker. A picked path becomes the
    /// selected package and is confirmed in the package message; when
    /// nothing was picked, the earlier selection stays.
    pub fn find_apk_files(&mut self, picked: Option<String>)
        ensures
            match picked {
                Some(path) => {
                    &&& final(self).apk_path@ == path@
                    &&& final(self).apk_message@ == selection_text(path@)
                },
                None => {
                    &&& final(self).apk_path == old(self).apk_path
                    &&& final(self).apk_message == old(self).apk_message
                },
            },
            final(self).devices == old(self).devices,
            final(self).device_message == old(self).device_message,
    {
        match picked {
            Some(path) => {
                let mut message = "Selected APK: ".to_owned();
                message.append(path.as_str());
                self.apk_message = message;
                self.apk_path = path;
            },
            None => {},
        }
    }

    /// Takes the outcome of the device query. The devices of the tool's
    /// output replace the listed ones, and the device message says how
    /// many there are. When the tool could not be started, the message
    /// reports it with the reason and the listed devices stay.
    pub fn refresh_devices(&mut self, query: Result<String, String>)
        ensures
            match query {
                Ok(output) => {
                    &&& texts(final(self).devices@) == device_ids(output@)
                    &&& final(self).device_message@ == summary_text(device_ids(output@).len())
                },
                Err(reason) => {
                    &&& final(self).devices == old(self).devices
                    &&& final(self).device_message@ == query_failure_text(reason@)
                },
            },
            final(self).apk_path == old(self).apk_path,
            final(self).apk_message == old(self).apk_message,
    {
        match list_devices(query) {
            Ok(ids) => {
                assert(texts(ids@).len() == ids@.len());
                self.device_message = device_summary(ids.len());
                self.devices = ids;
            },
            Err(e) => {
                let mut message = "Unable to query devices: ".to_owned();
                message.append(e.message().as_str());
                self.device_message = message;
            },
        }
    }

    /// Starts the install of the selected package onto the listed
    /// devices. With no package selected, the package message says so,
    /// the error is `EmptyPackagePath` and the table stays as it is.
    /// Otherwise the table is cleared for the new run and one worker per
    /// listed device is handed out.
    pub fn install_apk(&mut self, table: &mut ProgressTable) -> (result: Result<
        Vec<Worker>,
        InstallError,
    >)
        ensures
            final(table).wf(),
            final(self).apk_path == old(self).apk_path,
            final(self).devices == old(self).devices,
            final(self).device_message == old(self).device_message,
            match result {
                Err(e) => {
                    &&& old(self).apk_path@.len() == 0
                    &&& e == InstallError::EmptyPackagePath
                    &&& final(self).apk_message@ == error_text(InstallError::EmptyPackagePath)
                    &&& final(table)@ == old(table)@
                    &&& final(table).run() == old(table).run()
                },
                Ok(workers) => {
                    &&& old(self).apk_path@.len() > 0
                    &&& final(self).apk_message == old(self).apk_message
                    &&& final(table)@ == Seq::<RecordView>::empty()
                    &&& final(table).run() == next_run(old(table).run())
                    &&& workers@.len() == old(self).devices@.len()
                    &&& forall|i: int|
                        0 <= i < workers@.len() ==> {
                            &&& (#[trigger] workers@[i]).device() == old(self).devices@[i]@
                            &&& workers@[i].package() == old(self).apk_path@
                            &&& workers@[i].run() == final(table).run()
                            &&& workers@[i].at_stage() == Stage::Created
                            &&& workers@[i].wf()
                        }
                },
            },
    {
        proof {
            use_type_invariant(&*table);
        }
        match start_install(table, self.apk_path.as_str(), &self.devices) {
            Ok(workers) => Ok(workers),
            Err(e) => {
                self.apk_message = e.message();
                Err(e)
            },
        }
    }
}

impl Default for InstallerState {
    fn default() -> (state: Self)
        ensures
            state.apk_path@.len() == 0,
            state.devices@.len() == 0,
            state.device_message@.len() == 0,
            state.apk_message@.len() == 0,
    {
        InstallerState::new()
    }
}

} // verus!
