//! What can go wrong with an install, and how it reads to the user.

use vstd::prelude::*;

verus! {

/// The failures of the installer. None of them is retried.
#[derive(Debug, PartialEq, Eq)]
pub enum InstallError {
    /// An install was triggered with no package selected.
    EmptyPackagePath,
    /// The device-bridge command could not be started; holds the reason.
    LaunchFailure(String),
    /// The install command ran and reported a failure; holds its output.
    DeviceInstallFailure(String),
}

/// The text that `error` shows to the user.
pub open spec fn error_text(error: InstallError) -> Seq<char> {
    match error {
        InstallError::EmptyPackagePath => "APK path is empty"@,
        InstallError::LaunchFailure(reason) => reason@,
        InstallError::DeviceInstallFailure(output) => output@,
    }
}

/// What the install command said: its standard output followed by its
/// standard error.
pub open spec fn said(stdout: Seq<char>, stderr: Seq<char>) -> Seq<char> {
    stdout + stderr
}

/// Whether an exit of the install command is a success: only exit code 0
/// is. `None` stands for an exit without a code.
pub open spec fn exit_ok(code: Option<i32>) -> bool {
    code == Some(0i32)
}

impl InstallError {
    /// The text that this error shows to the user.
    pub fn message(&self) -> (text: String)
        ensures
            text@ == error_text(*self),
    {
        match self {
            InstallError::EmptyPackagePath => "APK path is empty".to_owned(),
            InstallError::LaunchFailure(reason) => reason.clone(),
            InstallError::DeviceInstallFailure(output) => output.clone(),
        }
    }
}

/// Inspects the exit of the install command: `Ok` exactly on exit code 0,
/// otherwise `DeviceInstallFailure` with what the command said, its
/// standard output followed by its standard error.
pub fn install_result(code: Option<i32>, stdout: String, stderr: String) -> (result: Result<
    (),
    InstallError,
>)
    ensures
        result is Ok == exit_ok(code),
        match result {
            Ok(()) => true,
            Err(e) => e is DeviceInstallFailure && error_text(e) == said(stdout@, stderr@),
        },
{
    match code {
        Some(0) => Ok(()),
        _ => {
            let mut output = stdout;
            output.append(stderr.as_str());
            Err(InstallError::DeviceInstallFailure(output))
        },
    }
}

} // verus!
