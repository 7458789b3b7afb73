//! The two invocations of the device-bridge tool: what is run, and with
//! which arguments. Running them is left to the caller.

use crate::registry::texts;
use vstd::prelude::*;

verus! {

/// Name of the device-bridge tool.
pub open spec fn bridge_name() -> Seq<char> {
    "adb"@
}

/// The arguments that make the tool list the devices.
pub open spec fn listing_arguments() -> Seq<Seq<char>> {
    seq!["devices"@]
}

/// The arguments that make the tool install the package at `package`
/// onto `device`.
pub open spec fn installing_arguments(device: Seq<char>, package: Seq<char>) -> Seq<Seq<char>> {
    seq!["-s"@, device, "install"@, package]
}

/// Name of the device-bridge tool.
pub fn bridge_program() -> (name: String)
    ensures
        name@ == bridge_name(),
{
    "adb".to_owned()
}

/// The arguments that make the tool list the devices.
pub fn list_arguments() -> (arguments: Vec<String>)
    ensures
        texts(arguments@) == listing_arguments(),
{
    let mut arguments: Vec<String> = Vec::new();
    arguments.push("devices".to_owned());
    assert(texts(arguments@) =~= listing_arguments());
    arguments
}

/// The arguments that make the tool install the package at
/// `package_path` onto the device `device_id`.
pub fn install_arguments(device_id: &String, package_path: &String) -> (arguments: Vec<String>)
    ensures
        texts(arguments@) == installing_arguments(device_id@, package_path@),
{
    let mut arguments: Vec<String> = Vec::new();
    arguments.push("-s".to_owned());
    arguments.push(device_id.clone());
    arguments.push("install".to_owned());
    arguments.push(package_path.clone());
    assert(texts(arguments@) =~= installing_arguments(device_id@, package_path@));
    arguments
}

} // verus!
