//! The unit-activator surface: which target unit each lock transition
//! starts, and the literal names of the outbound method-call contract
//! (destination, object path, interface, method, and mode argument).

use vstd::prelude::*;

verus! {

/// The two target units the daemon activates: one on lock, one on unlock.
#[derive(Clone, Copy, PartialEq, Eq, Structural, Debug)]
pub enum Target {
    Lock,
    Unlock,
}

/// The unit name passed to the service manager for each target.
pub open spec fn spec_unit_name(t: Target) -> Seq<char> {
    match t {
        Target::Lock => "lock-activated.target"@,
        Target::Unlock => "unlock-activated.target"@,
    }
}

/// The unit name to start for the given target.
pub fn unit_name(t: Target) -> (r: &'static str)
    ensures
        r@ == spec_unit_name(t),
{
    match t {
        Target::Lock => "lock-activated.target",
        Target::Unlock => "unlock-activated.target",
    }
}

/// The bus name of the service manager the activation call is sent to.
pub fn manager_destination() -> (r: &'static str)
    ensures
        r@ == "org.freedesktop.systemd1"@,
{
    "org.freedesktop.systemd1"
}

/// The object path of the service manager.
pub fn manager_path() -> (r: &'static str)
    ensures
        r@ == "/org/freedesktop/systemd1"@,
{
    "/org/freedesktop/systemd1"
}

/// The interface the activation method belongs to.
pub fn manager_interface() -> (r: &'static str)
    ensures
        r@ == "org.freedesktop.systemd1.Manager"@,
{
    "org.freedesktop.systemd1.Manager"
}

/// The name of the activation method: start a named unit.
pub fn start_unit_method() -> (r: &'static str)
    ensures
        r@ == "StartUnit"@,
{
    "StartUnit"
}

/// The mode argument of every activation call: replace any conflicting
/// queued job.
pub fn start_unit_mode() -> (r: &'static str)
    ensures
        r@ == "replace"@,
{
    "replace"
}

/// The bounded wait, in seconds, applied to one activation call.
pub fn activation_timeout_secs() -> (r: u64)
    ensures
        r == 2,
{
    2
}

} // verus!
