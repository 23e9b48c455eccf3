//! The signal-subscription surface: the fixed list of candidate
//! screensaver source identities, the signal each subscription matches,
//! and the per-signal entry point the merged streams dispatch through.
//! Which subscription delivered a signal never alters what the dispatch
//! does: the outcome is a function of the decoded payload alone.

use vstd::prelude::*;

use crate::coordinator::Payload;
use crate::coordinator::State;
use crate::coordinator::dispatch;
use crate::coordinator::spec_audio_calls;
use crate::coordinator::spec_next_muted;
use crate::devices::AudioCall;
use crate::devices::Device;

verus! {

/// One inbound signal as the multiplexer hands it to the coordinator: the
/// index of the subscription that delivered it (into the watched-source
/// list) and its decoded payload.
#[derive(Clone, Copy, PartialEq, Eq, Structural, Debug)]
pub struct Signal {
    pub source: usize,
    pub payload: Payload,
}

/// The candidate screensaver source identities watched simultaneously.
/// Whichever desktop environment is running emits from one of them; the
/// daemon cannot know in advance which.
pub fn watched_sources() -> (r: Vec<&'static str>)
    ensures
        r@.len() == 2,
        r@[0]@ == "org.cinnamon.ScreenSaver"@,
        r@[1]@ == "org.gnome.ScreenSaver"@,
{
    let mut r: Vec<&'static str> = Vec::new();
    r.push("org.cinnamon.ScreenSaver");
    r.push("org.gnome.ScreenSaver");
    r
}

/// The member name every subscription matches on.
pub fn signal_member() -> (r: &'static str)
    ensures
        r@ == "ActiveChanged"@,
{
    "ActiveChanged"
}

/// The audio calls a dispatched signal issues: a function of its payload
/// alone, never of the subscription that delivered it.
pub open spec fn spec_signal_audio(devs: Seq<Device>, muted: Seq<u32>, s: Signal) -> Seq<
    AudioCall,
> {
    spec_audio_calls(devs, muted, s.payload)
}

/// The remembered set after a dispatched signal: a function of its
/// payload alone, never of the subscription that delivered it.
pub open spec fn spec_signal_next_muted(devs: Seq<Device>, muted: Seq<u32>, s: Signal) -> Seq<
    u32,
> {
    spec_next_muted(devs, muted, s.payload)
}

/// Subscription identity does not alter dispatch behaviour: two signals
/// carrying the same payload dispatch identically, whichever watched
/// source each arrived from.
pub proof fn lemma_source_independent(devs: Seq<Device>, muted: Seq<u32>, s1: Signal, s2: Signal)
    requires
        s1.payload == s2.payload,
    ensures
        spec_signal_audio(devs, muted, s1) == spec_signal_audio(devs, muted, s2),
        spec_signal_next_muted(devs, muted, s1) == spec_signal_next_muted(devs, muted, s2),
{
}

/// Dispatches one inbound signal: hands its payload to the coordinator,
/// whatever subscription delivered it and whatever the unit-activation
/// call reported.
pub fn handle_signal(
    state: &mut State,
    devices: &Vec<Device>,
    signal: &Signal,
    activation_ok: bool,
) -> (audio: Vec<AudioCall>)
    ensures
        audio@ == spec_signal_audio(devices@, old(state).muted_devices@, *signal),
        final(state).muted_devices@ == spec_signal_next_muted(
            devices@,
            old(state).muted_devices@,
            *signal,
        ),
{
    dispatch(state, devices, &signal.payload, activation_ok)
}

} // verus!
