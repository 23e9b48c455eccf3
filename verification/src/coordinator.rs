//! The lock-state coordinator: the shared state (the set of devices this
//! daemon itself muted) and the dispatch rule applied to each decoded
//! signal payload. The rule is a total function of the current state, the
//! payload, and the current device snapshot; the outcome never depends on
//! whether the unit-activation call that precedes the audio step succeeded.

use vstd::prelude::*;

use crate::devices::AudioCall;
use crate::devices::Device;
use crate::devices::mutes_of;
use crate::devices::to_mute;
use crate::devices::unmutes_of;
use crate::units::Target;

verus! {

/// One decoded inbound signal payload: either the boolean "is the screen
/// now locked", or a payload that did not carry a single boolean.
#[derive(Clone, Copy, PartialEq, Eq, Structural, Debug)]
pub enum Payload {
    Event(bool),
    Malformed,
}

/// The daemon's shared state: the indices of the devices this daemon
/// itself transitioned from unmuted to muted on the most recent lock
/// event. Only these are restored on unlock.
pub struct State {
    pub muted_devices: Vec<u32>,
}

impl State {
    /// A fresh daemon starts owing no device a restore.
    pub fn new() -> (s: State)
        ensures
            s.muted_devices@ == Seq::<u32>::empty(),
    {
        State { muted_devices: Vec::new() }
    }
}

/// Which target unit a payload activates: the lock target on `true`, the
/// unlock target on `false`, none for a malformed payload.
pub open spec fn spec_target(p: Payload) -> Option<Target> {
    match p {
        Payload::Event(true) => Some(Target::Lock),
        Payload::Event(false) => Some(Target::Unlock),
        Payload::Malformed => None,
    }
}

/// The audio calls one dispatch issues: on lock, one mute call per claimed
/// device; on unlock, one unmute call per remembered device; none for a
/// malformed payload.
pub open spec fn spec_audio_calls(devs: Seq<Device>, muted: Seq<u32>, p: Payload) -> Seq<
    AudioCall,
> {
    match p {
        Payload::Event(true) => mutes_of(to_mute(devs)),
        Payload::Event(false) => unmutes_of(muted),
        Payload::Malformed => Seq::empty(),
    }
}

/// The remembered set after one dispatch: a lock event replaces it with
/// the devices it claimed; an unlock event and a malformed payload leave
/// it as it is.
pub open spec fn spec_next_muted(devs: Seq<Device>, muted: Seq<u32>, p: Payload) -> Seq<u32> {
    match p {
        Payload::Event(true) => to_mute(devs),
        Payload::Event(false) => muted,
        Payload::Malformed => muted,
    }
}

/// The target unit a payload activates.
pub fn target_for(p: &Payload) -> (t: Option<Target>)
    ensures
        t == spec_target(*p),
{
    match p {
        Payload::Event(true) => Some(Target::Lock),
        Payload::Event(false) => Some(Target::Unlock),
        Payload::Malformed => None,
    }
}

/// Dispatches one decoded payload against the current state and device
/// snapshot: returns the audio calls to issue, in order, and updates the
/// remembered set.
///
/// `_activation_ok` reports whether the unit-activation call made earlier
/// in the same dispatch succeeded; the audio step and the state update do
/// not depend on it, which the contract shows by never mentioning it.
pub fn dispatch(
    state: &mut State,
    devices: &Vec<Device>,
    p: &Payload,
    _activation_ok: bool,
) -> (audio: Vec<AudioCall>)
    ensures
        audio@ == spec_audio_calls(devices@, old(state).muted_devices@, *p),
        final(state).muted_devices@ == spec_next_muted(
            devices@,
            old(state).muted_devices@,
            *p,
        ),
{
    match p {
        Payload::Malformed => {
            let audio: Vec<AudioCall> = Vec::new();
            proof {
                assert(audio@ =~= spec_audio_calls(devices@, state.muted_devices@, *p));
            }
            audio
        },
        Payload::Event(true) => {
            let plan = crate::devices::mute_plan(devices);
            let mut audio: Vec<AudioCall> = Vec::new();
            let mut i: usize = 0;
            while i < plan.len()
                invariant
                    i <= plan.len(),
                    audio@ == mutes_of(plan@.take(i as int)),
                decreases plan.len() - i,
            {
                audio.push(AudioCall::Mute(plan[i]));
                proof {
                    assert(audio@ =~= mutes_of(plan@.take(i + 1)));
                }
                i = i + 1;
            }
            proof {
                assert(plan@.take(plan@.len() as int) =~= plan@);
            }
            state.muted_devices = plan;
            audio
        },
        Payload::Event(false) => {
            let mut audio: Vec<AudioCall> = Vec::new();
            let mut i: usize = 0;
            while i < state.muted_devices.len()
                invariant
                    i <= state.muted_devices.len(),
                    audio@ == unmutes_of(state.muted_devices@.take(i as int)),
                    *state == *old(state),
                decreases state.muted_devices.len() - i,
            {
                audio.push(AudioCall::Unmute(state.muted_devices[i]));
                proof {
                    assert(audio@ =~= unmutes_of(state.muted_devices@.take(i + 1)));
                }
                i = i + 1;
            }
            proof {
                assert(state.muted_devices@.take(state.muted_devices@.len() as int)
                    =~= state.muted_devices@);
            }
            audio
        },
    }
}

} // verus!
