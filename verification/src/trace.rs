//! Trace semantics: the daemon and the audio devices as one model, run
//! over a whole sequence of decoded payloads. The laws the daemon promises
//! over such runs are stated and proved here: malformed payloads are
//! skipped without any effect, an unlock restores exactly the devices the
//! preceding lock claimed, and a second consecutive lock claims nothing.

use vstd::prelude::*;

use crate::coordinator::Payload;
use crate::coordinator::spec_audio_calls;
use crate::coordinator::spec_next_muted;
use crate::devices::AudioCall;
use crate::devices::Device;
use crate::devices::apply_calls;
use crate::devices::distinct_indices;
use crate::devices::lemma_all_muted_claims_nothing;
use crate::devices::lemma_apply_mutes;
use crate::devices::lemma_apply_unmutes;
use crate::devices::lemma_to_mute_exact;
use crate::devices::lemma_to_mute_no_duplicates;
use crate::devices::mutes_of;
use crate::devices::to_mute;
use crate::devices::unmutes_of;

verus! {

/// The whole model at one instant: the device snapshot the audio server
/// would report, and the set of devices the daemon remembers having muted.
pub ghost struct ModelState {
    pub world: Seq<Device>,
    pub muted: Seq<u32>,
}

/// One dispatch: the audio calls it issues are applied to the world, and
/// the remembered set is updated.
pub open spec fn step(m: ModelState, p: Payload) -> ModelState {
    ModelState {
        world: apply_calls(m.world, spec_audio_calls(m.world, m.muted, p)),
        muted: spec_next_muted(m.world, m.muted, p),
    }
}

/// The audio calls one dispatch issues from the given model state.
pub open spec fn step_calls(m: ModelState, p: Payload) -> Seq<AudioCall> {
    spec_audio_calls(m.world, m.muted, p)
}

/// The model state after dispatching a sequence of payloads in order.
pub open spec fn run(m: ModelState, evs: Seq<Payload>) -> ModelState
    decreases evs.len(),
{
    if evs.len() == 0 {
        m
    } else {
        run(step(m, evs[0]), evs.drop_first())
    }
}

/// Every audio call a run issues, in dispatch order.
pub open spec fn run_calls(m: ModelState, evs: Seq<Payload>) -> Seq<AudioCall>
    decreases evs.len(),
{
    if evs.len() == 0 {
        Seq::empty()
    } else {
        step_calls(m, evs[0]) + run_calls(step(m, evs[0]), evs.drop_first())
    }
}

/// The same payload sequence with the malformed payloads dropped.
pub open spec fn strip_malformed(evs: Seq<Payload>) -> Seq<Payload>
    decreases evs.len(),
{
    if evs.len() == 0 {
        Seq::empty()
    } else if evs[0] == Payload::Malformed {
        strip_malformed(evs.drop_first())
    } else {
        seq![evs[0]] + strip_malformed(evs.drop_first())
    }
}

/// No payload in the sequence is a lock event.
pub open spec fn no_lock_events(evs: Seq<Payload>) -> bool {
    forall|i: int| 0 <= i < evs.len() ==> evs[i] != Payload::Event(true)
}

/// A malformed payload is skipped without any effect: it issues no audio
/// call and leaves both the world and the remembered set as they were.
pub proof fn lemma_malformed_has_no_effect(m: ModelState)
    ensures
        step(m, Payload::Malformed) == m,
        step_calls(m, Payload::Malformed) == Seq::<AudioCall>::empty(),
{
}

/// A malformed payload anywhere in a run neither ends the run nor alters
/// it: the run reaches the same final state and issues the same calls as
/// the run over the well-formed payloads alone.
pub proof fn lemma_run_skips_malformed(m: ModelState, evs: Seq<Payload>)
    ensures
        run(m, evs) == run(m, strip_malformed(evs)),
        run_calls(m, evs) == run_calls(m, strip_malformed(evs)),
    decreases evs.len(),
{
    if evs.len() == 0 {
    } else if evs[0] == Payload::Malformed {
        lemma_malformed_has_no_effect(m);
        assert(Seq::<AudioCall>::empty() + run_calls(m, evs.drop_first()) =~= run_calls(
            m,
            evs.drop_first(),
        ));
        lemma_run_skips_malformed(m, evs.drop_first());
    } else {
        let stripped = strip_malformed(evs);
        assert(stripped[0] == evs[0]);
        assert(stripped.drop_first() =~= strip_malformed(evs.drop_first()));
        lemma_run_skips_malformed(step(m, evs[0]), evs.drop_first());
    }
}

/// A run containing no lock event never changes the remembered set.
pub proof fn lemma_no_lock_preserves_muted(m: ModelState, evs: Seq<Payload>)
    requires
        no_lock_events(evs),
    ensures
        run(m, evs).muted == m.muted,
    decreases evs.len(),
{
    if evs.len() == 0 {
    } else {
        assert(evs[0] != Payload::Event(true));
        assert(step(m, evs[0]).muted == m.muted);
        assert forall|i: int|
            0 <= i < evs.drop_first().len() implies evs.drop_first()[i] != Payload::Event(
            true,
        ) by {
            assert(evs.drop_first()[i] == evs[i + 1]);
        }
        lemma_no_lock_preserves_muted(step(m, evs[0]), evs.drop_first());
    }
}

/// After a lock event, however many unlock events and malformed payloads
/// follow, the next unlock issues exactly one unmute call for each device
/// the lock claimed — no index twice, no device outside that set: every
/// claimed device ends unmuted, and every other device keeps its mute
/// flag through the unlock step.
pub proof fn lemma_unlock_restores_claimed(m: ModelState, mid: Seq<Payload>)
    requires
        distinct_indices(m.world),
        no_lock_events(mid),
    ensures
        ({
            let claimed = to_mute(m.world);
            let after = run(step(m, Payload::Event(true)), mid);
            let unlocked = step(after, Payload::Event(false));
            after.muted == claimed && step_calls(after, Payload::Event(false)) == unmutes_of(
                claimed,
            ) && claimed.no_duplicates() && unlocked.world.len() == after.world.len() && (forall|
                j: int,
            |
                0 <= j < after.world.len() ==> (#[trigger] unlocked.world[j]).index
                    == after.world[j].index) && (forall|j: int|
                0 <= j < after.world.len() ==> (#[trigger] unlocked.world[j]).mute == (
                after.world[j].mute && !claimed.contains(after.world[j].index)))
        }),
{
    let claimed = to_mute(m.world);
    let locked = step(m, Payload::Event(true));
    assert(locked.muted == claimed);
    lemma_no_lock_preserves_muted(locked, mid);
    lemma_to_mute_no_duplicates(m.world);
    let after = run(locked, mid);
    lemma_apply_unmutes(after.world, claimed);
}

/// A second consecutive lock event claims nothing: every device is already
/// muted after the first, so the second issues no audio call at all and
/// remembers the empty set.
pub proof fn lemma_second_lock_claims_nothing(m: ModelState)
    ensures
        ({
            let locked = step(m, Payload::Event(true));
            to_mute(locked.world) == Seq::<u32>::empty() && step_calls(
                locked,
                Payload::Event(true),
            ) == Seq::<AudioCall>::empty()
        }),
{
    let w = m.world;
    let claimed = to_mute(w);
    let locked = step(m, Payload::Event(true));
    lemma_apply_mutes(w, claimed);
    lemma_to_mute_exact(w);
    assert forall|j: int| 0 <= j < locked.world.len() implies (#[trigger] locked.world[j]).mute by {
        if !w[j].mute {
            assert(claimed.contains(w[j].index));
        }
    }
    lemma_all_muted_claims_nothing(locked.world);
    assert(to_mute(locked.world) =~= Seq::<u32>::empty());
    assert(mutes_of(to_mute(locked.world)) =~= Seq::<AudioCall>::empty());
}

} // verus!
