//! The audio-device model: a snapshot of the output devices the audio
//! server reports, the calls the daemon issues against them, and the rule
//! deciding which devices a lock event claims (mutes and remembers).

use vstd::prelude::*;

verus! {

/// A snapshot of one audio output device, as enumeration reports it:
/// its index and whether it is currently muted.
#[derive(Clone, Copy, PartialEq, Eq, Structural, Debug)]
pub struct Device {
    pub index: u32,
    pub mute: bool,
}

/// One outbound call against the audio server: set the mute flag of the
/// device with the given index.
#[derive(Clone, Copy, PartialEq, Eq, Structural, Debug)]
pub enum AudioCall {
    Mute(u32),
    Unmute(u32),
}

/// The indices of the devices that a lock event claims: exactly those
/// reported unmuted, in enumeration order. Devices already muted are
/// left untouched and never claimed.
pub open spec fn to_mute(devs: Seq<Device>) -> Seq<u32>
    decreases devs.len(),
{
    if devs.len() == 0 {
        Seq::empty()
    } else {
        let rest = to_mute(devs.drop_last());
        if !devs.last().mute {
            rest.push(devs.last().index)
        } else {
            rest
        }
    }
}

/// One mute call per index, in order.
pub open spec fn mutes_of(idxs: Seq<u32>) -> Seq<AudioCall> {
    idxs.map_values(|i: u32| AudioCall::Mute(i))
}

/// One unmute call per index, in order.
pub open spec fn unmutes_of(idxs: Seq<u32>) -> Seq<AudioCall> {
    idxs.map_values(|i: u32| AudioCall::Unmute(i))
}

/// Device indices are unique within one enumeration snapshot.
pub open spec fn distinct_indices(devs: Seq<Device>) -> bool {
    forall|i: int, j: int|
        0 <= i < devs.len() && 0 <= j < devs.len() && i != j ==> devs[i].index != devs[j].index
}

/// The effect of one call on a device snapshot: every device with the
/// named index gets its mute flag set accordingly; all others keep theirs.
pub open spec fn apply_call(devs: Seq<Device>, c: AudioCall) -> Seq<Device> {
    match c {
        AudioCall::Mute(i) => devs.map_values(
            |d: Device|
                if d.index == i {
                    Device { index: d.index, mute: true }
                } else {
                    d
                },
        ),
        AudioCall::Unmute(i) => devs.map_values(
            |d: Device|
                if d.index == i {
                    Device { index: d.index, mute: false }
                } else {
                    d
                },
        ),
    }
}

/// The effect of a sequence of calls, applied left to right.
pub open spec fn apply_calls(devs: Seq<Device>, calls: Seq<AudioCall>) -> Seq<Device>
    decreases calls.len(),
{
    if calls.len() == 0 {
        devs
    } else {
        apply_calls(apply_call(devs, calls[0]), calls.drop_first())
    }
}

/// Computes which devices a lock event claims: exactly the indices of the
/// devices reported unmuted, in enumeration order.
pub fn mute_plan(devices: &Vec<Device>) -> (r: Vec<u32>)
    ensures
        r@ == to_mute(devices@),
{
    let mut r: Vec<u32> = Vec::new();
    let mut i: usize = 0;
    while i < devices.len()
        invariant
            i <= devices.len(),
            r@ == to_mute(devices@.take(i as int)),
        decreases devices.len() - i,
    {
        let d = devices[i];
        proof {
            assert(devices@.take(i + 1).drop_last() =~= devices@.take(i as int));
            assert(devices@.take(i + 1).last() == devices@[i as int]);
        }
        if !d.mute {
            r.push(d.index);
        }
        i = i + 1;
    }
    proof {
        assert(devices@.take(devices@.len() as int) =~= devices@);
    }
    r
}

/// The claimed set is exact: an index is claimed if and only if some
/// device in the snapshot reports unmuted under that index.
pub proof fn lemma_to_mute_exact(devs: Seq<Device>)
    ensures
        forall|x: u32|
            #[trigger] to_mute(devs).contains(x) <==> (exists|j: int|
                0 <= j < devs.len() && !devs[j].mute && devs[j].index == x),
    decreases devs.len(),
{
    if devs.len() == 0 {
    } else {
        lemma_to_mute_exact(devs.drop_last());
        let rest = to_mute(devs.drop_last());
        assert forall|x: u32| #[trigger] to_mute(devs).contains(x) implies (exists|j: int|
            0 <= j < devs.len() && !devs[j].mute && devs[j].index == x) by {
            if !devs.last().mute && x == devs.last().index {
                assert(!devs[devs.len() - 1].mute && devs[devs.len() - 1].index == x);
            } else {
                assert(rest.contains(x));
                let j = choose|j: int|
                    0 <= j < devs.drop_last().len() && !devs.drop_last()[j].mute
                        && devs.drop_last()[j].index == x;
                assert(0 <= j < devs.len() && !devs[j].mute && devs[j].index == x);
            }
        }
        assert forall|x: u32|
            (exists|j: int|
                0 <= j < devs.len() && !devs[j].mute && devs[j].index == x) implies #[trigger] to_mute(
            devs,
        ).contains(x) by {
            let j = choose|j: int| 0 <= j < devs.len() && !devs[j].mute && devs[j].index == x;
            if j == devs.len() - 1 {
                assert(to_mute(devs).last() == x);
            } else {
                assert(devs.drop_last()[j].index == x && !devs.drop_last()[j].mute);
                assert(rest.contains(x));
                let k = choose|k: int| 0 <= k < rest.len() && rest[k] == x;
                if !devs.last().mute {
                    assert(to_mute(devs)[k] == x);
                }
            }
        }
    }
}

/// A device that already reports muted is never claimed, provided indices
/// are unique in the snapshot.
pub proof fn lemma_to_mute_skips_muted(devs: Seq<Device>)
    requires
        distinct_indices(devs),
    ensures
        forall|j: int|
            0 <= j < devs.len() && devs[j].mute ==> !to_mute(devs).contains(#[trigger] devs[j].index),
{
    lemma_to_mute_exact(devs);
    assert forall|j: int|
        0 <= j < devs.len() && devs[j].mute implies !to_mute(devs).contains(
        #[trigger] devs[j].index,
    ) by {
        if to_mute(devs).contains(devs[j].index) {
            let k = choose|k: int|
                0 <= k < devs.len() && !devs[k].mute && devs[k].index == devs[j].index;
            assert(k != j);
        }
    }
}

/// With unique indices, no index is claimed twice.
pub proof fn lemma_to_mute_no_duplicates(devs: Seq<Device>)
    requires
        distinct_indices(devs),
    ensures
        to_mute(devs).no_duplicates(),
    decreases devs.len(),
{
    if devs.len() == 0 {
    } else {
        lemma_to_mute_no_duplicates(devs.drop_last());
        if !devs.last().mute {
            lemma_to_mute_exact(devs.drop_last());
            if to_mute(devs.drop_last()).contains(devs.last().index) {
                let j = choose|j: int|
                    0 <= j < devs.drop_last().len() && !devs.drop_last()[j].mute
                        && devs.drop_last()[j].index == devs.last().index;
                assert(devs[j].index == devs[devs.len() - 1].index);
                assert(false);
            }
        }
    }
}

/// Applying a batch of mute calls: indices and length are preserved, and a
/// device ends muted exactly when it was muted before or its index is in
/// the batch.
pub proof fn lemma_apply_mutes(devs: Seq<Device>, idxs: Seq<u32>)
    ensures
        apply_calls(devs, mutes_of(idxs)).len() == devs.len(),
        forall|j: int|
            0 <= j < devs.len() ==> (#[trigger] apply_calls(devs, mutes_of(idxs))[j]).index
                == devs[j].index,
        forall|j: int|
            0 <= j < devs.len() ==> (#[trigger] apply_calls(devs, mutes_of(idxs))[j]).mute == (
            devs[j].mute || idxs.contains(devs[j].index)),
    decreases idxs.len(),
{
    if idxs.len() == 0 {
        assert(mutes_of(idxs) =~= Seq::<AudioCall>::empty());
    } else {
        let devs1 = apply_call(devs, AudioCall::Mute(idxs[0]));
        assert(mutes_of(idxs)[0] == AudioCall::Mute(idxs[0]));
        assert(mutes_of(idxs).drop_first() =~= mutes_of(idxs.drop_first()));
        lemma_apply_mutes(devs1, idxs.drop_first());
        assert forall|j: int| 0 <= j < devs.len() implies (#[trigger] apply_calls(
            devs,
            mutes_of(idxs),
        )[j]).mute == (devs[j].mute || idxs.contains(devs[j].index)) by {
            assert(devs1[j].index == devs[j].index);
            assert(devs1[j].mute == (devs[j].mute || devs[j].index == idxs[0]));
            if idxs.contains(devs[j].index) {
                let k = choose|k: int| 0 <= k < idxs.len() && idxs[k] == devs[j].index;
                if k != 0 {
                    assert(idxs.drop_first()[k - 1] == devs[j].index);
                    assert(idxs.drop_first().contains(devs[j].index));
                }
            } else {
                assert(devs[j].index != idxs[0]);
                if idxs.drop_first().contains(devs[j].index) {
                    let k = choose|k: int|
                        0 <= k < idxs.drop_first().len() && idxs.drop_first()[k] == devs[j].index;
                    assert(idxs[k + 1] == devs[j].index);
                }
            }
        }
    }
}

/// Applying a batch of unmute calls: indices and length are preserved, and
/// a device ends muted exactly when it was muted before and its index is
/// not in the batch.
pub proof fn lemma_apply_unmutes(devs: Seq<Device>, idxs: Seq<u32>)
    ensures
        apply_calls(devs, unmutes_of(idxs)).len() == devs.len(),
        forall|j: int|
            0 <= j < devs.len() ==> (#[trigger] apply_calls(devs, unmutes_of(idxs))[j]).index
                == devs[j].index,
        forall|j: int|
            0 <= j < devs.len() ==> (#[trigger] apply_calls(devs, unmutes_of(idxs))[j]).mute == (
            devs[j].mute && !idxs.contains(devs[j].index)),
    decreases idxs.len(),
{
    if idxs.len() == 0 {
        assert(unmutes_of(idxs) =~= Seq::<AudioCall>::empty());
    } else {
        let devs1 = apply_call(devs, AudioCall::Unmute(idxs[0]));
        assert(unmutes_of(idxs)[0] == AudioCall::Unmute(idxs[0]));
        assert(unmutes_of(idxs).drop_first() =~= unmutes_of(idxs.drop_first()));
        lemma_apply_unmutes(devs1, idxs.drop_first());
        assert forall|j: int| 0 <= j < devs.len() implies (#[trigger] apply_calls(
            devs,
            unmutes_of(idxs),
        )[j]).mute == (devs[j].mute && !idxs.contains(devs[j].index)) by {
            assert(devs1[j].index == devs[j].index);
            assert(devs1[j].mute == (devs[j].mute && devs[j].index != idxs[0]));
            if idxs.contains(devs[j].index) {
                let k = choose|k: int| 0 <= k < idxs.len() && idxs[k] == devs[j].index;
                if k != 0 {
                    assert(idxs.drop_first()[k - 1] == devs[j].index);
                    assert(idxs.drop_first().contains(devs[j].index));
                }
            } else {
                assert(devs[j].index != idxs[0]);
                if idxs.drop_first().contains(devs[j].index) {
                    let k = choose|k: int|
                        0 <= k < idxs.drop_first().len() && idxs.drop_first()[k] == devs[j].index;
                    assert(idxs[k + 1] == devs[j].index);
                }
            }
        }
    }
}

/// A snapshot in which every device is muted claims nothing.
pub proof fn lemma_all_muted_claims_nothing(devs: Seq<Device>)
    requires
        forall|j: int| 0 <= j < devs.len() ==> (#[trigger] devs[j]).mute,
    ensures
        to_mute(devs) =~= Seq::<u32>::empty(),
    decreases devs.len(),
{
    if devs.len() == 0 {
    } else {
        assert(devs[devs.len() - 1].mute);
        lemma_all_muted_claims_nothing(devs.drop_last());
    }
}

} // verus!
