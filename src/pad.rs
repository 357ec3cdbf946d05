use vstd::prelude::*;

verus! {

/// Gamepad slots that are probed.
pub const XUSER_MAX_COUNT: u32 = 3;

/// Frames to wait after no gamepad answered before probing again; probing an empty slot
/// enumerates devices, which is slow.
pub const XINPUT_RETRY_INTERVAL: u16 = 300;

/// When to probe the gamepad slots, and where to start.
#[derive(Clone, Copy, Debug, PartialEq, Eq, Structural)]
pub struct PadPoll {
    /// Frames left before the next probe.
    pub countdown: u16,
    /// The slot that answered last.
    pub latest_idx: u32,
}

impl PadPoll {
    /// Probe at once, starting with the first slot.
    pub fn new() -> (r: PadPoll)
        ensures
            r == (PadPoll { countdown: 0, latest_idx: 0 }),
    {
        PadPoll { countdown: 0, latest_idx: 0 }
    }
}

/// Whether to probe this frame; while waiting, counts one frame down.
pub fn should_probe(p: &mut PadPoll) -> (r: bool)
    ensures
        r == (old(p).countdown == 0),
        !r ==> *final(p) == (PadPoll { countdown: (old(p).countdown - 1) as u16, ..*old(p) }),
        r ==> *final(p) == *old(p),
{
    if p.countdown > 0 {
        p.countdown = p.countdown - 1;
        false
    } else {
        true
    }
}

/// The slots to probe, in order: round the slots from the one that answered last.
pub fn probe_order(p: &PadPoll) -> (r: Vec<u32>)
    ensures
        r@.len() == XUSER_MAX_COUNT,
        forall|k: int| 0 <= k < r@.len() ==> r@[k] == (p.latest_idx as int + k) % (XUSER_MAX_COUNT as int),
{
    let base = p.latest_idx % XUSER_MAX_COUNT;
    let mut r: Vec<u32> = Vec::new();
    let mut k: u32 = 0;
    while k < XUSER_MAX_COUNT
        invariant
            k <= XUSER_MAX_COUNT,
            base == (p.latest_idx as int) % (XUSER_MAX_COUNT as int),
            r@.len() == k,
            forall|j: int| 0 <= j < k ==> r@[j] == (p.latest_idx as int + j) % (XUSER_MAX_COUNT as int),
        decreases XUSER_MAX_COUNT - k,
    {
        let idx = (base + k) % XUSER_MAX_COUNT;
        assert((base as int + k as int) % 3 == (p.latest_idx as int + k as int) % 3) by {
            vstd::arithmetic::div_mod::lemma_add_mod_noop(p.latest_idx as int, k as int, 3);
            vstd::arithmetic::div_mod::lemma_add_mod_noop(base as int, k as int, 3);
            vstd::arithmetic::div_mod::lemma_mod_twice(p.latest_idx as int, 3);
        }
        r.push(idx);
        k = k + 1;
    }
    r
}

/// The poll state after a probe: the slot that answered is tried first next time; when none
/// answered, wait before probing again.
pub fn after_probe(p: PadPoll, answered: Option<u32>) -> (r: PadPoll)
    ensures
        answered.is_some() ==> r == (PadPoll { countdown: 0, latest_idx: answered.unwrap() }),
        answered.is_none() ==> r == (PadPoll {
            countdown: XINPUT_RETRY_INTERVAL,
            latest_idx: p.latest_idx,
        }),
{
    match answered {
        Some(idx) => PadPoll { countdown: 0, latest_idx: idx },
        None => PadPoll { countdown: XINPUT_RETRY_INTERVAL, latest_idx: p.latest_idx },
    }
}

} // verus!
