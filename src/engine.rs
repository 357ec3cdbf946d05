use vstd::prelude::*;

use crate::config::{Config, UID};
use crate::frame::{actual_frames, Framerate, Frames, DEFAULT_FRAMERATE};
use crate::host::{
    apply, apply_all, item_of, lemma_apply_all_append, lemma_apply_one, slot_of, tool_in, Command,
    HostState, HostView, ItemID, ProstheticSlot, COMBAT_ART_SLOT,
};
use crate::input::{aged, expired_when, lookup, Input, InputBuffer, Inputs};

verus! {

/// Frames for which an art's block is held for the player.
pub const BLOCK_INJECTION_DURATION: u8 = 10;

/// Frames for which attack is masked after an art was equipped.
pub const ATTACK_SUPRESSION_DURATION: u8 = 2;

/// Frames for which the tool button is masked after a tool was equipped.
pub const PROSTHETIC_SUPRESSION_DURATION: u8 = 2;

/// Standard frames after a tool's use before the default tools return.
pub const PROSTHETIC_ROLLBACK_COUNTDOWN: u16 = 120;

pub const ASHINA_CROSS: UID = 5500;

pub const ONE_MIND: UID = 6100;

pub const SAKURA_DANCE: UID = 7700;

pub const ICHIMONJI: UID = 5300;

pub const ICHIMONJI_DOUBLE: UID = 7100;

pub const PRAYING_STRIKES: UID = 5900;

pub const PRAYING_STRIKES_EXORCISM: UID = 7500;

pub const SENPO_LEAPING_KICKS: UID = 5800;

pub const HIGH_MONK: UID = 7400;

pub const SHADOWRUSH: UID = 6000;

pub const SHADOWFALL: UID = 7600;

pub const MORTAL_DRAW: UID = 5700;

pub const EMPOWERED_MORTAL_DRAW: UID = 7300;

pub const ATTACK: u64 = 0x1;

pub const BLOCK: u64 = 0x4;

pub const JUMP: u64 = 0x10;

pub const DODGE: u64 = 0x2000;

pub const USE_PROSTHETIC: u64 = 0x40040002;

/// The art to try when `art` is not owned: an upgraded art falls back to its base form.
pub open spec fn fallback_of(art: UID) -> Option<UID> {
    if art == ICHIMONJI_DOUBLE {
        Some(ICHIMONJI)
    } else if art == PRAYING_STRIKES_EXORCISM {
        Some(PRAYING_STRIKES)
    } else if art == HIGH_MONK {
        Some(SENPO_LEAPING_KICKS)
    } else if art == SHADOWFALL {
        Some(SHADOWRUSH)
    } else if art == EMPOWERED_MORTAL_DRAW {
        Some(MORTAL_DRAW)
    } else {
        None
    }
}

pub fn fallback(art: UID) -> (r: Option<UID>)
    ensures
        r == fallback_of(art),
{
    if art == ICHIMONJI_DOUBLE {
        Some(ICHIMONJI)
    } else if art == PRAYING_STRIKES_EXORCISM {
        Some(PRAYING_STRIKES)
    } else if art == HIGH_MONK {
        Some(SENPO_LEAPING_KICKS)
    } else if art == SHADOWFALL {
        Some(SHADOWRUSH)
    } else if art == EMPOWERED_MORTAL_DRAW {
        Some(MORTAL_DRAW)
    } else {
        None
    }
}

/// How deep the fallback chain below `art` goes.
pub open spec fn fallback_depth(art: UID) -> nat {
    if fallback_of(art).is_some() {
        1
    } else {
        0
    }
}

/// The art that equipping `desired` ends with when `cur` is equipped: none where the chain
/// reaches the current art or runs out, else the first owned art of the chain.
pub open spec fn equip_chain(items: Seq<(UID, u32)>, cur: Option<UID>, desired: UID) -> Option<UID>
    decreases fallback_depth(desired),
{
    if cur == Some(desired) {
        None
    } else if item_of(items, desired).is_some() {
        Some(desired)
    } else {
        match fallback_of(desired) {
            Some(f) => if fallback_depth(f) < fallback_depth(desired) {
                equip_chain(items, cur, f)
            } else {
                None
            },
            None => None,
        }
    }
}

/// Arts with a sheathing phase and a drawing phase.
pub open spec fn is_sheathed(art: Option<UID>) -> bool {
    art == Some(ASHINA_CROSS) || art == Some(ONE_MIND)
}

pub fn art_is_sheathed(art: Option<UID>) -> (r: bool)
    ensures
        r == is_sheathed(art),
{
    match art {
        Some(a) => a == ASHINA_CROSS || a == ONE_MIND,
        None => false,
    }
}

/// Standard frames during which no other art may be equipped after `art` was performed.
pub open spec fn swapout_frames(art: Option<UID>) -> u16 {
    match art {
        Some(a) => if a == ASHINA_CROSS {
            75
        } else if a == ONE_MIND {
            240
        } else if a == SAKURA_DANCE {
            60
        } else {
            40
        },
        None => 0,
    }
}

pub fn swapout_cooldown(art: Option<UID>) -> (r: Frames)
    ensures
        r.0 == swapout_frames(art),
{
    match art {
        Some(a) => {
            let frames: u16 = if a == ASHINA_CROSS {
                75
            } else if a == ONE_MIND {
                240
            } else if a == SAKURA_DANCE {
                60
            } else {
                40
            };
            Frames::standard(frames)
        },
        None => Frames::standard(0),
    }
}

/// A countdown in frames. It counts on a condition until it counts once, then on every call.
#[derive(Clone, Copy, Debug, PartialEq, Eq, Structural)]
pub struct Countdown {
    pub value: u16,
    pub running: bool,
}

impl Countdown {
    pub fn zero() -> (r: Countdown)
        ensures
            r.value == 0,
            !r.running,
    {
        Countdown { value: 0, running: false }
    }

    /// A countdown of `frames` at `rate` frames per second.
    pub fn new(frames: Frames, rate: u16) -> (r: Countdown)
        ensures
            r.value == actual_frames(frames.0 as int, rate as int),
            !r.running,
    {
        Countdown { value: frames.as_actual(rate), running: false }
    }

    fn count(&mut self)
        requires
            old(self).value > 0,
        ensures
            final(self).value == old(self).value - 1,
            final(self).running,
    {
        self.value = self.value - 1;
        self.running = true;
    }

    /// Counts one frame if `cond` holds or the countdown has counted before.
    pub fn count_on(&mut self, cond: bool)
        requires
            old(self).value > 0,
        ensures
            *final(self) == if cond || old(self).running {
                Countdown { value: (old(self).value - 1) as u16, running: true }
            } else {
                *old(self)
            },
    {
        if cond || self.running {
            self.count();
        }
    }

    pub fn is_done(&self) -> (r: bool)
        ensures
            r == (self.value == 0),
    {
        self.value == 0
    }
}


/// What the host tells the library about a frame besides its action bits.
#[derive(Clone, Copy, Debug)]
pub struct FrameInput {
    /// When the frame began, in milliseconds on a monotonic clock.
    pub now_ms: u64,
    pub up: bool,
    pub right: bool,
    pub down: bool,
    pub left: bool,
    /// The extra mouse buttons.
    pub x1_down: bool,
    pub x2_down: bool,
    /// The left stick of a connected gamepad.
    pub stick: Option<(i16, i16)>,
}

/// The host's record of what the player asks for in a frame.
#[derive(Clone, Copy, Debug)]
pub struct InputHandler {
    pub action: u64,
}

/// Puts the item into a prosthetic slot.
fn equip_item(host: &mut HostState, out: &mut Vec<Command>, item: ItemID, slot: ProstheticSlot)
    ensures
        final(out)@ == old(out)@.push(Command::SetSlot((2 * slot.index()) as usize, item@)),
        final(host)@ == apply(old(host)@, Command::SetSlot((2 * slot.index()) as usize, item@)),
        final(host).equipped@ == old(host).equipped@.update(slot.index(), item@),
        final(host).active_slot == old(host).active_slot,
        final(host).item_ids == old(host).item_ids,
{
    let id = item.get();
    out.push(Command::SetSlot(slot.as_slot_index(), id));
    match slot {
        ProstheticSlot::S0 => host.equipped[0] = id,
        ProstheticSlot::S1 => host.equipped[1] = id,
        ProstheticSlot::S2 => host.equipped[2] = id,
    }
    assert(host.equipped@ =~= old(host).equipped@.update(slot.index(), item@));
    assert(host@ =~= apply(old(host)@, Command::SetSlot((2 * slot.index()) as usize, item@)));
}

/// Puts the tool `uid` into a prosthetic slot if the player owns it; returns whether it did.
fn equip_prosthetic(host: &mut HostState, out: &mut Vec<Command>, uid: UID, slot: ProstheticSlot) -> (r:
    bool)
    ensures
        r == item_of(old(host).item_ids@, uid).is_some(),
        r ==> final(out)@ == old(out)@.push(
            Command::SetSlot((2 * slot.index()) as usize, item_of(old(host).item_ids@, uid).unwrap()),
        ),
        r ==> final(host)@ == apply(
            old(host)@,
            Command::SetSlot((2 * slot.index()) as usize, item_of(old(host).item_ids@, uid).unwrap()),
        ),
        !r ==> *final(out) == *old(out) && *final(host) == *old(host),
        final(host).active_slot == old(host).active_slot,
        final(host).item_ids == old(host).item_ids,
{
    match host.item_id(uid) {
        Some(item) => {
            equip_item(host, out, item, slot);
            true
        },
        None => false,
    }
}

/// Puts the art `uid` into the combat art slot if the player owns it; returns whether it did.
fn set_combat_art(host: &HostState, out: &mut Vec<Command>, uid: UID) -> (r: bool)
    ensures
        r == item_of(host.item_ids@, uid).is_some(),
        r ==> final(out)@ == old(out)@.push(
            Command::SetSlot(COMBAT_ART_SLOT, item_of(host.item_ids@, uid).unwrap()),
        ),
        !r ==> *final(out) == *old(out),
{
    match host.item_id(uid) {
        Some(item) => {
            out.push(Command::SetSlot(COMBAT_ART_SLOT, item.get()));
            true
        },
        None => false,
    }
}

/// Makes a prosthetic slot the active one.
fn activate_prosthetic_slot(host: &mut HostState, out: &mut Vec<Command>, slot: ProstheticSlot)
    ensures
        final(out)@ == old(out)@.push(Command::ActivateProsthetic(slot)),
        final(host)@ == apply(old(host)@, Command::ActivateProsthetic(slot)),
        final(host).active_slot == slot,
        final(host).equipped == old(host).equipped,
        final(host).item_ids == old(host).item_ids,
{
    out.push(Command::ActivateProsthetic(slot));
    host.active_slot = slot;
}

/// The first slot, in the order of `tools`, that holds one of them.
pub open spec fn first_located(host: HostView, tools: Seq<UID>) -> Option<ProstheticSlot>
    decreases tools.len(),
{
    if tools.len() == 0 {
        None
    } else {
        match slot_of(host, tools[0]) {
            Some(s) => Some(s),
            None => first_located(host, tools.drop_first()),
        }
    }
}

fn locate_first(host: &HostState, tools: &Vec<UID>) -> (r: Option<ProstheticSlot>)
    ensures
        r == first_located(host@, tools@),
{
    let mut i: usize = 0;
    assert(tools@.subrange(0, tools@.len() as int) =~= tools@);
    while i < tools.len()
        invariant
            i <= tools@.len(),
            first_located(host@, tools@) == first_located(
                host@,
                tools@.subrange(i as int, tools@.len() as int),
            ),
        decreases tools@.len() - i,
    {
        let ghost rest = tools@.subrange(i as int, tools@.len() as int);
        assert(rest.drop_first() =~= tools@.subrange(i + 1, tools@.len() as int));
        let found = host.locate_prosthetic_tool(tools[i]);
        if found.is_some() {
            return found;
        }
        i = i + 1;
    }
    None
}

/// The first tool of `tools` that the player owns.
pub open spec fn first_owned(items: Seq<(UID, u32)>, tools: Seq<UID>) -> Option<UID>
    decreases tools.len(),
{
    if tools.len() == 0 {
        None
    } else if item_of(items, tools[0]).is_some() {
        Some(tools[0])
    } else {
        first_owned(items, tools.drop_first())
    }
}

/// Whether `tools` holds a tool whose item is `item`.
pub open spec fn holds_item(items: Seq<(UID, u32)>, tools: Seq<UID>, item: u32) -> bool {
    exists|i: int| 0 <= i < tools.len() && item_of(items, #[trigger] tools[i]) == Some(item)
}

fn copy_list(v: &Vec<UID>) -> (r: Vec<UID>)
    ensures
        r@ == v@,
{
    let mut r: Vec<UID> = Vec::new();
    let mut i: usize = 0;
    while i < v.len()
        invariant
            i <= v@.len(),
            r@ == v@.subrange(0, i as int),
        decreases v@.len() - i,
    {
        r.push(v[i]);
        i = i + 1;
        assert(r@ =~= v@.subrange(0, i as int));
    }
    assert(r@ =~= v@);
    r
}

impl Config {
    /// The tools bound to `inputs`; none where nothing is.
    pub open spec fn tools_of(&self, k: Seq<Input>) -> Seq<UID> {
        if self.tool_map().contains_key(k) {
            self.tool_map()[k]
        } else {
            seq![]
        }
    }

    pub fn tools_for(&self, inputs: Inputs) -> (r: Vec<UID>)
        requires
            self.wf(),
        ensures
            r@ == self.tools_of(inputs@),
    {
        match self.tools.get(inputs) {
            Some(place) => copy_list(&self.tool_lists[place]),
            None => Vec::new(),
        }
    }
}


/// Whether any bit of `mask` is set in `action`.
pub open spec fn bit_set(action: u64, mask: u64) -> bool {
    action & mask != 0
}

/// The tools asked for when the tool button goes down: those of the first extra button held
/// that has any, else those for block while blocking, else those of the motion unless it ran
/// out.
#[verifier::opaque]
pub open spec fn tools_on_use(
    c: Config,
    x1_down: bool,
    x2_down: bool,
    blocking: bool,
    expired: bool,
    motion: Seq<Input>,
) -> Seq<UID> {
    if x1_down && c.tools_on_x1@.len() > 0 {
        c.tools_on_x1@
    } else if x2_down && c.tools_on_x2@.len() > 0 {
        c.tools_on_x2@
    } else if blocking && c.tools_for_block@.len() > 0 {
        c.tools_for_block@
    } else if !expired {
        c.tools_of(motion)
    } else {
        seq![]
    }
}

/// The art asked for in a frame.
///
/// None while the swap lockout runs; on a fresh attack, the art of the motion unless it ran
/// out; on a fresh block, the default art if the motion ran out, else the art of the motion.
#[verifier::opaque]
pub open spec fn desired_art(
    c: Config,
    lockout_done: bool,
    attacked_just_now: bool,
    blocked_just_now: bool,
    expired: bool,
    motion: Seq<Input>,
) -> Option<UID> {
    if !lockout_done {
        None
    } else if attacked_just_now && !expired {
        lookup(c.arts@, motion)
    } else if blocked_just_now {
        if expired {
            lookup(c.arts@, seq![])
        } else {
            lookup(c.arts@, motion)
        }
    } else {
        None
    }
}

/// Whether a fresh attack performs an art without block: the motion is long enough to mean
/// an art and an art is bound to it.
#[verifier::opaque]
pub open spec fn block_free_art(
    c: Config,
    lockout_done: bool,
    attacked_just_now: bool,
    expired: bool,
    motion: Seq<Input>,
) -> bool {
    lockout_done && attacked_just_now && !expired && lookup(c.arts@, motion).is_some()
        && motion.len() >= 2
}

/// The art equipped after a frame that asked for `desired`.
pub open spec fn art_after(items: Seq<(UID, u32)>, cur: Option<UID>, desired: Option<UID>) -> Option<UID> {
    match desired {
        Some(d) => match equip_chain(items, cur, d) {
            Some(a) => Some(a),
            None => cur,
        },
        None => cur,
    }
}

/// Whether block is held for the player this frame, after the art's first frame.
#[verifier::opaque]
pub open spec fn keeps_injecting(
    injected: u8,
    jumping: bool,
    dodging: bool,
    sheathed: bool,
    attacking: bool,
    blocking: bool,
) -> bool {
    injected >= 1 && !(jumping || dodging) && if sheathed {
        attacking && !blocking
    } else {
        injected < BLOCK_INJECTION_DURATION
    }
}

/// The count of injected frames after this frame.
#[verifier::opaque]
pub open spec fn injected_after(
    injected: u8,
    block_free: bool,
    jumping: bool,
    dodging: bool,
    sheathed: bool,
    attacking: bool,
    blocking: bool,
) -> u8 {
    if block_free {
        1
    } else if injected >= 1 {
        if jumping || dodging {
            0
        } else if sheathed {
            if attacking && !blocking {
                injected
            } else {
                0
            }
        } else if injected < BLOCK_INJECTION_DURATION {
            (injected + 1) as u8
        } else {
            injected
        }
    } else {
        injected
    }
}

/// The action bits handed back to the host: block added for an art, block masked while a tool
/// bound to block is used, the tool bit added for the extra buttons, and attack and the tool
/// bit masked for a few frames after an equip.
#[verifier::opaque]
pub open spec fn corrected_action(
    action: u64,
    inject: bool,
    disable_block: bool,
    using_tool: bool,
    attack_delay: u8,
    prosthetic_delay: u8,
) -> u64 {
    let a1 = if inject {
        action | BLOCK
    } else {
        action
    };
    let a2 = if disable_block {
        a1 & !BLOCK
    } else {
        a1
    };
    let a3 = if using_tool {
        a2 | USE_PROSTHETIC
    } else {
        a2
    };
    let a4 = if attack_delay > 0 {
        a3 & !ATTACK
    } else {
        a3
    };
    if prosthetic_delay != 0 {
        a4 & !USE_PROSTHETIC
    } else {
        a4
    }
}

/// The state of the per-frame decisions: the bindings, the motion buffer, the frame rate, the
/// equipped art, last frame's buttons and the countdowns.
pub struct Mod {
    pub config: Config,
    pub buffer: InputBuffer,
    pub framerate: Framerate,
    pub cur_art: Option<UID>,
    pub blocking_last_frame: bool,
    pub attacking_last_frame: bool,
    pub using_tool_last_frame: bool,
    /// Lockout on art swaps after an art was performed.
    pub swapout_countdown: Countdown,
    /// Delay after a tool's use before the default tools return.
    pub rollback_countdown: Countdown,
    pub attack_delay: u8,
    pub prosthetic_delay: u8,
    pub injected_blocks: u8,
    pub disable_block: bool,
    /// The active slot before the library first switched it, to go back to.
    pub prev_slot: Option<ProstheticSlot>,
    /// A tool that the library moved out of a slot, and that slot.
    pub ejection: Option<(ItemID, ProstheticSlot)>,
}

/// Whether one of `tools` is the item `item`.
fn holds(host: &HostState, tools: &Vec<UID>, item: u32) -> (r: bool)
    ensures
        r == holds_item(host.item_ids@, tools@, item),
{
    let mut i: usize = 0;
    while i < tools.len()
        invariant
            i <= tools@.len(),
            forall|j: int| 0 <= j < i ==> item_of(host.item_ids@, #[trigger] tools@[j]) != Some(item),
        decreases tools@.len() - i,
    {
        if let Some(id) = host.item_id(tools[i]) {
            if id.get() == item {
                return true;
            }
        }
        i = i + 1;
    }
    false
}

/// Puts the first owned tool of `tools` into `slot`; returns whether one was owned.
fn equip_first_owned(
    host: &mut HostState,
    out: &mut Vec<Command>,
    tools: &Vec<UID>,
    slot: ProstheticSlot,
) -> (r: bool)
    ensures
        r == first_owned(old(host).item_ids@, tools@).is_some(),
        r ==> final(out)@ == old(out)@.push(
            Command::SetSlot(
                (2 * slot.index()) as usize,
                item_of(old(host).item_ids@, first_owned(old(host).item_ids@, tools@).unwrap()).unwrap(),
            ),
        ),
        r ==> final(host)@ == apply(
            old(host)@,
            Command::SetSlot(
                (2 * slot.index()) as usize,
                item_of(old(host).item_ids@, first_owned(old(host).item_ids@, tools@).unwrap()).unwrap(),
            ),
        ),
        !r ==> *final(out) == *old(out) && *final(host) == *old(host),
        final(host).active_slot == old(host).active_slot,
        final(host).item_ids == old(host).item_ids,
{
    let mut i: usize = 0;
    assert(tools@.subrange(0, tools@.len() as int) =~= tools@);
    while i < tools.len()
        invariant
            i <= tools@.len(),
            *host == *old(host),
            *out == *old(out),
            first_owned(host.item_ids@, tools@) == first_owned(
                host.item_ids@,
                tools@.subrange(i as int, tools@.len() as int),
            ),
        decreases tools@.len() - i,
    {
        let ghost rest = tools@.subrange(i as int, tools@.len() as int);
        assert(rest.drop_first() =~= tools@.subrange(i + 1, tools@.len() as int));
        if equip_prosthetic(host, out, tools[i], slot) {
            return true;
        }
        i = i + 1;
    }
    false
}

/// Equips `desired`, or the first owned art of its fallback chain, unless the chain reaches
/// the current art first; returns the art equipped.
fn equip_art_chain(host: &HostState, out: &mut Vec<Command>, cur: Option<UID>, desired: UID) -> (r:
    Option<UID>)
    ensures
        r == equip_chain(host.item_ids@, cur, desired),
        final(out)@ == old(out)@ + if r.is_some() {
            seq![Command::SetSlot(COMBAT_ART_SLOT, item_of(host.item_ids@, r.unwrap()).unwrap())]
        } else {
            seq![]
        },
    decreases fallback_depth(desired),
{
    if cur == Some(desired) {
        assert(out@ =~= old(out)@ + seq![]);
        return None;
    }
    if set_combat_art(host, out, desired) {
        assert(out@ =~= old(out)@ + seq![Command::SetSlot(COMBAT_ART_SLOT, item_of(host.item_ids@, desired).unwrap())]);
        return Some(desired);
    }
    match fallback(desired) {
        Some(f) => equip_art_chain(host, out, cur, f),
        None => {
            assert(out@ =~= old(out)@ + seq![]);
            None
        },
    }
}

/// A displaced tool as its item and its slot.
pub open spec fn ejection_view(e: Option<(ItemID, ProstheticSlot)>) -> Option<(u32, ProstheticSlot)> {
    match e {
        Some((item, slot)) => Some((item@, slot)),
        None => None,
    }
}

/// The changes asked of the host, and the slot and displaced tool remembered afterwards.
pub struct ToolOutcome {
    pub commands: Seq<Command>,
    pub prev_slot: Option<ProstheticSlot>,
    pub ejection: Option<(u32, ProstheticSlot)>,
}

/// Going back to the slot and the tool from before the library changed them, when the
/// rollback delay ran out with no default tools.
pub open spec fn rollback_commands(
    prev: Option<ProstheticSlot>,
    ej: Option<(u32, ProstheticSlot)>,
    rolls_back: bool,
) -> Seq<Command> {
    (if rolls_back && prev.is_some() {
        seq![Command::ActivateProsthetic(prev.unwrap())]
    } else {
        seq![]
    }) + (if rolls_back && ej.is_some() {
        seq![Command::SetSlot((2 * ej.unwrap().1.index()) as usize, ej.unwrap().0)]
    } else {
        seq![]
    })
}

/// Putting back a displaced tool once its slot is no longer the active one.
pub open spec fn revert_commands(ej: Option<(u32, ProstheticSlot)>, active: ProstheticSlot) -> Seq<
    Command,
> {
    if ej.is_some() && active != ej.unwrap().1 {
        seq![Command::SetSlot((2 * ej.unwrap().1.index()) as usize, ej.unwrap().0)]
    } else {
        seq![]
    }
}

/// Bringing `tools` into play: a slot that holds one of them is activated; otherwise a
/// displaced tool among them goes back to its slot; otherwise the first owned one goes into
/// the active slot, and the tool that it displaces is remembered unless one already is.
pub open spec fn equip_outcome(
    prev: Option<ProstheticSlot>,
    ej: Option<(u32, ProstheticSlot)>,
    h: HostView,
    tools: Seq<UID>,
) -> ToolOutcome {
    if tools.len() == 0 {
        ToolOutcome { commands: seq![], prev_slot: prev, ejection: ej }
    } else {
        match first_located(h, tools) {
            Some(target) => if target != h.active {
                ToolOutcome {
                    commands: seq![Command::ActivateProsthetic(target)],
                    prev_slot: if prev.is_some() {
                        prev
                    } else {
                        Some(h.active)
                    },
                    ejection: ej,
                }
            } else {
                ToolOutcome { commands: seq![], prev_slot: prev, ejection: ej }
            },
            None => if ej.is_some() && holds_item(h.items, tools, ej.unwrap().0) {
                ToolOutcome {
                    commands: seq![
                        Command::SetSlot((2 * ej.unwrap().1.index()) as usize, ej.unwrap().0),
                    ],
                    prev_slot: prev,
                    ejection: None,
                }
            } else {
                match first_owned(h.items, tools) {
                    Some(tool) => ToolOutcome {
                        commands: seq![
                            Command::SetSlot(
                                (2 * h.active.index()) as usize,
                                item_of(h.items, tool).unwrap(),
                            ),
                        ],
                        prev_slot: prev,
                        ejection: if ej.is_none() && tool_in(h, h.active).is_some() {
                            Some((tool_in(h, h.active).unwrap(), h.active))
                        } else {
                            ej
                        },
                    },
                    None => ToolOutcome { commands: seq![], prev_slot: prev, ejection: ej },
                }
            },
        }
    }
}

/// What a frame's tool decisions do, from the remembered slot and displaced tool, the host,
/// the tools asked for, and whether the rollback happens.
#[verifier::opaque]
pub open spec fn tool_outcome(
    prev: Option<ProstheticSlot>,
    ej: Option<(u32, ProstheticSlot)>,
    h: HostView,
    tools: Seq<UID>,
    rolls_back: bool,
) -> ToolOutcome {
    let c1 = rollback_commands(prev, ej, rolls_back);
    let h1 = apply_all(h, c1);
    let prev1 = if rolls_back {
        None
    } else {
        prev
    };
    let ej1 = if rolls_back {
        None
    } else {
        ej
    };
    let c2 = revert_commands(ej1, h1.active);
    let h2 = apply_all(h1, c2);
    let ej2 = if c2.len() > 0 {
        None
    } else {
        ej1
    };
    let e = equip_outcome(prev1, ej2, h2, tools);
    ToolOutcome { commands: c1 + c2 + e.commands, prev_slot: e.prev_slot, ejection: e.ejection }
}

/// Whether the stick is read this frame rather than the keys.
pub open spec fn uses_stick(frame: FrameInput) -> bool {
    frame.stick.is_some() && frame.stick.unwrap() != (0i16, 0i16)
}

/// The motion after this frame's directions were read.
#[verifier::opaque]
pub open spec fn motion_after(b: InputBuffer, frame: FrameInput, rate: int) -> Seq<Input> {
    if uses_stick(frame) {
        b.stick_motion(frame.stick.unwrap().0 as int, frame.stick.unwrap().1 as int, rate)
    } else {
        b.keys_motion(frame.up, frame.right, frame.down, frame.left, rate)
    }
}

/// The buffer's age after this frame's directions were read.
pub open spec fn idle_after(b: InputBuffer, frame: FrameInput) -> int {
    if uses_stick(frame) {
        aged(b.idle(), b.stick_pressed(frame.stick.unwrap().0 as int, frame.stick.unwrap().1 as int))
    } else {
        aged(b.idle(), b.keys_pressed(frame.up, frame.right, frame.down, frame.left))
    }
}

/// Whether the stick is neutral after this frame's directions were read.
pub open spec fn neutral_after(b: InputBuffer, frame: FrameInput) -> bool {
    if uses_stick(frame) {
        !b.stick_outside(frame.stick.unwrap().0 as int, frame.stick.unwrap().1 as int)
    } else {
        b.neutral()
    }
}

/// Which keys are down after this frame's directions were read.
pub open spec fn keys_after(b: InputBuffer, frame: FrameInput) -> Seq<bool> {
    if uses_stick(frame) {
        b.keys()
    } else {
        seq![frame.up, frame.right, frame.down, frame.left]
    }
}

/// Whether the motion has run out after this frame's directions were read.
#[verifier::opaque]
pub open spec fn expired_after(b: InputBuffer, frame: FrameInput, rate: int) -> bool {
    let k = keys_after(b, frame);
    expired_when(
        motion_after(b, frame, rate).len() as int,
        idle_after(b, frame),
        neutral_after(b, frame) && !k[0] && !k[1] && !k[2] && !k[3],
        rate,
    )
}

impl Mod {
    pub open spec fn wf(&self) -> bool {
        self.config.wf()
    }

    /// A state with no bindings, nothing equipped and every countdown done.
    pub fn new() -> (r: Mod)
        ensures
            r.wf(),
            r.cur_art.is_none(),
            r.buffer.motion() == Seq::<Input>::empty(),
            r.buffer.idle() == 0,
            r.buffer.neutral(),
            r.buffer.keys() == seq![false, false, false, false],
            r.framerate.last_rate() == DEFAULT_FRAMERATE,
            r.framerate.window_frames() == 0,
            r.framerate.window_start().is_none(),
            r.framerate.samples() == 0,
            !r.framerate.unlocked(),
            r.config.arts@ == Map::<Seq<Input>, UID>::empty(),
            r.config.tool_map() == Map::<Seq<Input>, Seq<UID>>::empty(),
            r.config.tools_for_block@ == Seq::<UID>::empty(),
            r.config.tools_on_x1@ == Seq::<UID>::empty(),
            r.config.tools_on_x2@ == Seq::<UID>::empty(),
            r.swapout_countdown.value == 0,
            !r.swapout_countdown.running,
            !r.rollback_countdown.running,
            r.rollback_countdown.value == 0,
            r.attack_delay == 0,
            r.prosthetic_delay == 0,
            r.injected_blocks == 0,
            !r.disable_block,
            r.prev_slot.is_none(),
            r.ejection.is_none(),
            !r.blocking_last_frame && !r.attacking_last_frame && !r.using_tool_last_frame,
    {
        Mod {
            config: Config::new(),
            buffer: InputBuffer::new(),
            framerate: Framerate::new(),
            cur_art: None,
            blocking_last_frame: false,
            attacking_last_frame: false,
            using_tool_last_frame: false,
            swapout_countdown: Countdown::zero(),
            rollback_countdown: Countdown::zero(),
            attack_delay: 0,
            prosthetic_delay: 0,
            injected_blocks: 0,
            disable_block: false,
            prev_slot: None,
            ejection: None,
        }
    }

    /// Replaces the bindings at once, so no frame sees half of them.
    pub fn load_config(&mut self, config: Config)
        requires
            config.wf(),
        ensures
            final(self).config == config,
            final(self).wf(),
    {
        self.config = config;
    }

    /// The equipped art, as far as the library equipped it.
    pub fn cur_art(&self) -> (r: Option<UID>)
        ensures
            r == self.cur_art,
    {
        self.cur_art
    }

    /// Picks the tools to equip this frame and, once the rollback delay ran out with no
    /// default tools, goes back to the slot and the tool that the library displaced.
    fn desired_tools(
        &mut self,
        host: &mut HostState,
        out: &mut Vec<Command>,
        frame: &FrameInput,
        blocking: bool,
        using_tool: bool,
        used_tool_just_now: bool,
        expired: bool,
        inputs: Inputs,
        rate: u16,
    ) -> (r: Vec<UID>)
        requires
            old(self).wf(),
        ensures
            final(self).wf(),
            r@ == if used_tool_just_now {
                tools_on_use(old(self).config, frame.x1_down, frame.x2_down, blocking, expired, inputs@)
            } else if old(self).rollback_countdown.value == 0 {
                old(self).config.tools_of(seq![])
            } else {
                seq![]
            },
            final(self).rollback_countdown == if used_tool_just_now {
                Countdown {
                    value: actual_frames(PROSTHETIC_ROLLBACK_COUNTDOWN as int, rate as int) as u16,
                    running: false,
                }
            } else if old(self).rollback_countdown.value == 0 {
                old(self).rollback_countdown
            } else if !using_tool || old(self).rollback_countdown.running {
                Countdown { value: (old(self).rollback_countdown.value - 1) as u16, running: true }
            } else {
                old(self).rollback_countdown
            },
            ({
                let rolls_back = !used_tool_just_now && old(self).rollback_countdown.value == 0
                    && old(self).config.tools_of(seq![]).len() == 0;
                let cmds = rollback_commands(
                    old(self).prev_slot,
                    ejection_view(old(self).ejection),
                    rolls_back,
                );
                &&& final(self).prev_slot == if rolls_back {
                    None
                } else {
                    old(self).prev_slot
                }
                &&& final(self).ejection == if rolls_back {
                    None
                } else {
                    old(self).ejection
                }
                &&& final(out)@ == old(out)@ + cmds
                &&& final(host)@ == apply_all(old(host)@, cmds)
            }),
            final(host).item_ids == old(host).item_ids,
            final(self).config == old(self).config,
            final(self).cur_art == old(self).cur_art,
            final(self).swapout_countdown == old(self).swapout_countdown,
            final(self).attack_delay == old(self).attack_delay,
            final(self).prosthetic_delay == old(self).prosthetic_delay,
            final(self).injected_blocks == old(self).injected_blocks,
            final(self).disable_block == old(self).disable_block,
            final(self).buffer == old(self).buffer,
            final(self).framerate == old(self).framerate,
            final(self).blocking_last_frame == old(self).blocking_last_frame,
            final(self).attacking_last_frame == old(self).attacking_last_frame,
            final(self).using_tool_last_frame == old(self).using_tool_last_frame,
    {
        reveal(tools_on_use);
        let ghost out0 = out@;
        if used_tool_just_now {
            // the alternative tools are equipped right before their use only, so that the
            // slot does not change on plain movement
            self.rollback_countdown = Countdown::new(
                Frames::standard(PROSTHETIC_ROLLBACK_COUNTDOWN),
                rate,
            );
            assert(out@ =~= out0 + (seq![] + seq![]));
            assert(host@ == apply_all(host@, seq![]));
            if frame.x1_down && self.config.tools_on_x1.len() > 0 {
                copy_list(&self.config.tools_on_x1)
            } else if frame.x2_down && self.config.tools_on_x2.len() > 0 {
                copy_list(&self.config.tools_on_x2)
            } else if blocking && self.config.tools_for_block.len() > 0 {
                copy_list(&self.config.tools_for_block)
            } else if !expired {
                self.config.tools_for(inputs)
            } else {
                Vec::new()
            }
        } else if self.rollback_countdown.is_done() {
            // the default tools return as soon as the delay ran out
            let tools = self.config.tools_for(Inputs::new());
            if tools.len() == 0 {
                // with no default tools, go back to the slot and the tool from before
                let ghost h0 = host@;
                let ghost a: Seq<Command> = if old(self).prev_slot.is_some() {
                    seq![Command::ActivateProsthetic(old(self).prev_slot.unwrap())]
                } else {
                    seq![]
                };
                if let Some(prev_slot) = self.prev_slot.take() {
                    activate_prosthetic_slot(host, out, prev_slot);
                    proof {
                        lemma_apply_one(h0, Command::ActivateProsthetic(prev_slot));
                    }
                }
                assert(host@ == apply_all(h0, a));
                let ghost h1 = host@;
                let ghost b: Seq<Command> = if old(self).ejection.is_some() {
                    seq![
                        Command::SetSlot(
                            (2 * old(self).ejection.unwrap().1.index()) as usize,
                            old(self).ejection.unwrap().0@,
                        ),
                    ]
                } else {
                    seq![]
                };
                if let Some((ejected_tool, original_slot)) = self.ejection.take() {
                    equip_item(host, out, ejected_tool, original_slot);
                    proof {
                        lemma_apply_one(
                            h1,
                            Command::SetSlot((2 * original_slot.index()) as usize, ejected_tool@),
                        );
                    }
                }
                assert(host@ == apply_all(h1, b));
                proof {
                    lemma_apply_all_append(h0, a, b);
                }
                assert(out@ =~= out0 + (a + b));
            } else {
                assert(out@ =~= out0 + (seq![] + seq![]));
                assert(host@ == apply_all(host@, seq![]));
            }
            tools
        } else {
            self.rollback_countdown.count_on(!using_tool);
            assert(out@ =~= out0 + (seq![] + seq![]));
            assert(host@ == apply_all(host@, seq![]));
            Vec::new()
        }
    }

    /// Puts back the tool that the library displaced once its slot is no longer active.
    fn revert_ejection(&mut self, host: &mut HostState, out: &mut Vec<Command>)
        ensures
            ({
                let cmds = revert_commands(ejection_view(old(self).ejection), old(host)@.active);
                &&& final(out)@ == old(out)@ + cmds
                &&& final(host)@ == apply_all(old(host)@, cmds)
                &&& final(self).ejection == if cmds.len() > 0 {
                    None
                } else {
                    old(self).ejection
                }
            }),
            final(host).item_ids == old(host).item_ids,
            *final(self) == (Mod { ejection: final(self).ejection, ..*old(self) }),
    {
        let ghost h0 = host@;
        let active_slot = host.active_slot;
        if let Some((ejected_tool, original_slot)) = self.ejection {
            if active_slot != original_slot {
                equip_item(host, out, ejected_tool, original_slot);
                self.ejection = None;
                let ghost c = Command::SetSlot((2 * original_slot.index()) as usize, ejected_tool@);
                proof {
                    lemma_apply_one(h0, c);
                }
                assert(out@ =~= old(out)@ + seq![c]);
                return ;
            }
        }
        assert(out@ =~= old(out)@ + seq![]);
        assert(host@ == apply_all(h0, seq![]));
    }

    /// Brings the desired tools into play: a slot that holds one of them is activated;
    /// otherwise a displaced tool among them goes back to its slot; otherwise the first owned
    /// one goes into the active slot, and the tool it displaces is remembered.
    fn equip_tools(&mut self, host: &mut HostState, out: &mut Vec<Command>, tools: &Vec<UID>)
        ensures
            ({
                let e = equip_outcome(
                    old(self).prev_slot,
                    ejection_view(old(self).ejection),
                    old(host)@,
                    tools@,
                );
                &&& final(out)@ == old(out)@ + e.commands
                &&& final(host)@ == apply_all(old(host)@, e.commands)
                &&& final(self).prev_slot == e.prev_slot
                &&& ejection_view(final(self).ejection) == e.ejection
            }),
            final(host).item_ids == old(host).item_ids,
            final(self).prosthetic_delay == if tools@.len() > 0 {
                PROSTHETIC_SUPRESSION_DURATION
            } else {
                old(self).prosthetic_delay
            },
            *final(self) == (Mod {
                prev_slot: final(self).prev_slot,
                ejection: final(self).ejection,
                prosthetic_delay: final(self).prosthetic_delay,
                ..*old(self)
            }),
    {
        let ghost h0 = host@;
        if tools.len() == 0 {
            assert(out@ =~= old(out)@ + seq![]);
            assert(host@ == apply_all(h0, seq![]));
            return ;
        }
        let active_slot = host.active_slot;
        match locate_first(host, tools) {
            Some(target_slot) => {
                // a tool that is already in some slot goes first
                if target_slot != active_slot {
                    if self.prev_slot.is_none() {
                        self.prev_slot = Some(active_slot);
                    }
                    activate_prosthetic_slot(host, out, target_slot);
                    proof {
                        lemma_apply_one(h0, Command::ActivateProsthetic(target_slot));
                    }
                    assert(out@ =~= old(out)@ + seq![Command::ActivateProsthetic(target_slot)]);
                } else {
                    assert(out@ =~= old(out)@ + seq![]);
                    assert(host@ == apply_all(h0, seq![]));
                }
            },
            None => {
                let mut equipped = false;
                if let Some((ejected_tool, original_slot)) = self.ejection {
                    if holds(host, tools, ejected_tool.get()) {
                        equip_item(host, out, ejected_tool, original_slot);
                        equipped = true;
                        self.ejection = None;
                        let ghost c = Command::SetSlot(
                            (2 * original_slot.index()) as usize,
                            ejected_tool@,
                        );
                        proof {
                            lemma_apply_one(h0, c);
                        }
                        assert(out@ =~= old(out)@ + seq![c]);
                    }
                }
                if !equipped {
                    // the tool goes into the active slot, so no slot needs activating in the
                    // same frame, which the host handles badly; only the first tool displaced
                    // is the player's own, so only that one is remembered
                    let active_tool = host.prosthetic_tool(active_slot);
                    if equip_first_owned(host, out, tools, active_slot) {
                        if let Some(active_tool) = active_tool {
                            if self.ejection.is_none() {
                                self.ejection = Some((active_tool, active_slot));
                            }
                        }
                        let ghost c = Command::SetSlot(
                            (2 * active_slot.index()) as usize,
                            item_of(h0.items, first_owned(h0.items, tools@).unwrap()).unwrap(),
                        );
                        proof {
                            lemma_apply_one(h0, c);
                        }
                        assert(out@ =~= old(out)@ + seq![c]);
                    } else {
                        assert(out@ =~= old(out)@ + seq![]);
                        assert(host@ == apply_all(h0, seq![]));
                    }
                }
            },
        }
        self.prosthetic_delay = PROSTHETIC_SUPRESSION_DURATION;
    }

    /// Makes this frame's tool decisions; returns whether tools were asked for.
    fn tool_phase(
        &mut self,
        host: &mut HostState,
        out: &mut Vec<Command>,
        frame: &FrameInput,
        blocking: bool,
        using_tool: bool,
        used_tool_just_now: bool,
        expired: bool,
        inputs: Inputs,
        rate: u16,
    ) -> (r: bool)
        requires
            old(self).wf(),
        ensures
            ({
                let tools = if used_tool_just_now {
                    tools_on_use(
                        old(self).config,
                        frame.x1_down,
                        frame.x2_down,
                        blocking,
                        expired,
                        inputs@,
                    )
                } else if old(self).rollback_countdown.value == 0 {
                    old(self).config.tools_of(seq![])
                } else {
                    seq![]
                };
                let rolls_back = !used_tool_just_now && old(self).rollback_countdown.value == 0
                    && old(self).config.tools_of(seq![]).len() == 0;
                let o = tool_outcome(
                    old(self).prev_slot,
                    ejection_view(old(self).ejection),
                    old(host)@,
                    tools,
                    rolls_back,
                );
                &&& r == (tools.len() > 0)
                &&& final(out)@ == old(out)@ + o.commands
                &&& final(host)@ == apply_all(old(host)@, o.commands)
                &&& final(self).prev_slot == o.prev_slot
                &&& ejection_view(final(self).ejection) == o.ejection
            }),
            final(self).prosthetic_delay == if r {
                PROSTHETIC_SUPRESSION_DURATION
            } else {
                old(self).prosthetic_delay
            },
            final(self).rollback_countdown == if used_tool_just_now {
                Countdown {
                    value: actual_frames(PROSTHETIC_ROLLBACK_COUNTDOWN as int, rate as int) as u16,
                    running: false,
                }
            } else if old(self).rollback_countdown.value == 0 {
                old(self).rollback_countdown
            } else if !using_tool || old(self).rollback_countdown.running {
                Countdown { value: (old(self).rollback_countdown.value - 1) as u16, running: true }
            } else {
                old(self).rollback_countdown
            },
            final(self).wf(),
            final(host).item_ids == old(host).item_ids,
            *final(self) == (Mod {
                prev_slot: final(self).prev_slot,
                ejection: final(self).ejection,
                prosthetic_delay: final(self).prosthetic_delay,
                rollback_countdown: final(self).rollback_countdown,
                ..*old(self)
            }),
    {
        let ghost h0 = host@;
        let ghost out0 = out@;
        let ghost prev0 = self.prev_slot;
        let ghost ej0 = ejection_view(self.ejection);
        let ghost rolls_back = !used_tool_just_now && self.rollback_countdown.value == 0
            && self.config.tools_of(seq![]).len() == 0;
        let desired_tools = self.desired_tools(
            host,
            out,
            frame,
            blocking,
            using_tool,
            used_tool_just_now,
            expired,
            inputs,
            rate,
        );
        let ghost c1 = rollback_commands(prev0, ej0, rolls_back);
        let ghost h1 = host@;
        let ghost out1 = out@;
        let ghost ej1 = ejection_view(self.ejection);
        let ghost prev1 = self.prev_slot;
        assert(h1 == apply_all(h0, c1));
        assert(ej1 == if rolls_back {
            None
        } else {
            ej0
        });
        self.revert_ejection(host, out);
        let ghost c2 = revert_commands(ej1, h1.active);
        let ghost h2 = host@;
        let ghost out2 = out@;
        let ghost ej2 = ejection_view(self.ejection);
        assert(ej2 == if c2.len() > 0 {
            None
        } else {
            ej1
        });
        self.equip_tools(host, out, &desired_tools);
        let ghost e = equip_outcome(prev1, ej2, h2, desired_tools@);
        proof {
            assert(out@ =~= out0 + (c1 + c2 + e.commands));
            lemma_apply_all_append(h0, c1, c2);
            lemma_apply_all_append(h0, c1 + c2, e.commands);
            reveal(tool_outcome);
            assert(tool_outcome(prev0, ej0, h0, desired_tools@, rolls_back) == ToolOutcome {
                commands: c1 + c2 + e.commands,
                prev_slot: e.prev_slot,
                ejection: e.ejection,
            });
        }
        desired_tools.len() > 0
    }

    /// The motion after this frame's directions were read at `rate`.
    pub open spec fn motion_in(self, frame: FrameInput, rate: int) -> Seq<Input> {
        motion_after(self.buffer, frame, rate)
    }

    /// Whether the motion has run out after this frame's directions were read at `rate`.
    pub open spec fn expired_in(self, frame: FrameInput, rate: int) -> bool {
        expired_after(self.buffer, frame, rate)
    }

    /// Whether the tool button, or an extra button with tools, is held.
    pub open spec fn using_tool_in(self, frame: FrameInput, action: u64) -> bool {
        bit_set(action, USE_PROSTHETIC) || (frame.x1_down && self.config.tools_on_x1@.len() > 0) || (
        frame.x2_down && self.config.tools_on_x2@.len() > 0)
    }

    /// The tools asked for in a frame.
    pub open spec fn tools_in(self, frame: FrameInput, action: u64, rate: int) -> Seq<UID> {
        if !self.using_tool_last_frame && self.using_tool_in(frame, action) {
            tools_on_use(
                self.config,
                frame.x1_down,
                frame.x2_down,
                bit_set(action, BLOCK),
                self.expired_in(frame, rate),
                self.motion_in(frame, rate),
            )
        } else if self.rollback_countdown.value == 0 {
            self.config.tools_of(seq![])
        } else {
            seq![]
        }
    }

    /// The art asked for in a frame.
    pub open spec fn art_in(self, frame: FrameInput, action: u64, rate: int) -> Option<UID> {
        desired_art(
            self.config,
            self.swapout_countdown.value == 0,
            !self.attacking_last_frame && bit_set(action, ATTACK),
            !self.blocking_last_frame && bit_set(action, BLOCK),
            self.expired_in(frame, rate),
            self.motion_in(frame, rate),
        )
    }

    /// Whether a frame performs an art without block.
    pub open spec fn block_free_in(self, frame: FrameInput, action: u64, rate: int) -> bool {
        block_free_art(
            self.config,
            self.swapout_countdown.value == 0,
            !self.attacking_last_frame && bit_set(action, ATTACK),
            self.expired_in(frame, rate),
            self.motion_in(frame, rate),
        )
    }

    /// The art that a frame equips, if any.
    pub open spec fn equipped_in(
        self,
        items: Seq<(UID, u32)>,
        frame: FrameInput,
        action: u64,
        rate: int,
    ) -> Option<UID> {
        match self.art_in(frame, action, rate) {
            Some(d) => equip_chain(items, self.cur_art, d),
            None => None,
        }
    }

    /// Reads this frame's directions; returns the motion and whether it ran out.
    fn read_directions(&mut self, frame: &FrameInput, rate: u16) -> (r: (Inputs, bool))
        ensures
            r.0@ == old(self).motion_in(*frame, rate as int),
            r.0@ == final(self).buffer.motion(),
            r.1 == old(self).expired_in(*frame, rate as int),
            final(self).buffer.is_expired(rate as int) == r.1,
            final(self).buffer.idle() == idle_after(old(self).buffer, *frame),
            final(self).buffer.neutral() == neutral_after(old(self).buffer, *frame),
            final(self).buffer.keys() == keys_after(old(self).buffer, *frame),
            *final(self) == (Mod { buffer: final(self).buffer, ..*old(self) }),
    {
        reveal(motion_after);
        reveal(expired_after);
        let inputs = match frame.stick {
            Some((x, y)) if x != 0 || y != 0 => self.buffer.update_joystick(x, y, rate),
            _ => self.buffer.update_keys(frame.up, frame.right, frame.down, frame.left, rate),
        };
        let expired = self.buffer.expired(rate);
        (inputs, expired)
    }

    /// Decides the art asked for and runs the swap lockout; returns the art and whether it is
    /// performed without block.
    fn decide_art(
        &mut self,
        attacking: bool,
        blocking: bool,
        attacked_just_now: bool,
        blocked_just_now: bool,
        expired: bool,
        inputs: Inputs,
        rate: u16,
    ) -> (r: (Option<UID>, bool))
        requires
            old(self).wf(),
            inputs@ == old(self).buffer.motion(),
        ensures
            ({
                let lockout_done = old(self).swapout_countdown.value == 0;
                let c = old(self).config;
                &&& r.0 == desired_art(
                    c,
                    lockout_done,
                    attacked_just_now,
                    blocked_just_now,
                    expired,
                    inputs@,
                )
                &&& r.1 == block_free_art(c, lockout_done, attacked_just_now, expired, inputs@)
                &&& final(self).buffer.motion() == if lockout_done && !(attacked_just_now
                    && !expired) && blocked_just_now && expired {
                    seq![]
                } else {
                    inputs@
                }
                &&& final(self).buffer.idle() == if lockout_done && !(attacked_just_now
                    && !expired) && blocked_just_now && expired {
                    0
                } else {
                    old(self).buffer.idle()
                }
                &&& final(self).buffer.neutral() == old(self).buffer.neutral()
                &&& final(self).buffer.keys() == old(self).buffer.keys()
                &&& final(self).swapout_countdown == if (blocking && attacked_just_now) || r.1 {
                    Countdown {
                        value: actual_frames(
                            swapout_frames(old(self).cur_art) as int,
                            rate as int,
                        ) as u16,
                        running: false,
                    }
                } else if lockout_done {
                    old(self).swapout_countdown
                } else if !attacking || old(self).swapout_countdown.running {
                    Countdown {
                        value: (old(self).swapout_countdown.value - 1) as u16,
                        running: true,
                    }
                } else {
                    old(self).swapout_countdown
                }
            }),
            *final(self) == (Mod {
                buffer: final(self).buffer,
                swapout_countdown: final(self).swapout_countdown,
                ..*old(self)
            }),
    {
        reveal(desired_art);
        reveal(block_free_art);
        let mut block_free = false;
        let desired_art = if !self.swapout_countdown.is_done() {
            // arts such as One Mind misbehave when another art is equipped too soon after
            // them; the lockout starts counting once attack is released
            self.swapout_countdown.count_on(!attacking);
            None
        } else if attacked_just_now && !expired {
            // the art is switched right before it is performed only
            let art = self.config.arts.get(inputs);
            if art.is_some() && inputs.meant_for_art() {
                block_free = true;
            }
            art
        } else if blocked_just_now {
            if expired {
                // with no recent motion, block returns to the default art; the buffer is
                // cleared so that the next frames keep asking for it
                self.buffer.clear();
                self.config.arts.get(Inputs::new())
            } else {
                self.config.arts.get(inputs)
            }
        } else {
            None
        };
        if (blocking && attacked_just_now) || block_free {
            self.swapout_countdown = Countdown::new(swapout_cooldown(self.cur_art), rate);
        }
        (desired_art, block_free)
    }

    /// Adds and masks action bits for the art, the tools and the countdowns after equips.
    fn correct_action(
        &mut self,
        action: u64,
        block_free: bool,
        used_tool_just_now: bool,
        using_tool: bool,
        blocked_just_now: bool,
    ) -> (r: u64)
        ensures
            ({
                let attacking = bit_set(action, ATTACK);
                let blocking = bit_set(action, BLOCK);
                let jumping = bit_set(action, JUMP);
                let dodging = bit_set(action, DODGE);
                let sheathed = is_sheathed(old(self).cur_art);
                let inject = block_free || keeps_injecting(
                    old(self).injected_blocks,
                    jumping,
                    dodging,
                    sheathed,
                    attacking,
                    blocking,
                );
                let disable = (used_tool_just_now || old(self).disable_block) && !(
                blocked_just_now || block_free || !using_tool);
                &&& r == corrected_action(
                    action,
                    inject,
                    disable,
                    using_tool,
                    old(self).attack_delay,
                    old(self).prosthetic_delay,
                )
                &&& final(self).injected_blocks == injected_after(
                    old(self).injected_blocks,
                    block_free,
                    jumping,
                    dodging,
                    sheathed,
                    attacking,
                    blocking,
                )
                &&& final(self).disable_block == disable
            }),
            final(self).attack_delay == if old(self).attack_delay > 0 {
                old(self).attack_delay - 1
            } else {
                0
            },
            final(self).prosthetic_delay == if old(self).prosthetic_delay > 0 {
                old(self).prosthetic_delay - 1
            } else {
                0
            },
            *final(self) == (Mod {
                injected_blocks: final(self).injected_blocks,
                disable_block: final(self).disable_block,
                attack_delay: final(self).attack_delay,
                prosthetic_delay: final(self).prosthetic_delay,
                ..*old(self)
            }),
    {
        reveal(corrected_action);
        reveal(keeps_injecting);
        reveal(injected_after);
        let attacking = action & ATTACK != 0;
        let blocking = action & BLOCK != 0;
        let jumping = action & JUMP != 0;
        let dodging = action & DODGE != 0;
        let sheathed = art_is_sheathed(self.cur_art);
        // a motion of two or more directions means an art, so the block that performs it is
        // added for the player: for a few frames, or for a sheathed art as long as attack is
        // held without a manual block; jumping and dodging cancel the art
        let keeps = self.injected_blocks >= 1 && !(jumping || dodging) && if sheathed {
            attacking && !blocking
        } else {
            self.injected_blocks < BLOCK_INJECTION_DURATION
        };
        let inject = block_free || keeps;
        if block_free {
            self.injected_blocks = 1;
        } else if self.injected_blocks >= 1 {
            if jumping || dodging {
                self.injected_blocks = 0;
            } else if sheathed {
                if !(attacking && !blocking) {
                    self.injected_blocks = 0;
                }
            } else if self.injected_blocks < BLOCK_INJECTION_DURATION {
                self.injected_blocks = self.injected_blocks + 1;
            }
        }
        // a tool bound to block would otherwise perform arts on its own
        let disable = (used_tool_just_now || self.disable_block) && !(blocked_just_now
            || block_free || !using_tool);
        self.disable_block = disable;
        let a1 = if inject {
            action | BLOCK
        } else {
            action
        };
        let a2 = if disable {
            a1 & !BLOCK
        } else {
            a1
        };
        // the extra buttons with tools count as the tool button
        let a3 = if using_tool {
            a2 | USE_PROSTHETIC
        } else {
            a2
        };
        // attack too soon after an art switch performs the wrong art
        let a4 = if self.attack_delay > 0 {
            self.attack_delay = self.attack_delay - 1;
            a3 & !ATTACK
        } else {
            a3
        };
        // likewise for tools
        if self.prosthetic_delay != 0 {
            self.prosthetic_delay = self.prosthetic_delay - 1;
            a4 & !USE_PROSTHETIC
        } else {
            a4
        }
    }

    /// Runs one frame: reads the directions, picks the tools and the art asked for, equips them
    /// (an art through its fallback chain), and corrects the action bits in `input_handler`.
    /// Returns the changes that the host is asked to make, in order; `host` follows them.
    #[verifier::rlimit(50)]
    pub fn process_input(
        &mut self,
        frame: &FrameInput,
        host: &mut HostState,
        input_handler: &mut InputHandler,
    ) -> (r: Vec<Command>)
        requires
            old(self).wf(),
        ensures
            final(self).wf(),
            final(self).config == old(self).config,
            final(host).item_ids == old(host).item_ids,
            final(self).cur_art == art_after(
                old(host).item_ids@,
                old(self).cur_art,
                old(self).art_in(*frame, old(input_handler).action, final(self).framerate.current_rate()),
            ),
            ({
                let rate = final(self).framerate.current_rate();
                let action = old(input_handler).action;
                let used_tool_just_now = !old(self).using_tool_last_frame && old(
                    self,
                ).using_tool_in(*frame, action);
                let rolls_back = !used_tool_just_now && old(self).rollback_countdown.value == 0
                    && old(self).config.tools_of(seq![]).len() == 0;
                let tools = tool_outcome(
                    old(self).prev_slot,
                    ejection_view(old(self).ejection),
                    old(host)@,
                    old(self).tools_in(*frame, action, rate),
                    rolls_back,
                );
                let equipped = old(self).equipped_in(old(host).item_ids@, *frame, action, rate);
                let art_cmds = if equipped.is_some() {
                    seq![Command::SetSlot(COMBAT_ART_SLOT, item_of(old(host).item_ids@, equipped.unwrap()).unwrap())]
                } else {
                    seq![]
                };
                &&& r@ == tools.commands + art_cmds
                &&& final(host)@ == apply_all(old(host)@, r@)
                &&& final(self).prev_slot == tools.prev_slot
                &&& ejection_view(final(self).ejection) == tools.ejection
            }),
            ({
                let rate = final(self).framerate.current_rate();
                let action = old(input_handler).action;
                let attacking = bit_set(action, ATTACK);
                let blocking = bit_set(action, BLOCK);
                let using_tool = old(self).using_tool_in(*frame, action);
                let used_tool_just_now = !old(self).using_tool_last_frame && using_tool;
                let block_free = old(self).block_free_in(*frame, action, rate);
                let attack_delay = if old(self).equipped_in(old(host).item_ids@, *frame, action, rate).is_some() {
                    ATTACK_SUPRESSION_DURATION
                } else {
                    old(self).attack_delay
                };
                let prosthetic_delay = if old(self).tools_in(*frame, action, rate).len() > 0 {
                    PROSTHETIC_SUPRESSION_DURATION
                } else {
                    old(self).prosthetic_delay
                };
                let sheathed = is_sheathed(final(self).cur_art);
                let inject = block_free || keeps_injecting(
                    old(self).injected_blocks,
                    bit_set(action, JUMP),
                    bit_set(action, DODGE),
                    sheathed,
                    attacking,
                    blocking,
                );
                let disable = (used_tool_just_now || old(self).disable_block) && !((
                !old(self).blocking_last_frame && blocking) || block_free || !using_tool);
                &&& final(input_handler).action == corrected_action(
                    action,
                    inject,
                    disable,
                    using_tool,
                    attack_delay,
                    prosthetic_delay,
                )
                &&& final(self).injected_blocks == injected_after(
                    old(self).injected_blocks,
                    block_free,
                    bit_set(action, JUMP),
                    bit_set(action, DODGE),
                    sheathed,
                    attacking,
                    blocking,
                )
                &&& final(self).disable_block == disable
                &&& final(self).attack_delay == if attack_delay > 0 {
                    attack_delay - 1
                } else {
                    0
                }
                &&& final(self).prosthetic_delay == if prosthetic_delay > 0 {
                    prosthetic_delay - 1
                } else {
                    0
                }
            }),
            ({
                let rate = final(self).framerate.current_rate();
                let action = old(input_handler).action;
                let attacked_just_now = !old(self).attacking_last_frame && bit_set(action, ATTACK);
                let expired = old(self).expired_in(*frame, rate);
                let lockout_done = old(self).swapout_countdown.value == 0;
                let cleared = lockout_done && !(attacked_just_now && !expired) && (
                !old(self).blocking_last_frame && bit_set(action, BLOCK)) && expired;
                &&& final(self).buffer.motion() == if cleared {
                    seq![]
                } else {
                    old(self).motion_in(*frame, rate)
                }
                &&& final(self).buffer.idle() == if cleared {
                    0
                } else {
                    idle_after(old(self).buffer, *frame)
                }
                &&& final(self).buffer.neutral() == neutral_after(old(self).buffer, *frame)
                &&& final(self).buffer.keys() == keys_after(old(self).buffer, *frame)
                &&& final(self).swapout_countdown == if (bit_set(action, BLOCK) && attacked_just_now)
                    || old(self).block_free_in(*frame, action, rate) {
                    Countdown {
                        value: actual_frames(swapout_frames(old(self).cur_art) as int, rate) as u16,
                        running: false,
                    }
                } else if lockout_done {
                    old(self).swapout_countdown
                } else if !bit_set(action, ATTACK) || old(self).swapout_countdown.running {
                    Countdown {
                        value: (old(self).swapout_countdown.value - 1) as u16,
                        running: true,
                    }
                } else {
                    old(self).swapout_countdown
                }
            }),
            Framerate::ticked(old(self).framerate, final(self).framerate, frame.now_ms),
            ({
                let rate = final(self).framerate.current_rate();
                let using_tool = old(self).using_tool_in(*frame, old(input_handler).action);
                let used_tool_just_now = !old(self).using_tool_last_frame && using_tool;
                let rb = old(self).rollback_countdown;
                final(self).rollback_countdown == if used_tool_just_now {
                    Countdown {
                        value: actual_frames(PROSTHETIC_ROLLBACK_COUNTDOWN as int, rate) as u16,
                        running: false,
                    }
                } else if rb.value == 0 {
                    rb
                } else if !using_tool || rb.running {
                    Countdown { value: (rb.value - 1) as u16, running: true }
                } else {
                    rb
                }
            }),
            final(self).attacking_last_frame == bit_set(old(input_handler).action, ATTACK),
            final(self).blocking_last_frame == bit_set(old(input_handler).action, BLOCK),
            final(self).using_tool_last_frame == old(self).using_tool_in(
                *frame,
                old(input_handler).action,
            ),
    {
        let mut out: Vec<Command> = Vec::new();
        self.framerate.tick(frame.now_ms);
        let rate = self.framerate.cur();
        let ghost start = *self;
        let (inputs, expired) = self.read_directions(frame, rate);

        let action = input_handler.action;
        let attacking = action & ATTACK != 0;
        let blocking = action & BLOCK != 0;
        let attacked_just_now = !self.attacking_last_frame && attacking;
        let blocked_just_now = !self.blocking_last_frame && blocking;
        // unlike the other bits, the tool bit also counts the extra buttons
        let using_tool = action & USE_PROSTHETIC != 0 || (frame.x1_down
            && self.config.tools_on_x1.len() > 0) || (frame.x2_down
            && self.config.tools_on_x2.len() > 0);
        let used_tool_just_now = !self.using_tool_last_frame && using_tool;

        let ghost h0 = host@;
        self.tool_phase(
            host,
            &mut out,
            frame,
            blocking,
            using_tool,
            used_tool_just_now,
            expired,
            inputs,
            rate,
        );
        let ghost tool_cmds = out@;

        let (desired_art, block_free) = self.decide_art(
            attacking,
            blocking,
            attacked_just_now,
            blocked_just_now,
            expired,
            inputs,
            rate,
        );
        if let Some(desired_art) = desired_art {
            if let Some(art) = equip_art_chain(host, &mut out, self.cur_art, desired_art) {
                self.cur_art = Some(art);
                self.attack_delay = ATTACK_SUPRESSION_DURATION;
            }
        }
        proof {
            let art = out@.subrange(tool_cmds.len() as int, out@.len() as int);
            assert(out@ =~= tool_cmds + art);
            lemma_apply_all_append(h0, tool_cmds, art);
            if art.len() > 0 {
                lemma_apply_one(host@, art[0]);
                assert(art =~= seq![art[0]]);
            } else {
                assert(host@ == apply_all(host@, art));
            }
        }

        input_handler.action = self.correct_action(
            action,
            block_free,
            used_tool_just_now,
            using_tool,
            blocked_just_now,
        );
        self.attacking_last_frame = attacking;
        self.blocking_last_frame = blocking;
        self.using_tool_last_frame = using_tool;
        out
    }
}

} // verus!
