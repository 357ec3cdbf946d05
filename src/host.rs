use vstd::prelude::*;

use crate::config::UID;

verus! {

/// The equip slot of the combat art.
pub const COMBAT_ART_SLOT: usize = 1;

/// What the host reports for an empty prosthetic slot.
pub const EMPTY_SLOT_ITEM: u32 = 256;

/// Item ids from this value on are no real items.
pub const ITEM_ID_LIMIT: u32 = 0xFFFF;

/// One of the three prosthetic slots, which are equip slots 0, 2 and 4.
#[derive(Clone, Copy, Debug, PartialEq, Eq, Structural)]
pub enum ProstheticSlot {
    S0,
    S1,
    S2,
}

impl ProstheticSlot {
    /// The slot's place among the three, as the host counts the active one.
    pub open spec fn index(self) -> int {
        match self {
            ProstheticSlot::S0 => 0,
            ProstheticSlot::S1 => 1,
            ProstheticSlot::S2 => 2,
        }
    }

    /// The slot that the host reports as `raw`; none for a value the host never reports.
    pub fn from_raw(raw: u8) -> (r: Option<ProstheticSlot>)
        ensures
            r.is_some() == (raw < 3),
            r.is_some() ==> r.unwrap().index() == raw,
    {
        match raw {
            0 => Some(ProstheticSlot::S0),
            1 => Some(ProstheticSlot::S1),
            2 => Some(ProstheticSlot::S2),
            _ => None,
        }
    }

    /// The equip slot.
    pub fn as_slot_index(self) -> (r: usize)
        ensures
            r == 2 * self.index(),
    {
        match self {
            ProstheticSlot::S0 => 0,
            ProstheticSlot::S1 => 2,
            ProstheticSlot::S2 => 4,
        }
    }

    /// The place among the three prosthetic slots.
    pub fn as_prosthetic_index(self) -> (r: u32)
        ensures
            r == self.index(),
    {
        match self {
            ProstheticSlot::S0 => 0,
            ProstheticSlot::S1 => 1,
            ProstheticSlot::S2 => 2,
        }
    }
}

/// The id of an owned skill as an item of the inventory; never zero.
#[derive(Clone, Copy, Debug, PartialEq, Eq, Structural)]
pub struct ItemID {
    value: u32,
}

impl View for ItemID {
    type V = u32;

    closed spec fn view(&self) -> u32 {
        self.value
    }
}

impl ItemID {
    #[verifier::type_invariant]
    closed spec fn well_formed(self) -> bool {
        self.value != 0
    }

    pub fn new(value: u32) -> (r: Option<ItemID>)
        ensures
            r.is_some() == (value != 0),
            r.is_some() ==> r.unwrap()@ == value,
    {
        if value == 0 {
            None
        } else {
            Some(ItemID { value })
        }
    }

    pub fn get(self) -> (r: u32)
        ensures
            r == self@,
            r != 0,
    {
        proof {
            use_type_invariant(self);
        }
        self.value
    }
}

/// The part of the host's state that a frame's decisions read, as the host reported it at the
/// start of the frame.
pub struct HostState {
    /// The active prosthetic slot.
    pub active_slot: ProstheticSlot,
    /// The raw item in each prosthetic slot.
    pub equipped: [u32; 3],
    /// For each skill, the raw item id that the host's inventory reports for it.
    pub item_ids: Vec<(UID, u32)>,
}

/// A change that the host is asked to make, in order.
#[derive(Clone, Copy, Debug, PartialEq, Eq, Structural)]
pub enum Command {
    /// Put the item into the equip slot.
    SetSlot(usize, u32),
    /// Make the prosthetic slot the active one.
    ActivateProsthetic(ProstheticSlot),
}

/// The raw item id of `uid` in `table`: the first entry for it.
pub open spec fn raw_item_of(table: Seq<(UID, u32)>, uid: UID) -> Option<u32>
    decreases table.len(),
{
    if table.len() == 0 {
        None
    } else if table[0].0 == uid {
        Some(table[0].1)
    } else {
        raw_item_of(table.drop_first(), uid)
    }
}

/// The item of `uid` if the player owns it: a nonzero raw id below the limit.
pub open spec fn item_of(items: Seq<(UID, u32)>, uid: UID) -> Option<u32> {
    match raw_item_of(items, uid) {
        Some(v) => if v != 0 && v < ITEM_ID_LIMIT {
            Some(v)
        } else {
            None
        },
        None => None,
    }
}

/// What the decisions know of the host: the active slot, the raw item in each prosthetic slot,
/// and the inventory's item id of each skill.
pub struct HostView {
    pub active: ProstheticSlot,
    pub equipped: Seq<u32>,
    pub items: Seq<(UID, u32)>,
}

impl View for HostState {
    type V = HostView;

    open spec fn view(&self) -> HostView {
        HostView { active: self.active_slot, equipped: self.equipped@, items: self.item_ids@ }
    }
}

/// The host after it made the change `c`.
pub open spec fn apply(h: HostView, c: Command) -> HostView {
    match c {
        Command::SetSlot(slot, item) => if slot == 0 || slot == 2 || slot == 4 {
            HostView { equipped: h.equipped.update((slot / 2) as int, item), ..h }
        } else {
            h
        },
        Command::ActivateProsthetic(s) => HostView { active: s, ..h },
    }
}

/// The host after it made the changes `cs` in order.
pub open spec fn apply_all(h: HostView, cs: Seq<Command>) -> HostView
    decreases cs.len(),
{
    if cs.len() == 0 {
        h
    } else {
        apply(apply_all(h, cs.drop_last()), cs.last())
    }
}

/// Making two runs of changes is making them one after the other.
pub proof fn lemma_apply_all_append(h: HostView, a: Seq<Command>, b: Seq<Command>)
    ensures
        apply_all(h, a + b) == apply_all(apply_all(h, a), b),
    decreases b.len(),
{
    if b.len() == 0 {
        assert(a + b =~= a);
    } else {
        assert((a + b).drop_last() =~= a + b.drop_last());
        lemma_apply_all_append(h, a, b.drop_last());
    }
}

/// Making one change.
pub proof fn lemma_apply_one(h: HostView, c: Command)
    ensures
        apply_all(h, seq![c]) == apply(h, c),
{
    let one = seq![c];
    assert(one.drop_last() =~= Seq::<Command>::empty());
    assert(one.last() == c);
    assert(apply_all(h, one.drop_last()) == h);
}

/// The tool held in a prosthetic slot, if any.
pub open spec fn tool_in(host: HostView, slot: ProstheticSlot) -> Option<u32> {
    let raw = host.equipped[slot.index()];
    if raw != EMPTY_SLOT_ITEM && raw != 0 {
        Some(raw)
    } else {
        None
    }
}

/// The first prosthetic slot that holds the item of `uid`.
pub open spec fn slot_of(host: HostView, uid: UID) -> Option<ProstheticSlot> {
    match item_of(host.items, uid) {
        None => None,
        Some(id) => if host.equipped[0] == id {
            Some(ProstheticSlot::S0)
        } else if host.equipped[1] == id {
            Some(ProstheticSlot::S1)
        } else if host.equipped[2] == id {
            Some(ProstheticSlot::S2)
        } else {
            None
        },
    }
}

impl HostState {
    /// The item of `uid` if the player owns it.
    pub fn item_id(&self, uid: UID) -> (r: Option<ItemID>)
        ensures
            r.is_some() == item_of(self.item_ids@, uid).is_some(),
            r.is_some() ==> r.unwrap()@ == item_of(self.item_ids@, uid).unwrap(),
    {
        let mut i: usize = 0;
        assert(self.item_ids@.subrange(0, self.item_ids@.len() as int) =~= self.item_ids@);
        while i < self.item_ids.len()
            invariant
                i <= self.item_ids@.len(),
                raw_item_of(self.item_ids@, uid) == raw_item_of(
                    self.item_ids@.subrange(i as int, self.item_ids@.len() as int),
                    uid,
                ),
            decreases self.item_ids@.len() - i,
        {
            let ghost rest = self.item_ids@.subrange(i as int, self.item_ids@.len() as int);
            assert(rest.drop_first() =~= self.item_ids@.subrange(
                i + 1,
                self.item_ids@.len() as int,
            ));
            let (u, raw) = self.item_ids[i];
            if u == uid {
                if raw < ITEM_ID_LIMIT {
                    return ItemID::new(raw);
                } else {
                    return None;
                }
            }
            i = i + 1;
        }
        None
    }

    /// The tool held in `slot`, if any.
    pub fn prosthetic_tool(&self, slot: ProstheticSlot) -> (r: Option<ItemID>)
        ensures
            r.is_some() == tool_in(self@, slot).is_some(),
            r.is_some() ==> r.unwrap()@ == tool_in(self@, slot).unwrap(),
    {
        let raw = match slot {
            ProstheticSlot::S0 => self.equipped[0],
            ProstheticSlot::S1 => self.equipped[1],
            ProstheticSlot::S2 => self.equipped[2],
        };
        if raw != EMPTY_SLOT_ITEM {
            ItemID::new(raw)
        } else {
            None
        }
    }

    /// The first prosthetic slot that holds the tool `uid`.
    pub fn locate_prosthetic_tool(&self, uid: UID) -> (r: Option<ProstheticSlot>)
        ensures
            r == slot_of(self@, uid),
    {
        let item = match self.item_id(uid) {
            Some(item) => item.get(),
            None => {
                return None;
            },
        };
        if self.equipped[0] == item {
            Some(ProstheticSlot::S0)
        } else if self.equipped[1] == item {
            Some(ProstheticSlot::S1)
        } else if self.equipped[2] == item {
            Some(ProstheticSlot::S2)
        } else {
            None
        }
    }
}

} // verus!
