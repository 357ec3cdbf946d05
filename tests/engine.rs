use battle_instinct::config::{Config, Trigger, UID};
use battle_instinct::engine::{FrameInput, InputHandler, Mod, ATTACK, BLOCK, JUMP, USE_PROSTHETIC};
use battle_instinct::host::{Command, HostState, ItemID, ProstheticSlot};
use battle_instinct::input::{Input, Inputs};

use Input::{Down, Left, Right, Up};

fn motion(m: &[Input]) -> Trigger {
    Trigger::Motion(Inputs::from_slice(m))
}

fn scenario_config() -> Config {
    Config::from_bindings(&vec![
        (5600, motion(&[Left, Right])),
        (7200, motion(&[Right, Left])),
        (70000, motion(&[])),
    ])
}

fn host(item_ids: Vec<(UID, u32)>) -> HostState {
    HostState { active_slot: ProstheticSlot::S0, equipped: [256, 256, 256], item_ids }
}

struct Rig {
    m: Mod,
    host: HostState,
    now: u64,
}

impl Rig {
    fn new(config: Config, item_ids: Vec<(UID, u32)>) -> Rig {
        let mut m = Mod::new();
        m.load_config(config);
        Rig { m, host: host(item_ids), now: 0 }
    }

    fn frame(&mut self, keys: [bool; 4], action: u64) -> (Vec<Command>, u64) {
        let frame = FrameInput {
            now_ms: self.now,
            up: keys[0],
            right: keys[1],
            down: keys[2],
            left: keys[3],
            x1_down: false,
            x2_down: false,
            stick: None,
        };
        self.now += 16;
        let mut handler = InputHandler { action };
        let cmds = self.m.process_input(&frame, &mut self.host, &mut handler);
        (cmds, handler.action)
    }
}

const NONE: [bool; 4] = [false, false, false, false];
const LEFT: [bool; 4] = [false, false, false, true];
const RIGHT: [bool; 4] = [false, true, false, false];

#[test]
fn scenario_lookup_without_cross_contamination() {
    let c = scenario_config();
    assert_eq!(c.tools_for(Inputs::new()), vec![70000]);
    assert_eq!(c.arts.get(Inputs::from_slice(&[Left, Right])), Some(5600));
    assert_eq!(c.arts.get(Inputs::from_slice(&[Right, Left])), Some(7200));
    assert_eq!(c.arts.get(Inputs::new()), None);
}

#[test]
fn scenario_left_right_resolves_art() {
    let mut rig = Rig::new(scenario_config(), vec![(5600, 11), (7200, 12), (70000, 13)]);
    let (cmds, _) = rig.frame(LEFT, 0);
    // the default tool goes into the active slot
    assert_eq!(cmds, vec![Command::SetSlot(0, 13)]);
    rig.frame(RIGHT, 0);
    let (cmds, action) = rig.frame(NONE, ATTACK);
    assert_eq!(cmds, vec![Command::SetSlot(1, 11)]);
    assert_eq!(rig.m.cur_art(), Some(5600));
    // block is added for the art, attack is held back right after the switch
    assert_eq!(action, BLOCK);
}

#[test]
fn scenario_right_left_resolves_art() {
    let mut rig = Rig::new(scenario_config(), vec![(5600, 11), (7200, 12), (70000, 13)]);
    rig.frame(RIGHT, 0);
    rig.frame(LEFT, 0);
    let (cmds, _) = rig.frame(NONE, ATTACK);
    assert_eq!(cmds, vec![Command::SetSlot(1, 12)]);
    assert_eq!(rig.m.cur_art(), Some(7200));
}

#[test]
fn scenario_block_after_expiry_returns_to_default() {
    let config = Config::from_bindings(&vec![
        (5300, motion(&[])),
        (5600, motion(&[Left, Right])),
    ]);
    let mut rig = Rig::new(config, vec![(5300, 21), (5600, 22)]);
    rig.frame(LEFT, 0);
    rig.frame(RIGHT, 0);
    rig.frame(NONE, ATTACK);
    assert_eq!(rig.m.cur_art(), Some(5600));
    for _ in 0..12 {
        rig.frame(NONE, 0);
    }
    let (cmds, _) = rig.frame(NONE, BLOCK);
    assert_eq!(cmds, vec![Command::SetSlot(1, 21)]);
    assert_eq!(rig.m.cur_art(), Some(5300));
    assert_eq!(rig.m.buffer.inputs(), Inputs::new());
    // later in the same idle window the default art is still what block asks for
    rig.frame(NONE, 0);
    let (cmds, _) = rig.frame(NONE, BLOCK);
    assert_eq!(cmds, vec![]);
    assert_eq!(rig.m.cur_art(), Some(5300));
}

#[test]
fn scenario_fallback_chain_equips_base_art() {
    let config = Config::from_bindings(&vec![(7100, motion(&[Left, Right]))]);
    // 7100 is not owned
    let mut rig = Rig::new(config, vec![(7100, 0), (5300, 31)]);
    rig.frame(LEFT, 0);
    rig.frame(RIGHT, 0);
    let (cmds, _) = rig.frame(NONE, ATTACK);
    assert_eq!(cmds, vec![Command::SetSlot(1, 31)]);
    assert_eq!(rig.m.cur_art(), Some(5300));
}

#[test]
fn exhausted_fallback_keeps_current_art() {
    let config = Config::from_bindings(&vec![(5600, motion(&[Left, Right]))]);
    let mut rig = Rig::new(config, vec![]);
    rig.frame(LEFT, 0);
    rig.frame(RIGHT, 0);
    let (cmds, _) = rig.frame(NONE, ATTACK);
    assert_eq!(cmds, vec![]);
    assert_eq!(rig.m.cur_art(), None);
}

#[test]
fn injection_lasts_a_few_frames_and_jump_cancels() {
    let config = Config::from_bindings(&vec![(5600, motion(&[Left, Right]))]);
    let mut rig = Rig::new(config, vec![(5600, 11)]);
    rig.frame(LEFT, 0);
    rig.frame(RIGHT, 0);
    let (_, action) = rig.frame(NONE, ATTACK);
    assert_eq!(action, BLOCK);
    let (_, action) = rig.frame(NONE, ATTACK);
    // attack is still held back for one more frame
    assert_eq!(action, BLOCK);
    let (_, action) = rig.frame(NONE, ATTACK);
    assert_eq!(action, ATTACK | BLOCK);
    let (_, action) = rig.frame(NONE, JUMP);
    assert_eq!(action, JUMP);
    let (_, action) = rig.frame(NONE, 0);
    assert_eq!(action, 0);
}

#[test]
fn sheathed_art_holds_block_while_attack_is_held() {
    let config = Config::from_bindings(&vec![(6100, motion(&[Left, Right]))]);
    let mut rig = Rig::new(config, vec![(6100, 41)]);
    rig.frame(LEFT, 0);
    rig.frame(RIGHT, 0);
    rig.frame(NONE, ATTACK);
    assert_eq!(rig.m.cur_art(), Some(6100));
    for _ in 0..20 {
        let (_, action) = rig.frame(NONE, ATTACK);
        assert_eq!(action & BLOCK, BLOCK);
    }
    let (_, action) = rig.frame(NONE, 0);
    assert_eq!(action, 0);
}

#[test]
fn tool_use_equips_motion_tools_and_masks_button() {
    let config = Config::from_bindings(&vec![(74000, motion(&[Left, Right]))]);
    let mut rig = Rig::new(config, vec![(74000, 51)]);
    rig.host.equipped = [61, 256, 256];
    rig.frame(LEFT, 0);
    rig.frame(RIGHT, 0);
    let (cmds, action) = rig.frame(NONE, USE_PROSTHETIC);
    // the tool goes into the active slot; the tool there is remembered
    assert_eq!(cmds, vec![Command::SetSlot(0, 51)]);
    assert_eq!(action & USE_PROSTHETIC, 0);
    assert_eq!(rig.m.ejection.map(|(item, slot)| (item.get(), slot)), Some((61, ProstheticSlot::S0)));
}

#[test]
fn tool_in_another_slot_is_activated() {
    let config = Config::from_bindings(&vec![(74000, motion(&[Left, Right]))]);
    let mut rig = Rig::new(config, vec![(74000, 51)]);
    rig.host.equipped = [61, 51, 256];
    rig.frame(LEFT, 0);
    rig.frame(RIGHT, 0);
    let (cmds, _) = rig.frame(NONE, USE_PROSTHETIC);
    assert_eq!(cmds, vec![Command::ActivateProsthetic(ProstheticSlot::S1)]);
    assert_eq!(rig.m.prev_slot, Some(ProstheticSlot::S0));
    assert_eq!(rig.host.active_slot, ProstheticSlot::S1);
}

#[test]
fn rollback_without_default_tools_restores_slot_and_tool() {
    let config = Config::from_bindings(&vec![(74000, motion(&[Left, Right]))]);
    let mut rig = Rig::new(config, vec![(74000, 51)]);
    rig.host.equipped = [61, 256, 256];
    rig.frame(LEFT, 0);
    rig.frame(RIGHT, 0);
    rig.frame(NONE, USE_PROSTHETIC);
    let mut restored = vec![];
    for _ in 0..200 {
        let (cmds, _) = rig.frame(NONE, 0);
        restored.extend(cmds);
    }
    assert_eq!(restored, vec![Command::SetSlot(0, 61)]);
    assert_eq!(rig.host.equipped[0], 61);
    assert!(rig.m.ejection.is_none());
}

#[test]
fn host_helpers() {
    assert_eq!(ProstheticSlot::from_raw(2), Some(ProstheticSlot::S2));
    assert_eq!(ProstheticSlot::from_raw(3), None);
    assert_eq!(ProstheticSlot::S2.as_slot_index(), 4);
    assert_eq!(ProstheticSlot::S2.as_prosthetic_index(), 2);
    assert!(ItemID::new(0).is_none());
    assert_eq!(ItemID::new(9).map(|i| i.get()), Some(9));
    let h = host(vec![(5300, 7), (5300, 8), (7100, 0xFFFF)]);
    assert_eq!(h.item_id(5300).map(|i| i.get()), Some(7));
    assert!(h.item_id(7100).is_none());
    assert!(h.item_id(1).is_none());
    let mut h = h;
    h.equipped = [7, 256, 7];
    assert_eq!(h.locate_prosthetic_tool(5300), Some(ProstheticSlot::S0));
    assert!(h.prosthetic_tool(ProstheticSlot::S1).is_none());
}

#[test]
fn up_down_keys_unused_here() {
    // keys other than the bound motion leave the art alone
    let mut rig = Rig::new(scenario_config(), vec![(5600, 11)]);
    rig.frame([true, false, false, false], 0);
    rig.frame([false, false, true, false], 0);
    let (cmds, _) = rig.frame(NONE, ATTACK);
    assert!(cmds.iter().all(|c| !matches!(c, Command::SetSlot(1, _))));
    let _ = (Up, Down);
}

#[test]
fn lockout_after_performed_art_blocks_swaps() {
    let mut rig = Rig::new(scenario_config(), vec![(5600, 11), (7200, 12)]);
    rig.frame(LEFT, 0);
    rig.frame(RIGHT, 0);
    rig.frame(NONE, ATTACK);
    assert_eq!(rig.m.cur_art(), Some(5600));
    for _ in 0..3 {
        rig.frame(NONE, 0);
    }
    // performing the art with block starts the lockout of the equipped art
    rig.frame(NONE, BLOCK | ATTACK);
    rig.frame(NONE, 0);
    rig.frame(RIGHT, 0);
    rig.frame(LEFT, 0);
    let (cmds, _) = rig.frame(NONE, ATTACK);
    assert_eq!(cmds, vec![]);
    assert_eq!(rig.m.cur_art(), Some(5600));
    assert!(rig.m.swapout_countdown.value > 0);
}

#[test]
fn stick_motion_resolves_art() {
    let mut rig = Rig::new(scenario_config(), vec![(5600, 11), (7200, 12)]);
    let mut stick = |rig: &mut Rig, pos: Option<(i16, i16)>, action: u64| {
        let frame = FrameInput {
            now_ms: rig.now,
            up: false,
            right: false,
            down: false,
            left: false,
            x1_down: false,
            x2_down: false,
            stick: pos,
        };
        rig.now += 16;
        let mut handler = InputHandler { action };
        rig.m.process_input(&frame, &mut rig.host, &mut handler)
    };
    stick(&mut rig, Some((-32000, 0)), 0);
    stick(&mut rig, Some((20000, 0)), 0);
    let cmds = stick(&mut rig, Some((20000, 0)), ATTACK);
    assert_eq!(cmds, vec![Command::SetSlot(1, 11)]);
    assert_eq!(rig.m.cur_art(), Some(5600));
}

#[test]
fn fresh_engine_and_cleared_buffer_age() {
    let m = Mod::new();
    assert_eq!(m.cur_art(), None);
    assert_eq!(m.framerate.cur(), 60);
    assert!(m.config.arts.iter().is_empty());
    let config = Config::from_bindings(&vec![(5300, motion(&[]))]);
    let mut rig = Rig::new(config, vec![(5300, 21)]);
    rig.frame(LEFT, 0);
    for _ in 0..12 {
        rig.frame(NONE, 0);
    }
    rig.frame(NONE, BLOCK);
    // the buffer starts over: not expired again until the long delay
    assert!(!rig.m.buffer.expired(60));
}

#[test]
fn fresh_tool_use_restarts_rollback() {
    let config = Config::from_bindings(&vec![(74000, motion(&[Left, Right]))]);
    let mut rig = Rig::new(config, vec![(74000, 51)]);
    rig.frame(NONE, USE_PROSTHETIC);
    assert_eq!(rig.m.rollback_countdown.value, 120);
}
