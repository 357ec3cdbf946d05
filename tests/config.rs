use battle_instinct::config::{possible_alternatives, Config, Trigger};
use battle_instinct::input::{Input, Inputs};

use Input::{Down, Left, Right, Up};

fn motion(m: &[Input]) -> Trigger {
    Trigger::Motion(Inputs::from_slice(m))
}

fn m(d: &[Input]) -> Inputs {
    Inputs::from_slice(d)
}

#[test]
fn reversed_pair_is_bound() {
    let c = Config::from_bindings(&vec![(5600, motion(&[Left, Right]))]);
    assert_eq!(c.arts.get(m(&[Right, Left])), Some(5600));
}

#[test]
fn explicit_binding_is_never_replaced() {
    let c = Config::from_bindings(&vec![
        (5600, motion(&[Left, Right])),
        (7200, motion(&[Right, Left])),
    ]);
    assert_eq!(c.arts.get(m(&[Right, Left])), Some(7200));
    let c = Config::from_bindings(&vec![
        (7200, motion(&[Right, Left])),
        (5600, motion(&[Left, Right])),
    ]);
    assert_eq!(c.arts.get(m(&[Right, Left])), Some(7200));
    assert_eq!(c.arts.get(m(&[Left, Right])), Some(5600));
}

#[test]
fn half_circles_are_bound() {
    let c = Config::from_bindings(&vec![(5600, motion(&[Left, Right]))]);
    assert_eq!(c.arts.get(m(&[Left, Down, Right])), Some(5600));
    assert_eq!(c.arts.get(m(&[Left, Up, Right])), Some(5600));
    assert_eq!(c.arts.get(m(&[Left, Left, Right])), None);
}

#[test]
fn left_down_right_permutations() {
    let c = Config::from_bindings(&vec![(7000, motion(&[Left, Down, Right]))]);
    for p in [
        [Left, Right, Down],
        [Right, Left, Down],
        [Right, Down, Left],
        [Down, Left, Right],
        [Down, Right, Left],
    ] {
        assert_eq!(c.arts.get(m(&p)), Some(7000));
    }
    assert_eq!(c.arts.get(m(&[Left, Down, Right])), Some(7000));
}

#[test]
fn alternatives_lists() {
    assert_eq!(possible_alternatives(m(&[Up, Right])), vec![m(&[Right, Up])]);
    assert_eq!(
        possible_alternatives(m(&[Up, Down])),
        vec![m(&[Down, Up]), m(&[Up, Left, Down]), m(&[Up, Right, Down])]
    );
    assert_eq!(possible_alternatives(m(&[Up])), vec![]);
    assert_eq!(possible_alternatives(m(&[Left, Down, Right])).len(), 5);
}

#[test]
fn illegal_ids_are_dropped() {
    let c = Config::from_bindings(&vec![
        (4999, motion(&[Up])),
        (10001, motion(&[Down])),
        (100001, Trigger::Block),
        (69999, Trigger::X1),
    ]);
    assert_eq!(c.arts.get(m(&[Up])), None);
    assert_eq!(c.arts.get(m(&[Down])), None);
    assert!(c.tools_for_block.is_empty());
    assert!(c.tools_on_x1.is_empty());
}

#[test]
fn tool_lists_keep_line_order() {
    let c = Config::from_bindings(&vec![
        (70000, motion(&[])),
        (70100, motion(&[])),
        (74000, motion(&[Left, Right])),
        (72000, Trigger::Block),
        (73000, Trigger::X1),
        (73100, Trigger::X2),
        (5000, Trigger::X2),
    ]);
    assert_eq!(c.tools_for(m(&[])), vec![70000, 70100]);
    assert_eq!(c.tools_for(m(&[Left, Right])), vec![74000]);
    assert_eq!(c.tools_for(m(&[Right, Left])), vec![74000]);
    assert_eq!(c.tools_for(m(&[Up])), vec![]);
    assert_eq!(c.tools_for_block, vec![72000]);
    assert_eq!(c.tools_on_x1, vec![73000]);
    assert_eq!(c.tools_on_x2, vec![73100]);
}

#[test]
fn test_load() {
    let raw = "
            # this is a line of comment
            7100  Ichimonji: Double           ∅  # comment
            70000 Loaded Shuriken             ∅  # comment
            70100 Spinnging Shuriken          ∅  # comment
            5600  Floating Passage           ←→  # comment
            7200  Spiral Clound Passage      →←  # comment
            74000 Mist Raven                 ←→  # comment
            ";
    let config = Config::parse(raw);
    // default
    assert_eq!(config.arts.get(m(&[])), Some(7100));
    assert_eq!(config.tools_for(m(&[])), [70000, 70100]);
    // inputs
    assert_eq!(config.arts.get(m(&[Left, Right])), Some(5600));
    assert_eq!(config.arts.get(m(&[Right, Left])), Some(7200));
    // rev tolerance
    assert_eq!(config.tools_for(m(&[Left, Right])), &[74000]);
    assert_eq!(config.tools_for(m(&[Right, Left])), &[74000]);
    // semicircle tolerance
    assert_eq!(config.arts.get(m(&[Left, Down, Right])), Some(5600));
    assert_eq!(config.arts.get(m(&[Right, Down, Left])), Some(7200));
}

#[test]
fn parse_items_and_triggers() {
    let raw = "5600 name lr\n+5700 other ud\n70000 tool x1\n70001 tool m5\n70002 tool block\n\
               70003 tool ⛉\n5800 too long udlr\n99999999999 big u\n5900\n6000 art X1\n\
               6100 name none\r\n6200 name ↑↓←→ # trailing\n";
    let c = Config::parse(raw);
    assert_eq!(c.arts.get(m(&[Left, Right])), Some(5600));
    assert_eq!(c.arts.get(m(&[Up, Down])), Some(5700));
    assert_eq!(c.arts.get(m(&[Up, Down, Left])), Some(6200));
    assert_eq!(c.arts.get(m(&[])), Some(6100));
    assert_eq!(c.tools_on_x1, vec![70000]);
    assert_eq!(c.tools_on_x2, vec![70001]);
    assert_eq!(c.tools_for_block, vec![70002, 70003]);
}

#[test]
fn parse_rejects_names_and_bad_numbers() {
    let c = Config::parse("5600 Floating Passage\nabc def u\n4294967296 x u\n");
    assert!(c.arts.iter().is_empty());
    assert!(c.tool_lists.is_empty());
}

#[test]
fn motion_items() {
    let t = "↑→x none ∅ rrrr".as_bytes();
    assert_eq!(battle_instinct::parse::parse_motion(t, 0, 6), Some(m(&[Up, Right])));
    assert_eq!(battle_instinct::parse::parse_motion(t, 0, 7), None);
    assert_eq!(battle_instinct::parse::parse_motion(t, 8, 12), Some(m(&[])));
    assert_eq!(battle_instinct::parse::parse_motion(t, 13, 16), Some(m(&[])));
    assert_eq!(battle_instinct::parse::parse_motion(t, 17, 21), Some(m(&[Right, Right, Right])));
}

#[test]
fn ignored_identifiers_are_reported() {
    let raw = "4999 too low u\n5600 art lr\n100001 too high x1\n12 alone\n13\n# 3 comment u\n7 a b\n";
    assert_eq!(battle_instinct::parse::ignored_ids(raw.as_bytes()), vec![4999, 100001, 12, 7]);
}
