use battle_instinct::input::{Input, InputBuffer, Inputs, InputsTrie};

use Input::{Down, Left, Right, Up};

fn hash_of(digits: &str) -> usize {
    usize::from_str_radix(digits, 4).unwrap()
}

#[test]
fn test_inputs() {
    // len
    assert_eq!(Inputs::from_slice(&[]).len(), 0);
    assert_eq!(Inputs::from_slice(&[Up]).len(), 1);
    assert_eq!(Inputs::from_slice(&[Up, Right]).len(), 2);
    assert_eq!(Inputs::from_slice(&[Up, Right, Down]).len(), 3);

    // hash
    assert_eq!(Inputs::from_slice(&[]).perfect_hash(), hash_of("0000"));
    assert_eq!(Inputs::from_slice(&[Up]).perfect_hash(), hash_of("0001"));
    assert_eq!(Inputs::from_slice(&[Right]).perfect_hash(), hash_of("1001"));
    assert_eq!(Inputs::from_slice(&[Down]).perfect_hash(), hash_of("2001"));
    assert_eq!(Inputs::from_slice(&[Left]).perfect_hash(), hash_of("3001"));
    assert_eq!(Inputs::from_slice(&[Up, Up]).perfect_hash(), hash_of("0002"));
    assert_eq!(Inputs::from_slice(&[Up, Right]).perfect_hash(), hash_of("0102"));
    assert_eq!(Inputs::from_slice(&[Up, Right, Down]).perfect_hash(), hash_of("0123"));
    assert_eq!(Inputs::from_slice(&[Left, Left, Left]).perfect_hash(), hash_of("3333"));

    // push and pop
    let src = [Up, Right, Down];
    let rev = [Down, Right, Up];

    let mut inputs = Inputs::new();
    for (i, input) in src.iter().copied().enumerate() {
        assert!(inputs.push(input));
        assert_eq!(inputs, Inputs::from_slice(&src[..i + 1]));
    }
    assert_eq!(inputs.push(Left), false);

    for last in rev {
        assert_eq!(inputs.last(), Some(last));
        assert_eq!(inputs.pop(), Some(last));
    }
    assert_eq!(inputs.last(), None);
    assert_eq!(inputs.pop(), None);

    // rev
    assert_eq!(Inputs::from_slice(&[Up]).rev(), Inputs::from_slice(&[Up]));
    assert_eq!(Inputs::from_slice(&[Up, Right]).rev(), Inputs::from_slice(&[Right, Up]));
    assert_eq!(
        Inputs::from_slice(&[Up, Right, Down]).rev(),
        Inputs::from_slice(&[Down, Right, Up])
    );
}

#[test]
fn bench_inputs() {
    const ROUNDS: usize = 1_000_000;
    let src = [Up, Right, Down, Left];

    let mut inputs = Inputs::new();
    let start = std::time::Instant::now();
    for _ in 0..ROUNDS {
        for input in src {
            inputs.push(input);
        }
        for _ in src {
            inputs.pop();
        }
    }
    let inputs_time = start.elapsed();

    let mut vec = Vec::with_capacity(3);
    let start = std::time::Instant::now();
    for _ in 0..ROUNDS {
        for input in src {
            vec.push(input);
        }
        for _ in src {
            vec.pop();
        }
    }
    let vec_time = start.elapsed();

    println!("Inputs:     {:?}", inputs_time);
    println!("Vec<Input>: {:?}", vec_time);
}

fn all_motions() -> Vec<Vec<Input>> {
    let dirs = [Up, Right, Down, Left];
    let mut all = vec![vec![]];
    for a in dirs {
        all.push(vec![a]);
        for b in dirs {
            all.push(vec![a, b]);
            for c in dirs {
                all.push(vec![a, b, c]);
            }
        }
    }
    all
}

fn directions_of(mut inputs: Inputs) -> Vec<Input> {
    let mut out = Vec::new();
    while let Some(d) = inputs.pop() {
        out.push(d);
    }
    out.reverse();
    out
}

#[test]
fn hash_round_trip_and_injective() {
    let all = all_motions();
    assert_eq!(all.len(), 85);
    let mut seen = std::collections::HashSet::new();
    for m in &all {
        let inputs = Inputs::from_slice(m);
        let h = inputs.perfect_hash();
        assert!(h < 256);
        assert!(seen.insert(h));
        let back = Inputs::from_perfect_hash(h);
        assert_eq!(back, inputs);
        assert_eq!(&directions_of(back), m);
    }
}

#[test]
fn push_then_pop_restores() {
    for m in all_motions().into_iter().filter(|m| m.len() < 3) {
        for d in [Up, Right, Down, Left] {
            let before = Inputs::from_slice(&m);
            let mut inputs = before;
            assert!(inputs.push(d));
            assert_eq!(inputs.last(), Some(d));
            assert_eq!(inputs.pop(), Some(d));
            assert_eq!(inputs, before);
        }
    }
    let mut full = Inputs::from_slice(&[Up, Up, Down]);
    assert!(!full.push(Left));
    assert_eq!(full, Inputs::from_slice(&[Up, Up, Down]));
}

#[test]
fn opposite_and_rotate() {
    assert_eq!(Up.opposite(), Down);
    assert_eq!(Left.opposite(), Right);
    assert_eq!(Up.rotate(), Right);
    assert_eq!(Left.rotate(), Up);
    assert!(Inputs::from_slice(&[Up, Down]).meant_for_art());
    assert!(!Inputs::from_slice(&[Up]).meant_for_art());
}

#[test]
fn trie_insert_and_try_insert() {
    let mut trie: InputsTrie<u32> = InputsTrie::new();
    let lr = Inputs::from_slice(&[Left, Right]);
    let rl = Inputs::from_slice(&[Right, Left]);
    assert_eq!(trie.get(lr), None);
    assert_eq!(trie.get_or_default(lr), 0);
    trie.insert(lr, 5600);
    assert_eq!(trie.get(lr), Some(5600));
    assert_eq!(trie.get(rl), None);
    trie.try_insert(lr, 1);
    assert_eq!(trie.get(lr), Some(5600));
    trie.try_insert(rl, 7200);
    assert_eq!(trie.get(rl), Some(7200));
    trie.insert(lr, 5700);
    assert_eq!(trie.get_or_default(lr), 5700);
    let entries = trie.iter();
    assert_eq!(entries, vec![(rl, 7200), (lr, 5700)]);
}

const RATE: u16 = 60;

#[test]
fn buffer_keys_build_a_motion() {
    let mut b = InputBuffer::new();
    let m = b.update_keys(false, false, false, true, RATE);
    assert_eq!(m, Inputs::from_slice(&[Left]));
    // a key held down adds nothing
    let m = b.update_keys(false, false, false, true, RATE);
    assert_eq!(m, Inputs::from_slice(&[Left]));
    let m = b.update_keys(false, true, false, false, RATE);
    assert_eq!(m, Inputs::from_slice(&[Left, Right]));
    let m = b.update_keys(false, false, false, false, RATE);
    assert_eq!(m, Inputs::from_slice(&[Left, Right]));
    assert_eq!(b.inputs(), Inputs::from_slice(&[Left, Right]));
}

#[test]
fn buffer_full_starts_over() {
    let mut b = InputBuffer::new();
    for (up, right, down, left) in [
        (true, false, false, false),
        (false, true, false, false),
        (false, false, true, false),
        (false, false, false, true),
    ] {
        b.update_keys(up, right, down, left, RATE);
    }
    assert_eq!(b.inputs(), Inputs::from_slice(&[Left]));
}

#[test]
fn buffer_stale_starts_over() {
    let mut b = InputBuffer::new();
    b.update_keys(true, false, false, false, RATE);
    for _ in 0..11 {
        b.update_keys(false, false, false, false, RATE);
    }
    let m = b.update_keys(false, false, true, false, RATE);
    assert_eq!(m, Inputs::from_slice(&[Down]));
}

#[test]
fn single_direction_expires_after_short_delay() {
    let mut b = InputBuffer::new();
    b.update_keys(true, false, false, false, RATE);
    assert!(!b.expired(RATE));
    b.update_keys(false, false, false, false, RATE);
    assert!(!b.expired(RATE));
    b.update_keys(false, false, false, false, RATE);
    assert!(b.expired(RATE));
}

#[test]
fn held_single_direction_does_not_expire_early() {
    let mut b = InputBuffer::new();
    b.update_keys(true, false, false, false, RATE);
    for _ in 0..5 {
        b.update_keys(true, false, false, false, RATE);
    }
    assert!(!b.expired(RATE));
    for _ in 0..5 {
        b.update_keys(true, false, false, false, RATE);
    }
    assert!(b.expired(RATE));
}

#[test]
fn two_directions_expire_after_long_delay() {
    let mut b = InputBuffer::new();
    b.update_keys(false, false, false, true, RATE);
    b.update_keys(false, true, false, false, RATE);
    for _ in 0..9 {
        b.update_keys(false, false, false, false, RATE);
        assert!(!b.expired(RATE));
    }
    b.update_keys(false, false, false, false, RATE);
    assert!(b.expired(RATE));
}

#[test]
fn delays_scale_with_rate() {
    let mut b = InputBuffer::new();
    b.update_keys(false, false, false, true, 120);
    b.update_keys(false, true, false, false, 120);
    for _ in 0..19 {
        b.update_keys(false, false, false, false, 120);
    }
    assert!(!b.expired(120));
    b.update_keys(false, false, false, false, 120);
    assert!(b.expired(120));
}

#[test]
fn clear_forgets_motion() {
    let mut b = InputBuffer::new();
    b.update_keys(false, false, false, true, RATE);
    b.clear();
    assert_eq!(b.inputs(), Inputs::new());
}

#[test]
fn stick_thresholds() {
    let mut b = InputBuffer::new();
    // below the common threshold: neutral
    assert_eq!(b.update_joystick(-27000, 0, RATE), Inputs::new());
    assert_eq!(b.update_joystick(-27795, 0, RATE), Inputs::from_slice(&[Left]));
    // holding the direction adds nothing
    assert_eq!(b.update_joystick(-30000, 0, RATE), Inputs::from_slice(&[Left]));
    // a reversal needs the low threshold only
    assert_eq!(b.update_joystick(13080, 0, RATE), Inputs::from_slice(&[Left, Right]));
    // a quarter turn needs the high threshold
    assert_eq!(b.update_joystick(0, 29000, RATE), Inputs::from_slice(&[Left, Right]));
    assert_eq!(b.update_joystick(0, 29430, RATE), Inputs::from_slice(&[Left, Right, Up]));
}

#[test]
fn stick_tie_is_vertical_and_neutral_repeats() {
    let mut b = InputBuffer::new();
    assert_eq!(b.update_joystick(30000, -30000, RATE), Inputs::from_slice(&[Down]));
    assert_eq!(b.update_joystick(0, 0, RATE), Inputs::from_slice(&[Down]));
    assert_eq!(b.update_joystick(0, -32768, RATE), Inputs::from_slice(&[Down, Down]));
}

#[test]
fn same_motion_compares_directions() {
    let a = Inputs::from_slice(&[Left, Right]);
    let b = Inputs::from_slice(&[Right, Left]).rev();
    assert!(Inputs::same_motion(a, b));
    assert!(!Inputs::same_motion(a, Inputs::from_slice(&[Left])));
}
