use vstd::prelude::*;

use crate::frame::{actual_frames, Frames};

verus! {

/// One of the four compass directions that make up a motion.
#[derive(Clone, Copy, Debug, PartialEq, Eq, Hash, Structural)]
pub enum Input {
    Up,
    Right,
    Down,
    Left,
}

impl Input {
    /// The direction pointing the other way.
    pub open spec fn opposite_of(self) -> Input {
        Input::from_digit((self.repr() + 2) % 4)
    }

    /// The next direction clockwise.
    pub open spec fn rotation_of(self) -> Input {
        Input::from_digit((self.repr() + 1) % 4)
    }

    /// The digit (0..4) that stands for this direction in a motion code.
    pub open spec fn repr(self) -> int {
        match self {
            Input::Up => 0,
            Input::Right => 1,
            Input::Down => 2,
            Input::Left => 3,
        }
    }

    pub open spec fn from_digit(d: int) -> Input {
        if d == 0 {
            Input::Up
        } else if d == 1 {
            Input::Right
        } else if d == 2 {
            Input::Down
        } else {
            Input::Left
        }
    }

    fn from_repr(repr: u8) -> (r: Input)
        requires
            repr < 4,
        ensures
            r == Input::from_digit(repr as int),
            r.repr() == repr,
    {
        match repr {
            0 => Input::Up,
            1 => Input::Right,
            2 => Input::Down,
            _ => Input::Left,
        }
    }

    fn as_repr(self) -> (r: u8)
        ensures
            r as int == self.repr(),
    {
        match self {
            Input::Up => 0,
            Input::Right => 1,
            Input::Down => 2,
            Input::Left => 3,
        }
    }

    /// The direction pointing the other way.
    pub fn opposite(self) -> (r: Input)
        ensures
            r == self.opposite_of(),
            r.repr() == (self.repr() + 2) % 4,
    {
        Input::from_repr((self.as_repr() + 2) % 4)
    }

    /// The next direction clockwise.
    pub fn rotate(self) -> (r: Input)
        ensures
            r == self.rotation_of(),
            r.repr() == (self.repr() + 1) % 4,
    {
        Input::from_repr((self.as_repr() + 1) % 4)
    }
}


/// The place value of the `i`-th element of a motion in its code.
pub open spec fn place(i: int) -> int {
    if i == 0 {
        64
    } else if i == 1 {
        16
    } else {
        4
    }
}

/// The digit held by the `i`-th place of a code.
pub open spec fn digit_at(v: int, i: int) -> int {
    (v / place(i)) % 4
}

/// The motion that a code stands for: its length is the lowest digit, the elements
/// follow from the highest digit down.
pub open spec fn decode(v: int) -> Seq<Input> {
    Seq::new((v % 4) as nat, |i: int| Input::from_digit(digit_at(v, i)))
}

/// The perfect hash of a motion of at most three elements.
pub open spec fn encode(s: Seq<Input>) -> int {
    s.len() + (if s.len() > 0 { s[0].repr() * 64 } else { 0 }) + (if s.len() > 1 {
        s[1].repr() * 16
    } else {
        0
    }) + (if s.len() > 2 { s[2].repr() * 4 } else { 0 })
}

/// A code is the hash of the motion that it decodes to.
pub open spec fn is_code(v: int) -> bool {
    0 <= v < 256 && encode(decode(v)) == v
}

/// Decoding the hash of a motion of at most three elements gives the motion back.
pub proof fn lemma_decode_encode(s: Seq<Input>)
    requires
        s.len() <= 3,
    ensures
        decode(encode(s)) == s,
        is_code(encode(s)),
{
    let v = encode(s);
    let a = if s.len() > 0 { s[0].repr() } else { 0 };
    let b = if s.len() > 1 { s[1].repr() } else { 0 };
    let c = if s.len() > 2 { s[2].repr() } else { 0 };
    assert(v == a * 64 + b * 16 + c * 4 + s.len());
    assert(v % 4 == s.len());
    assert(digit_at(v, 0) == a);
    assert(digit_at(v, 1) == b);
    assert(digit_at(v, 2) == c);
    assert(decode(v) =~= s);
}

/// The hash is injective on motions of at most three elements.
pub proof fn lemma_encode_injective(s: Seq<Input>, t: Seq<Input>)
    requires
        s.len() <= 3,
        t.len() <= 3,
        encode(s) == encode(t),
    ensures
        s == t,
{
    lemma_decode_encode(s);
    lemma_decode_encode(t);
}


/// A motion of at most three directions, held as its perfect hash.
#[derive(Clone, Copy, Debug, PartialEq, Eq, Hash, Structural)]
pub struct Inputs {
    value: u8,
}

impl View for Inputs {
    type V = Seq<Input>;

    closed spec fn view(&self) -> Seq<Input> {
        decode(self.value as int)
    }
}

impl Inputs {
    pub const CAP: u8 = 3;

    #[verifier::type_invariant]
    closed spec fn well_formed(self) -> bool {
        is_code(self.value as int)
    }

    /// The empty motion.
    pub fn new() -> (r: Inputs)
        ensures
            r@ == Seq::<Input>::empty(),
    {
        let r = Inputs { value: 0 };
        assert(r@ =~= Seq::<Input>::empty());
        r
    }

    /// The motion whose hash is `perfect_hash`.
    pub fn from_perfect_hash(perfect_hash: usize) -> (r: Inputs)
        requires
            is_code(perfect_hash as int),
        ensures
            r@ == decode(perfect_hash as int),
    {
        Inputs { value: perfect_hash as u8 }
    }

    /// Appends `input` unless three directions are held already; returns whether it did.
    pub fn push(&mut self, input: Input) -> (r: bool)
        ensures
            r == (old(self)@.len() < 3),
            r ==> final(self)@ == old(self)@.push(input),
            !r ==> *final(self) == *old(self),
    {
        proof {
            use_type_invariant(&*self);
        }
        let len = self.len();
        if len == Inputs::CAP {
            false
        } else {
            let ghost s = self@;
            let mult: u8 = if len == 0 {
                64
            } else if len == 1 {
                16
            } else {
                4
            };
            proof {
                lemma_decode_encode(s.push(input));
                assert(encode(s.push(input)) == self.value + input.repr() * mult + 1);
            }
            self.value = self.value + input.as_repr() * mult + 1;
            true
        }
    }

    /// Removes and returns the last direction, if any.
    pub fn pop(&mut self) -> (r: Option<Input>)
        ensures
            old(self)@.len() == 0 ==> r.is_none() && *final(self) == *old(self),
            old(self)@.len() > 0 ==> r == Some(old(self)@.last()) && final(self)@
                == old(self)@.drop_last(),
    {
        proof {
            use_type_invariant(&*self);
        }
        let len = self.len();
        if len == 0 {
            None
        } else {
            let ghost s = self@;
            let mult: u8 = if len == 1 {
                64
            } else if len == 2 {
                16
            } else {
                4
            };
            let last = self.value / mult % 4;
            proof {
                assert(last == digit_at(self.value as int, len - 1));
                assert(s.last() == Input::from_digit(last as int));
                lemma_decode_encode(s.drop_last());
                assert(encode(s.drop_last()) == self.value - last * mult - 1);
            }
            self.value = self.value - last * mult - 1;
            Some(Input::from_repr(last))
        }
    }

    /// The last direction, if any.
    pub fn last(self) -> (r: Option<Input>)
        ensures
            self@.len() == 0 ==> r.is_none(),
            self@.len() > 0 ==> r == Some(self@.last()),
    {
        let mut copy = self;
        copy.pop()
    }

    /// The same directions in the opposite order.
    pub fn rev(self) -> (r: Inputs)
        ensures
            r@ == self@.reverse(),
    {
        proof {
            use_type_invariant(self);
        }
        let mut src = self;
        let mut rev = Inputs::new();
        while src.len() > 0
            invariant
                src@ == self@.subrange(0, src@.len() as int),
                rev@.len() + src@.len() == self@.len(),
                self@.len() <= 3,
                forall|i: int|
                    0 <= i < rev@.len() ==> rev@[i] == self@[self@.len() - 1 - i],
            decreases src@.len(),
        {
            if let Some(input) = src.pop() {
                rev.push(input);
            }
        }
        assert(rev@ =~= self@.reverse());
        rev
    }

    /// Makes the motion empty.
    pub fn clear(&mut self)
        ensures
            final(self)@ == Seq::<Input>::empty(),
    {
        *self = Inputs::new();
    }

    /// The number of directions held.
    pub fn len(self) -> (r: u8)
        ensures
            r == self@.len(),
            r <= 3,
    {
        self.value % 4
    }

    /// The perfect hash of the motion.
    pub fn perfect_hash(self) -> (r: usize)
        ensures
            r == encode(self@),
            r < 256,
    {
        proof {
            use_type_invariant(self);
        }
        self.value as usize
    }

    /// Whether the motion is long enough to mean a combat art rather than movement.
    pub fn meant_for_art(self) -> (r: bool)
        ensures
            r == (self@.len() >= 2),
    {
        self.len() >= 2
    }

    /// Whether two motions hold the same directions; exactly then they are the same value.
    pub fn same_motion(a: Inputs, b: Inputs) -> (r: bool)
        ensures
            r == (a@ == b@),
            r == (a == b),
    {
        proof {
            use_type_invariant(a);
            use_type_invariant(b);
            if a@ == b@ {
                assert(a.value == b.value);
            }
        }
        a.value == b.value
    }

    /// The motion made of the directions of `s`.
    pub fn from_slice(s: &[Input]) -> (r: Inputs)
        requires
            s@.len() <= 3,
        ensures
            r@ == s@,
    {
        let mut r = Inputs::new();
        let mut i: usize = 0;
        while i < s.len()
            invariant
                i <= s@.len() <= 3,
                r@ == s@.subrange(0, i as int),
            decreases s@.len() - i,
        {
            r.push(s[i]);
            i = i + 1;
            assert(r@ =~= s@.subrange(0, i as int));
        }
        assert(r@ =~= s@);
        r
    }
}


/// A table from motions to values with one slot for each hash.
pub struct InputsTrie<T> {
    array: Vec<Option<T>>,
}

impl<T: Copy> View for InputsTrie<T> {
    type V = Map<Seq<Input>, T>;

    closed spec fn view(&self) -> Map<Seq<Input>, T> {
        Map::new(
            |k: Seq<Input>| k.len() <= 3 && self.array@[encode(k)].is_some(),
            |k: Seq<Input>| self.array@[encode(k)].unwrap(),
        )
    }
}

/// The value that a table holds for a motion, if any.
pub open spec fn lookup<T>(m: Map<Seq<Input>, T>, k: Seq<Input>) -> Option<T> {
    if m.contains_key(k) {
        Some(m[k])
    } else {
        None
    }
}

impl<T> InputsTrie<T> {
    /// The table has one slot per hash, and only the hashes of motions are filled.
    pub closed spec fn wf(&self) -> bool {
        &&& self.array@.len() == 256
        &&& forall|h: int| 0 <= h < 256 && #[trigger] self.array@[h].is_some() ==> is_code(h)
    }
}

impl<T: Copy> InputsTrie<T> {
    /// Every key of a table is a motion of at most three directions.
    proof fn lemma_keys(&self, k: Seq<Input>)
        requires
            k.len() <= 3,
        ensures
            0 <= encode(k) < 256,
            self@.contains_key(k) == self.array@[encode(k)].is_some(),
            self@.contains_key(k) ==> self@[k] == self.array@[encode(k)].unwrap(),
    {
        lemma_decode_encode(k);
    }

    /// An empty table.
    pub fn new() -> (r: InputsTrie<T>)
        ensures
            r.wf(),
            r@ == Map::<Seq<Input>, T>::empty(),
    {
        let mut array: Vec<Option<T>> = Vec::new();
        let mut i: usize = 0;
        while i < 256
            invariant
                i <= 256,
                array@.len() == i,
                forall|h: int| 0 <= h < i ==> array@[h].is_none(),
            decreases 256 - i,
        {
            array.push(None);
            i = i + 1;
        }
        let r = InputsTrie { array };
        assert(r@ =~= Map::<Seq<Input>, T>::empty());
        r
    }

    /// The value bound to `inputs`, if any.
    pub fn get(&self, inputs: Inputs) -> (r: Option<T>)
        requires
            self.wf(),
        ensures
            r == lookup(self@, inputs@),
    {
        let h = inputs.perfect_hash();
        proof {
            self.lemma_keys(inputs@);
        }
        self.array[h]
    }

    /// Binds `value` to `inputs`, replacing what was bound before.
    pub fn insert(&mut self, inputs: Inputs, value: T)
        requires
            old(self).wf(),
        ensures
            final(self).wf(),
            final(self)@ == old(self)@.insert(inputs@, value),
    {
        let h = inputs.perfect_hash();
        let ghost before = *self;
        proof {
            lemma_decode_encode(inputs@);
        }
        self.array.set(h, Some(value));
        proof {
            assert forall|k: Seq<Input>| k.len() <= 3 && k != inputs@ implies encode(k) != h by {
                if encode(k) == h {
                    lemma_encode_injective(k, inputs@);
                }
            }
            assert(self@ =~= before@.insert(inputs@, value));
        }
    }

    /// Binds `value` to `inputs` only where nothing is bound yet.
    pub fn try_insert(&mut self, inputs: Inputs, value: T)
        requires
            old(self).wf(),
        ensures
            final(self).wf(),
            old(self)@.contains_key(inputs@) ==> final(self)@ == old(self)@,
            !old(self)@.contains_key(inputs@) ==> final(self)@ == old(self)@.insert(
                inputs@,
                value,
            ),
    {
        proof {
            self.lemma_keys(inputs@);
        }
        let h = inputs.perfect_hash();
        if self.array[h].is_none() {
            self.insert(inputs, value);
        }
    }

    /// The bindings in the order of their hashes.
    pub fn iter(&self) -> (r: Vec<(Inputs, T)>)
        requires
            self.wf(),
        ensures
            forall|i: int|
                0 <= i < r@.len() ==> self@.contains_key(#[trigger] r@[i].0@) && self@[r@[i].0@]
                    == r@[i].1,
            forall|k: Seq<Input>|
                #[trigger] self@.contains_key(k) ==> exists|i: int|
                    0 <= i < r@.len() && #[trigger] r@[i].0@ == k,
            forall|i: int, j: int|
                0 <= i < j < r@.len() ==> encode(#[trigger] r@[i].0@) < encode(#[trigger] r@[j].0@),
    {
        let mut r: Vec<(Inputs, T)> = Vec::new();
        let mut h: usize = 0;
        while h < 256
            invariant
                h <= 256,
                self.array@.len() == 256,
                forall|g: int| 0 <= g < 256 && #[trigger] self.array@[g].is_some() ==> is_code(g),
                forall|i: int|
                    0 <= i < r@.len() ==> self@.contains_key(#[trigger] r@[i].0@) && self@[r@[i].0@]
                        == r@[i].1 && encode(r@[i].0@) < h,
                forall|k: Seq<Input>|
                    #[trigger] self@.contains_key(k) && encode(k) < h ==> exists|i: int|
                        0 <= i < r@.len() && #[trigger] r@[i].0@ == k,
                forall|i: int, j: int|
                    0 <= i < j < r@.len() ==> encode(#[trigger] r@[i].0@) < encode(
                        #[trigger] r@[j].0@,
                    ),
            decreases 256 - h,
        {
            let ghost prev = r@;
            if let Some(value) = self.array[h] {
                let key = Inputs::from_perfect_hash(h);
                proof {
                    lemma_decode_encode(key@);
                    assert(encode(key@) == h);
                }
                r.push((key, value));
                assert(r@[r@.len() - 1].0@ == key@);
            }
            proof {
                assert forall|k: Seq<Input>|
                    #[trigger] self@.contains_key(k) && encode(k) < h + 1 implies exists|i: int|
                        0 <= i < r@.len() && #[trigger] r@[i].0@ == k by {
                    if encode(k) == h {
                        lemma_decode_encode(k);
                        assert(r@[r@.len() - 1].0@ == k);
                    } else {
                        let i = choose|i: int| 0 <= i < prev.len() && #[trigger] prev[i].0@ == k;
                        assert(r@[i] == prev[i]);
                    }
                }
            }
            h = h + 1;
        }
        r
    }
}

impl<T: Copy + Default> InputsTrie<T> {
    /// The value bound to `inputs`, or `T`'s default where none is.
    pub fn get_or_default(&self, inputs: Inputs) -> (r: T)
        requires
            self.wf(),
        ensures
            self@.contains_key(inputs@) ==> r == self@[inputs@],
            !self@.contains_key(inputs@) ==> call_ensures(T::default, (), r),
    {
        match self.get(inputs) {
            Some(value) => value,
            None => T::default(),
        }
    }
}


/// Standard frames after the last new direction within which the next one extends the motion.
pub const MAX_INTERVAL: u16 = 10;

/// Standard frames after which a motion of any length has run out.
pub const MAX_DELAY: u16 = 10;

/// Standard frames after which a single released direction has run out.
pub const MAX_DELAY_FOR_SINGLE_INPUT: u16 = 2;

/// The largest deflection of an analog stick along one axis.
pub const MAX_DISTANCE: u16 = 32767;

/// Deflection needed for a direction in general.
pub const COMMON_THRESHOLD: u16 = MAX_DISTANCE / 100 * 85;

/// Deflection needed for a quarter turn away from the last direction.
pub const ROTATE_THRESHOLD: u16 = MAX_DISTANCE / 100 * 90;

/// Deflection needed for a reversal of the last direction.
pub const BOUNCE_THRESHOLD: u16 = MAX_DISTANCE / 100 * 40;

/// The motion after a new direction: a full or stale motion starts over.
pub open spec fn after_push(s: Seq<Input>, input: Input, stale: bool) -> Seq<Input> {
    if s.len() >= 3 || stale {
        seq![input]
    } else {
        s.push(input)
    }
}

/// The motion after one key was read: a key that went down adds its direction.
pub open spec fn after_key(s: Seq<Input>, was_down: bool, down: bool, input: Input, stale: bool) -> Seq<
    Input,
> {
    if !was_down && down {
        after_push(s, input, stale)
    } else {
        s
    }
}

/// The age after a frame: a new direction resets it, else it grows up to `u16::MAX`.
pub open spec fn aged(age: int, updated: bool) -> int {
    if updated {
        0
    } else if age < u16::MAX {
        age + 1
    } else {
        age
    }
}

pub open spec fn abs_of(v: int) -> int {
    if v < 0 {
        -v
    } else {
        v
    }
}

/// The direction of the axis deflected most; a tie counts as vertical.
pub open spec fn stick_direction(x: int, y: int) -> Input {
    if abs_of(y) >= abs_of(x) {
        if y > 0 {
            Input::Up
        } else {
            Input::Down
        }
    } else if x > 0 {
        Input::Right
    } else {
        Input::Left
    }
}

/// The deflection that `input` needs after the last direction of the motion.
pub open spec fn stick_threshold(last: Option<Input>, input: Input) -> int {
    match last {
        None => COMMON_THRESHOLD as int,
        Some(l) => if input == l {
            COMMON_THRESHOLD as int
        } else if input == l.opposite_of() {
            BOUNCE_THRESHOLD as int
        } else {
            ROTATE_THRESHOLD as int
        },
    }
}

/// The last element of a motion, if any.
pub open spec fn last_of(s: Seq<Input>) -> Option<Input> {
    if s.len() == 0 {
        None
    } else {
        Some(s.last())
    }
}

/// Whether a motion of `len` directions, `idle` frames after its last one, has run out at
/// `rate`: a single released direction after the short delay, any motion after the long one.
pub open spec fn expired_when(len: int, idle: int, released: bool, rate: int) -> bool {
    (len == 1 && released && idle >= actual_frames(MAX_DELAY_FOR_SINGLE_INPUT as int, rate))
        || idle >= actual_frames(MAX_DELAY as int, rate)
}

/// A rolling buffer of the most recent motion, up to three directions, that runs out after a
/// few frames without a new direction.
pub struct InputBuffer {
    inputs: Inputs,
    age: u16,
    neutral: bool,
    keys_down: [bool; 4],
}

impl InputBuffer {
    /// The directions of the current motion.
    pub closed spec fn motion(self) -> Seq<Input> {
        self.inputs@
    }

    /// Frames since the last new direction.
    pub closed spec fn idle(self) -> int {
        self.age as int
    }

    /// Whether the stick was last seen in its neutral zone.
    pub closed spec fn neutral(self) -> bool {
        self.neutral
    }

    /// Which of the keys Up, Right, Down, Left were last seen down.
    pub closed spec fn keys(self) -> Seq<bool> {
        self.keys_down@
    }

    /// Whether the stick is neutral and no key is down.
    pub open spec fn is_released(self) -> bool {
        self.neutral() && !self.keys()[0] && !self.keys()[1] && !self.keys()[2] && !self.keys()[3]
    }

    /// Whether the motion has gone stale at `rate`: older than the longest gap between its
    /// directions.
    pub open spec fn stale(self, rate: int) -> bool {
        self.idle() > actual_frames(MAX_INTERVAL as int, rate)
    }

    /// Whether the motion has run out at `rate`.
    pub open spec fn is_expired(self, rate: int) -> bool {
        expired_when(self.motion().len() as int, self.idle(), self.is_released(), rate)
    }

    /// An empty buffer, with the stick neutral and every key up.
    pub fn new() -> (r: InputBuffer)
        ensures
            r.motion() == Seq::<Input>::empty(),
            r.idle() == 0,
            r.neutral(),
            r.keys() == seq![false, false, false, false],
    {
        let r = InputBuffer {
            inputs: Inputs::new(),
            age: 0,
            neutral: true,
            keys_down: [false, false, false, false],
        };
        assert(r.keys() =~= seq![false, false, false, false]);
        r
    }

    fn push(&mut self, input: Input, rate: u16)
        requires
            old(self).motion().len() <= 3,
        ensures
            final(self).motion() == after_push(old(self).motion(), input, old(self).stale(rate as int)),
            final(self).idle() == old(self).idle(),
            final(self).neutral() == old(self).neutral(),
            final(self).keys() == old(self).keys(),
    {
        if self.inputs.len() >= Inputs::CAP || self.age > Frames::standard(MAX_INTERVAL).as_actual(rate) {
            self.inputs.clear();
        }
        self.inputs.push(input);
    }

    fn age(&mut self, updated: bool)
        ensures
            final(self).idle() == aged(old(self).idle(), updated),
            final(self).motion() == old(self).motion(),
            final(self).neutral() == old(self).neutral(),
            final(self).keys() == old(self).keys(),
    {
        if updated {
            self.age = 0;
        } else {
            self.age = self.age.saturating_add(1);
        }
    }

    fn press(&mut self, i: usize, down: bool, input: Input, rate: u16) -> (r: bool)
        requires
            i < 4,
            old(self).motion().len() <= 3,
        ensures
            r == (!old(self).keys()[i as int] && down),
            final(self).motion() == after_key(
                old(self).motion(),
                old(self).keys()[i as int],
                down,
                input,
                old(self).stale(rate as int),
            ),
            final(self).motion().len() <= 3,
            final(self).idle() == old(self).idle(),
            final(self).neutral() == old(self).neutral(),
            final(self).keys() == old(self).keys().update(i as int, down),
    {
        let pressed = !self.keys_down[i] && down;
        if pressed {
            self.push(input, rate);
        }
        self.keys_down[i] = down;
        pressed
    }

    /// The motion after the keys were read.
    pub open spec fn keys_motion(self, up: bool, right: bool, down: bool, left: bool, rate: int) -> Seq<
        Input,
    > {
        let k = self.keys();
        let st = self.stale(rate);
        let s1 = after_key(self.motion(), k[0], up, Input::Up, st);
        let s2 = after_key(s1, k[1], right, Input::Right, st);
        let s3 = after_key(s2, k[2], down, Input::Down, st);
        after_key(s3, k[3], left, Input::Left, st)
    }

    /// Whether a key went down.
    pub open spec fn keys_pressed(self, up: bool, right: bool, down: bool, left: bool) -> bool {
        let k = self.keys();
        (!k[0] && up) || (!k[1] && right) || (!k[2] && down) || (!k[3] && left)
    }

    /// The larger deflection of the two axes.
    pub open spec fn stick_distance(x: int, y: int) -> int {
        if abs_of(x) > abs_of(y) {
            abs_of(x)
        } else {
            abs_of(y)
        }
    }

    /// Whether the stick is out of its neutral zone for the direction it points in.
    pub open spec fn stick_outside(self, x: int, y: int) -> bool {
        InputBuffer::stick_distance(x, y) >= stick_threshold(
            last_of(self.motion()),
            stick_direction(x, y),
        )
    }

    /// Whether the stick gives a new direction: out of the neutral zone, coming from it or
    /// pointing elsewhere than the last direction.
    pub open spec fn stick_pressed(self, x: int, y: int) -> bool {
        let last = last_of(self.motion());
        self.stick_outside(x, y) && (self.neutral() || (last.is_some() && last != Some(
            stick_direction(x, y),
        )))
    }

    /// The motion after the stick was read.
    pub open spec fn stick_motion(self, x: int, y: int, rate: int) -> Seq<Input> {
        if self.stick_pressed(x, y) {
            after_push(self.motion(), stick_direction(x, y), self.stale(rate))
        } else {
            self.motion()
        }
    }

    /// Reads the four keys at `rate` frames per second; returns the motion.
    pub fn update_keys(&mut self, up: bool, right: bool, down: bool, left: bool, rate: u16) -> (r:
        Inputs)
        ensures
            final(self).motion() == old(self).keys_motion(up, right, down, left, rate as int),
            final(self).idle() == aged(old(self).idle(), old(self).keys_pressed(up, right, down, left)),
            final(self).keys() == seq![up, right, down, left],
            final(self).neutral() == old(self).neutral(),
            r@ == final(self).motion(),
    {
        let p0 = self.press(0, up, Input::Up, rate);
        let p1 = self.press(1, right, Input::Right, rate);
        let p2 = self.press(2, down, Input::Down, rate);
        let p3 = self.press(3, left, Input::Left, rate);
        self.age(p0 || p1 || p2 || p3);
        assert(self.keys() =~= seq![up, right, down, left]);
        self.inputs
    }

    /// Reads the analog stick at `rate` frames per second; returns the motion.
    pub fn update_joystick(&mut self, x: i16, y: i16, rate: u16) -> (r: Inputs)
        ensures
            final(self).neutral() == !old(self).stick_outside(x as int, y as int),
            final(self).motion() == old(self).stick_motion(x as int, y as int, rate as int),
            final(self).idle() == aged(old(self).idle(), old(self).stick_pressed(x as int, y as int)),
            final(self).keys() == old(self).keys(),
            r@ == final(self).motion(),
    {
        let x_abs: u16 = if x < 0 {
            (-(x as i32)) as u16
        } else {
            x as u16
        };
        let y_abs: u16 = if y < 0 {
            (-(y as i32)) as u16
        } else {
            y as u16
        };
        let input = if y_abs >= x_abs {
            if y > 0 {
                Input::Up
            } else {
                Input::Down
            }
        } else {
            if x > 0 {
                Input::Right
            } else {
                Input::Left
            }
        };
        // the neutral zone is a square: the distance is the Chebyshev one
        let distance = if x_abs > y_abs {
            x_abs
        } else {
            y_abs
        };
        let last = self.inputs.last();
        let threshold = match last {
            None => COMMON_THRESHOLD,
            Some(l) => {
                if input == l {
                    COMMON_THRESHOLD
                } else if input == l.opposite() {
                    // reversals (up-down, left-right) come easier
                    BOUNCE_THRESHOLD
                } else {
                    // quarter turns come harder
                    ROTATE_THRESHOLD
                }
            },
        };
        let mut updated = false;
        if distance < threshold {
            self.neutral = true;
        } else {
            let moved = match last {
                Some(l) => l != input,
                None => false,
            };
            if self.neutral || moved {
                self.push(input, rate);
                updated = true;
            }
            self.neutral = false;
        }
        self.age(updated);
        self.inputs
    }

    /// Whether the motion has run out at `rate` frames per second.
    pub fn expired(&self, rate: u16) -> (r: bool)
        ensures
            r == self.is_expired(rate as int),
    {
        (self.inputs.len() == 1 && self.released() && self.age >= Frames::standard(
            MAX_DELAY_FOR_SINGLE_INPUT,
        ).as_actual(rate)) || self.age >= Frames::standard(MAX_DELAY).as_actual(rate)
    }

    fn released(&self) -> (r: bool)
        ensures
            r == self.is_released(),
    {
        self.neutral && !self.keys_down[0] && !self.keys_down[1] && !self.keys_down[2]
            && !self.keys_down[3]
    }

    /// Forgets the motion.
    pub fn clear(&mut self)
        ensures
            final(self).motion() == Seq::<Input>::empty(),
            final(self).idle() == 0,
            final(self).neutral() == old(self).neutral(),
            final(self).keys() == old(self).keys(),
    {
        self.inputs.clear();
        self.age = 0;
    }

    /// The current motion.
    pub fn inputs(&self) -> (r: Inputs)
        ensures
            r@ == self.motion(),
    {
        self.inputs
    }
}


/// A new direction is last in the motion after it; the directions before it are the motion
/// from before, unless the motion was full or stale and started over.
pub proof fn lemma_push_then_pop(s: Seq<Input>, input: Input, stale: bool)
    requires
        s.len() <= 3,
    ensures
        after_push(s, input, stale).last() == input,
        s.len() < 3 && !stale ==> after_push(s, input, stale).drop_last() == s,
        s.len() == 3 || stale ==> after_push(s, input, stale).drop_last() == Seq::<Input>::empty(),
{
    assert(s.push(input).drop_last() =~= s);
    assert(seq![input].drop_last() =~= Seq::<Input>::empty());
}

/// A single released direction runs out after the short delay, a single held one after the
/// long delay; two directions stay until the long delay, whatever is held; and the short delay
/// is no longer than the long one.
pub proof fn lemma_expiry(b: InputBuffer, rate: int)
    requires
        rate >= 0,
    ensures
        b.motion().len() == 1 && b.is_released() ==> (b.is_expired(rate) == (b.idle()
            >= actual_frames(MAX_DELAY_FOR_SINGLE_INPUT as int, rate))),
        b.motion().len() == 1 && !b.is_released() ==> (b.is_expired(rate) == (b.idle()
            >= actual_frames(MAX_DELAY as int, rate))),
        b.motion().len() == 2 ==> (b.is_expired(rate) == (b.idle() >= actual_frames(
            MAX_DELAY as int,
            rate,
        ))),
        actual_frames(MAX_DELAY_FOR_SINGLE_INPUT as int, rate) <= actual_frames(
            MAX_DELAY as int,
            rate,
        ),
{
    assert(2 * rate / 60 <= 10 * rate / 60) by (nonlinear_arith)
        requires
            rate >= 0,
    ;
}

} // verus!
