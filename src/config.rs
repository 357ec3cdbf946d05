use vstd::prelude::*;

use vstd::string::StringSliceAdditionalSpecFns;

use crate::parse::{bindings_of, parse_bindings};
use crate::input::{encode, lemma_decode_encode, lemma_encode_injective, lookup, Input, Inputs, InputsTrie};

verus! {

/// The motions that also stand for `s` where the author left them unbound: the reversed pair of
/// a two-direction motion, the two half circles through the other directions between a pair of
/// opposites, and the other orders of Left, Down, Right.
pub open spec fn alternatives(s: Seq<Input>) -> Seq<Seq<Input>> {
    if s.len() == 2 {
        let head = s[0];
        let tail = s[1];
        if tail == head.opposite_of() {
            seq![
                seq![tail, head],
                seq![head, tail.rotation_of(), tail],
                seq![head, head.rotation_of(), tail],
            ]
        } else {
            seq![seq![tail, head]]
        }
    } else if s == seq![Input::Left, Input::Down, Input::Right] {
        seq![
            seq![Input::Left, Input::Right, Input::Down],
            seq![Input::Right, Input::Left, Input::Down],
            seq![Input::Right, Input::Down, Input::Left],
            seq![Input::Down, Input::Left, Input::Right],
            seq![Input::Down, Input::Right, Input::Left],
        ]
    } else {
        seq![]
    }
}

/// The alternative forms of `inputs`, in the order of `alternatives`.
pub fn possible_alternatives(inputs: Inputs) -> (r: Vec<Inputs>)
    ensures
        r@.len() == alternatives(inputs@).len(),
        forall|i: int| 0 <= i < r@.len() ==> (#[trigger] r@[i])@ == alternatives(inputs@)[i],
{
    let ghost s = inputs@;
    if inputs.len() == 2 {
        let mut rest = inputs;
        let tail = rest.pop().unwrap();
        let head = rest.pop().unwrap();
        assert(head == s[0] && tail == s[1]);
        let mut r: Vec<Inputs> = Vec::new();
        // keyboards may register two keys in either order
        r.push(inputs.rev());
        assert(s.reverse() =~= seq![tail, head]);
        if tail == head.opposite() {
            // a gamepad passes through a third direction on its way round
            let a = Inputs::from_slice(&[head, tail.rotate(), tail]);
            let b = Inputs::from_slice(&[head, head.rotate(), tail]);
            r.push(a);
            r.push(b);
        }
        r
    } else {
        let ldr = Inputs::from_slice(&[Input::Left, Input::Down, Input::Right]);
        proof {
            lemma_decode_encode(s);
            lemma_decode_encode(ldr@);
            if encode(s) == encode(ldr@) {
                lemma_encode_injective(s, ldr@);
            }
        }
        if inputs.perfect_hash() == ldr.perfect_hash() {
            vec![
                Inputs::from_slice(&[Input::Left, Input::Right, Input::Down]),
                Inputs::from_slice(&[Input::Right, Input::Left, Input::Down]),
                Inputs::from_slice(&[Input::Right, Input::Down, Input::Left]),
                Inputs::from_slice(&[Input::Down, Input::Left, Input::Right]),
                Inputs::from_slice(&[Input::Down, Input::Right, Input::Left]),
            ]
        } else {
            Vec::new()
        }
    }
}


/// `u` is the bound motion of smallest hash that has `k` as an alternative form.
pub open spec fn first_claimant<T>(m: Map<Seq<Input>, T>, u: Seq<Input>, k: Seq<Input>) -> bool {
    &&& m.contains_key(u)
    &&& alternatives(u).contains(k)
    &&& forall|v: Seq<Input>|
        #[trigger] m.contains_key(v) && alternatives(v).contains(k) ==> encode(u) <= encode(v)
}

/// `r` is `m` with each alternative form of a bound motion bound as well where `m` left it
/// free: the bindings of `m` stay, each alternative of a bound motion is bound, and what `r`
/// binds beyond `m` is the binding of the motion of smallest hash that has it as an
/// alternative.
pub open spec fn expanded<T>(m: Map<Seq<Input>, T>, r: Map<Seq<Input>, T>) -> bool {
    &&& forall|k: Seq<Input>| #[trigger]
        m.contains_key(k) ==> r.contains_key(k) && r[k] == m[k]
    &&& forall|u: Seq<Input>, k: Seq<Input>|
        m.contains_key(u) && #[trigger] alternatives(u).contains(k) ==> #[trigger] r.contains_key(k)
    &&& forall|k: Seq<Input>|
        #[trigger] r.contains_key(k) && !m.contains_key(k) ==> exists|u: Seq<Input>|
            #[trigger] first_claimant(m, u, k) && r[k] == m[u]
}

/// Entry `j` is the first of `entries` that has `k` as an alternative form.
pub open spec fn first_entry<T>(entries: Seq<(Inputs, T)>, j: int, k: Seq<Input>) -> bool {
    &&& 0 <= j < entries.len()
    &&& alternatives(entries[j].0@).contains(k)
    &&& forall|j2: int| 0 <= j2 < j ==> !alternatives(#[trigger] entries[j2].0@).contains(k)
}

/// Binds the alternative forms of every bound motion where nothing is bound yet; a form that
/// two bound motions share goes to the one with the smaller hash.
pub fn expand<T: Copy>(trie: &mut InputsTrie<T>)
    requires
        old(trie).wf(),
    ensures
        final(trie).wf(),
        expanded(old(trie)@, final(trie)@),
{
    let ghost m = trie@;
    let entries = trie.iter();
    let mut i: usize = 0;
    while i < entries.len()
        invariant
            i <= entries@.len(),
            trie.wf(),
            forall|j: int|
                0 <= j < entries@.len() ==> m.contains_key(#[trigger] entries@[j].0@)
                    && m[entries@[j].0@] == entries@[j].1,
            forall|k: Seq<Input>|
                #[trigger] m.contains_key(k) ==> exists|j: int|
                    0 <= j < entries@.len() && #[trigger] entries@[j].0@ == k,
            forall|k: Seq<Input>| #[trigger]
                m.contains_key(k) ==> trie@.contains_key(k) && trie@[k] == m[k],
            forall|k: Seq<Input>|
                #[trigger] trie@.contains_key(k) && !m.contains_key(k) ==> exists|j: int|
                    0 <= j < i && #[trigger] first_entry(entries@, j, k) && trie@[k]
                        == entries@[j].1,
            forall|j: int, k: Seq<Input>|
                0 <= j < i && #[trigger] alternatives(entries@[j].0@).contains(k)
                    ==> #[trigger] trie@.contains_key(k),
            forall|a: int, b: int|
                0 <= a < b < entries@.len() ==> encode(#[trigger] entries@[a].0@) < encode(
                    #[trigger] entries@[b].0@,
                ),
        decreases entries@.len() - i,
    {
        let (u, v) = entries[i];
        let alts = possible_alternatives(u);
        let mut a: usize = 0;
        while a < alts.len()
            invariant
                i < entries@.len(),
                a <= alts@.len(),
                trie.wf(),
                u == entries@[i as int].0,
                v == entries@[i as int].1,
                m.contains_key(u@),
                m[u@] == v,
                alts@.len() == alternatives(u@).len(),
                forall|b: int| 0 <= b < alts@.len() ==> (#[trigger] alts@[b])@ == alternatives(u@)[b],
                forall|k: Seq<Input>| #[trigger]
                    m.contains_key(k) ==> trie@.contains_key(k) && trie@[k] == m[k],
                forall|k: Seq<Input>|
                    #[trigger] trie@.contains_key(k) && !m.contains_key(k) ==> exists|j: int|
                        0 <= j <= i && #[trigger] first_entry(entries@, j, k) && trie@[k]
                            == entries@[j].1,
                forall|k: Seq<Input>|
                    #[trigger] trie@.contains_key(k) && !m.contains_key(k) && !alternatives(u@).contains(k) ==> exists|j: int|
                        0 <= j < i && #[trigger] first_entry(entries@, j, k) && trie@[k]
                            == entries@[j].1,
                forall|j: int, k: Seq<Input>|
                    0 <= j < i && #[trigger] alternatives(entries@[j].0@).contains(k)
                        ==> #[trigger] trie@.contains_key(k),
                forall|b: int| 0 <= b < a ==> trie@.contains_key(#[trigger] alts@[b]@),
            decreases alts@.len() - a,
        {
            let ghost before = trie@;
            let alt = alts[a];
            trie.try_insert(alt, v);
            proof {
                assert(alternatives(u@).contains(alt@)) by {
                    assert(alternatives(u@)[a as int] == alt@);
                }
                assert forall|k: Seq<Input>|
                    #[trigger] trie@.contains_key(k) && !m.contains_key(k) implies exists|j: int|
                        0 <= j <= i && #[trigger] first_entry(entries@, j, k) && trie@[k]
                            == entries@[j].1 by {
                    if k == alt@ && !before.contains_key(k) {
                        assert forall|j: int| 0 <= j < i implies !alternatives(
                            #[trigger] entries@[j].0@,
                        ).contains(k) by {
                            if alternatives(entries@[j].0@).contains(k) {
                                assert(before.contains_key(k));
                            }
                        }
                        assert(first_entry(entries@, i as int, k));
                    } else {
                        assert(before.contains_key(k));
                    }
                }
            }
            a = a + 1;
        }
        proof {
            assert forall|j: int, k: Seq<Input>|
                0 <= j < i + 1 && #[trigger] alternatives(entries@[j].0@).contains(k)
                    implies #[trigger] trie@.contains_key(k) by {
                if j == i {
                    let b = choose|b: int| 0 <= b < alternatives(u@).len() && alternatives(u@)[b] == k;
                    assert(trie@.contains_key(alts@[b]@));
                }
            }
        }
        i = i + 1;
    }
    proof {
        assert forall|w: Seq<Input>, k: Seq<Input>|
            m.contains_key(w) && #[trigger] alternatives(w).contains(k) implies #[trigger] trie@.contains_key(k) by {
            let j = choose|j: int| 0 <= j < entries@.len() && #[trigger] entries@[j].0@ == w;
            assert(alternatives(entries@[j].0@).contains(k));
        }
        assert forall|k: Seq<Input>|
            #[trigger] trie@.contains_key(k) && !m.contains_key(k) implies exists|u: Seq<Input>|
                #[trigger] first_claimant(m, u, k) && trie@[k] == m[u] by {
            let j = choose|j: int|
                0 <= j < i && #[trigger] first_entry(entries@, j, k) && trie@[k] == entries@[j].1;
            let u = entries@[j].0@;
            assert forall|v: Seq<Input>|
                #[trigger] m.contains_key(v) && alternatives(v).contains(k) implies encode(u)
                    <= encode(v) by {
                let jv = choose|jv: int| 0 <= jv < entries@.len() && #[trigger] entries@[jv].0@ == v;
                if jv < j {
                    assert(alternatives(entries@[jv].0@).contains(k));
                } else if jv > j {
                    assert(encode(entries@[j].0@) < encode(entries@[jv].0@));
                }
            }
            assert(first_claimant(m, u, k));
        }
    }
}


/// Identifies a combat art or a prosthetic tool; the same in every save file.
pub type UID = u32;

pub const COMBAT_ART_UID_MIN: UID = 5000;

pub const COMBAT_ART_UID_MAX: UID = 10000;

pub const PROSTHETIC_TOOL_UID_MIN: UID = 70000;

pub const PROSTHETIC_TOOL_UID_MAX: UID = 100000;

pub open spec fn is_art_id(id: UID) -> bool {
    COMBAT_ART_UID_MIN <= id <= COMBAT_ART_UID_MAX
}

pub open spec fn is_tool_id(id: UID) -> bool {
    PROSTHETIC_TOOL_UID_MIN <= id <= PROSTHETIC_TOOL_UID_MAX
}

/// What a line of the configuration binds a skill to.
#[derive(Clone, Copy, Debug, PartialEq, Eq, Structural)]
pub enum Trigger {
    /// A motion; the empty one is the default binding.
    Motion(Inputs),
    /// The first extra mouse button.
    X1,
    /// The second extra mouse button.
    X2,
    /// Holding block.
    Block,
}

/// What a binding's trigger stands for.
pub enum Bound {
    Motion(Seq<Input>),
    X1,
    X2,
    Block,
}

impl View for Trigger {
    type V = Bound;

    open spec fn view(&self) -> Bound {
        match *self {
            Trigger::Motion(m) => Bound::Motion(m@),
            Trigger::X1 => Bound::X1,
            Trigger::X2 => Bound::X2,
            Trigger::Block => Bound::Block,
        }
    }
}

/// The bindings with each trigger seen as what it stands for.
pub open spec fn bindings_view(b: Seq<(UID, Trigger)>) -> Seq<(UID, Bound)> {
    b.map_values(|p: (UID, Trigger)| (p.0, p.1@))
}

/// The combat arts that `e` binds, before alternative forms: a later binding of a motion
/// replaces an earlier one.
pub open spec fn explicit_arts(e: Seq<(UID, Bound)>) -> Map<Seq<Input>, UID>
    decreases e.len(),
{
    if e.len() == 0 {
        Map::empty()
    } else {
        let m = explicit_arts(e.drop_last());
        let (id, t) = e.last();
        match t {
            Bound::Motion(x) => if !is_tool_id(id) && is_art_id(id) {
                m.insert(x, id)
            } else {
                m
            },
            _ => m,
        }
    }
}

/// The tool lists that `e` binds to motions, before alternative forms, each in the order of
/// the lines.
pub open spec fn explicit_tools(e: Seq<(UID, Bound)>) -> Map<Seq<Input>, Seq<UID>>
    decreases e.len(),
{
    if e.len() == 0 {
        Map::empty()
    } else {
        let m = explicit_tools(e.drop_last());
        let (id, t) = e.last();
        match t {
            Bound::Motion(x) => if is_tool_id(id) {
                m.insert(x, (if m.contains_key(x) { m[x] } else { seq![] }).push(id))
            } else {
                m
            },
            _ => m,
        }
    }
}

/// The tools that `e` binds to the trigger `t`, which is no motion, in the order of the lines.
pub open spec fn tools_on(e: Seq<(UID, Bound)>, t: Bound) -> Seq<UID>
    decreases e.len(),
{
    if e.len() == 0 {
        seq![]
    } else {
        let s = tools_on(e.drop_last(), t);
        if is_tool_id(e.last().0) && e.last().1 == t {
            s.push(e.last().0)
        } else {
            s
        }
    }
}

/// The bindings of combat arts and prosthetic tools.
pub struct Config {
    pub arts: InputsTrie<UID>,
    /// For each motion, the place of its tool list in `tool_lists`.
    pub tools: InputsTrie<usize>,
    pub tool_lists: Vec<Vec<UID>>,
    pub tools_for_block: Vec<UID>,
    pub tools_on_x1: Vec<UID>,
    pub tools_on_x2: Vec<UID>,
}

/// The tool lists that `tools` and `lists` bind to motions.
pub open spec fn tool_map(tools: Map<Seq<Input>, usize>, lists: Seq<Vec<UID>>) -> Map<
    Seq<Input>,
    Seq<UID>,
> {
    Map::new(|k: Seq<Input>| tools.contains_key(k), |k: Seq<Input>| lists[tools[k] as int]@)
}

/// Alternative forms carry over from places to the lists at those places.
proof fn lemma_expanded_tool_map(m: Map<Seq<Input>, usize>, r: Map<Seq<Input>, usize>, lists: Seq<Vec<UID>>)
    requires
        expanded(m, r),
    ensures
        expanded(tool_map(m, lists), tool_map(r, lists)),
{
    let tm = tool_map(m, lists);
    let tr = tool_map(r, lists);
    assert forall|k: Seq<Input>|
        #[trigger] tr.contains_key(k) && !tm.contains_key(k) implies exists|u: Seq<Input>|
            #[trigger] first_claimant(tm, u, k) && tr[k] == tm[u] by {
        let u = choose|u: Seq<Input>| #[trigger] first_claimant(m, u, k) && r[k] == m[u];
        assert forall|v: Seq<Input>|
            #[trigger] tm.contains_key(v) && alternatives(v).contains(k) implies encode(u) <= encode(
                v,
            ) by {
            assert(m.contains_key(v));
        }
        assert(first_claimant(tm, u, k));
    }
}

impl Config {
    /// The tables are well formed and each motion's place is a list.
    pub open spec fn wf(&self) -> bool {
        &&& self.arts.wf()
        &&& self.tools.wf()
        &&& forall|k: Seq<Input>| #[trigger]
            self.tools@.contains_key(k) ==> self.tools@[k] < self.tool_lists@.len()
    }

    /// The tool lists bound to motions.
    pub open spec fn tool_map(&self) -> Map<Seq<Input>, Seq<UID>> {
        tool_map(self.tools@, self.tool_lists@)
    }

    /// No bindings at all.
    pub fn new() -> (r: Config)
        ensures
            r.wf(),
            r.arts@ == Map::<Seq<Input>, UID>::empty(),
            r.tools@ == Map::<Seq<Input>, usize>::empty(),
            r.tool_map() == Map::<Seq<Input>, Seq<UID>>::empty(),
            r.tools_for_block@ == Seq::<UID>::empty(),
            r.tools_on_x1@ == Seq::<UID>::empty(),
            r.tools_on_x2@ == Seq::<UID>::empty(),
    {
        let r = Config {
            arts: InputsTrie::new(),
            tools: InputsTrie::new(),
            tool_lists: Vec::new(),
            tools_for_block: Vec::new(),
            tools_on_x1: Vec::new(),
            tools_on_x2: Vec::new(),
        };
        assert(r.tool_map() =~= Map::<Seq<Input>, Seq<UID>>::empty());
        r
    }

    /// Reads the configuration text: on each line an identifier, then anything, then what it is
    /// bound to, where an item beginning with `#` begins a comment.
    pub fn parse(text: &str) -> (r: Config)
        ensures
            r.wf(),
            expanded(explicit_arts(bindings_of(text.spec_bytes())), r.arts@),
            expanded(explicit_tools(bindings_of(text.spec_bytes())), r.tool_map()),
            r.tools_for_block@ == tools_on(bindings_of(text.spec_bytes()), Bound::Block),
            r.tools_on_x1@ == tools_on(bindings_of(text.spec_bytes()), Bound::X1),
            r.tools_on_x2@ == tools_on(bindings_of(text.spec_bytes()), Bound::X2),
    {
        let bindings = parse_bindings(text.as_bytes());
        Config::from_bindings(&bindings)
    }

    /// Builds the tables from the bindings in the order of the configuration's lines, then binds
    /// the alternative forms of each bound motion where nothing is bound yet. A binding whose
    /// identifier is neither a combat art nor a tool is left out.
    pub fn from_bindings(bindings: &Vec<(UID, Trigger)>) -> (r: Config)
        ensures
            r.wf(),
            expanded(explicit_arts(bindings_view(bindings@)), r.arts@),
            expanded(explicit_tools(bindings_view(bindings@)), r.tool_map()),
            r.tools_for_block@ == tools_on(bindings_view(bindings@), Bound::Block),
            r.tools_on_x1@ == tools_on(bindings_view(bindings@), Bound::X1),
            r.tools_on_x2@ == tools_on(bindings_view(bindings@), Bound::X2),
    {
        let mut c = Config::new();
        let mut i: usize = 0;
        while i < bindings.len()
            invariant
                i <= bindings@.len(),
                c.wf(),
                c.arts@ == explicit_arts(bindings_view(bindings@.subrange(0, i as int))),
                c.tool_map() == explicit_tools(bindings_view(bindings@.subrange(0, i as int))),
                forall|a: Seq<Input>, b: Seq<Input>|
                    #[trigger] c.tools@.contains_key(a) && #[trigger] c.tools@.contains_key(b)
                        && c.tools@[a] == c.tools@[b] ==> a == b,
                c.tools_for_block@ == tools_on(
                    bindings_view(bindings@.subrange(0, i as int)),
                    Bound::Block,
                ),
                c.tools_on_x1@ == tools_on(bindings_view(bindings@.subrange(0, i as int)), Bound::X1),
                c.tools_on_x2@ == tools_on(bindings_view(bindings@.subrange(0, i as int)), Bound::X2),
            decreases bindings@.len() - i,
        {
            let (id, t) = bindings[i];
            let ghost prefix = bindings@.subrange(0, i as int);
            let ghost next = bindings@.subrange(0, i + 1);
            assert(bindings_view(next).drop_last() =~= bindings_view(prefix));
            assert(bindings_view(next).last() == (id, t@));
            let ghost before = c.tool_map();
            if PROSTHETIC_TOOL_UID_MIN <= id && id <= PROSTHETIC_TOOL_UID_MAX {
                match t {
                    Trigger::X1 => c.tools_on_x1.push(id),
                    Trigger::X2 => c.tools_on_x2.push(id),
                    Trigger::Block => c.tools_for_block.push(id),
                    Trigger::Motion(x) => {
                        match c.tools.get(x) {
                            Some(place) => {
                                let ghost lists = c.tool_lists@;
                                c.tool_lists[place].push(id);
                                assert forall|k: Seq<Input>| #[trigger]
                                    c.tools@.contains_key(k) && k != x@ implies c.tool_lists@[c.tools@[k] as int]
                                        == lists[c.tools@[k] as int] by {
                                    assert(c.tools@[k] != place);
                                }
                                assert(c.tool_lists@[place as int]@ == lists[place as int]@.push(id));
                            },
                            None => {
                                let place = c.tool_lists.len();
                                let ghost lists = c.tool_lists@;
                                let ghost places = c.tools@;
                                c.tools.insert(x, place);
                                c.tool_lists.push(vec![id]);
                                assert forall|k: Seq<Input>| #[trigger]
                                    c.tools@.contains_key(k) && k != x@ implies c.tool_lists@[c.tools@[k] as int]
                                        == lists[c.tools@[k] as int] && c.tools@[k] < place by {
                                    assert(places.contains_key(k));
                                }
                                assert(c.tool_lists@[place as int]@ == seq![id]);
                                assert(seq![id] =~= Seq::<UID>::empty().push(id));
                            },
                        }
                        assert(c.tool_map() =~= before.insert(
                            x@,
                            (if before.contains_key(x@) {
                                before[x@]
                            } else {
                                seq![]
                            }).push(id),
                        ));
                    },
                }
            } else if COMBAT_ART_UID_MIN <= id && id <= COMBAT_ART_UID_MAX {
                if let Trigger::Motion(x) = t {
                    c.arts.insert(x, id);
                }
            }
            i = i + 1;
        }
        assert(bindings@.subrange(0, i as int) =~= bindings@);
        assert(bindings_view(bindings@.subrange(0, i as int)) == bindings_view(bindings@));
        let ghost places = c.tools@;
        expand(&mut c.arts);
        expand(&mut c.tools);
        proof {
            lemma_expanded_tool_map(places, c.tools@, c.tool_lists@);
        }
        c
    }
}


/// With only `[Left, Right]` bound, the reversed pair `[Right, Left]` yields the same binding;
/// and once `[Right, Left]` is bound itself, expanding again keeps its own binding.
pub proof fn lemma_reversed_pair<T>(m: Map<Seq<Input>, T>, r: Map<Seq<Input>, T>, x: T, y: T)
    ensures
        m == Map::<Seq<Input>, T>::empty().insert(seq![Input::Left, Input::Right], x) && expanded(m, r)
            ==> lookup(r, seq![Input::Right, Input::Left]) == Some(x),
        ({
            let again = r.insert(seq![Input::Right, Input::Left], y);
            forall|r2: Map<Seq<Input>, T>|
                expanded(again, r2) ==> lookup(r2, seq![Input::Right, Input::Left]) == Some(y)
        }),
{
    let lr = seq![Input::Left, Input::Right];
    let rl = seq![Input::Right, Input::Left];
    assert(alternatives(lr)[0] == rl);
    assert(alternatives(lr).contains(rl));
    if m == Map::<Seq<Input>, T>::empty().insert(lr, x) && expanded(m, r) {
        assert(r.contains_key(rl));
        assert(!m.contains_key(rl)) by {
            assert(lr[0] != rl[0]);
        }
    }
    let again = r.insert(rl, y);
    assert forall|r2: Map<Seq<Input>, T>|
        expanded(again, r2) implies lookup(r2, rl) == Some(y) by {
        assert(again.contains_key(rl));
    }
}

/// With only `[Left, Down, Right]` bound, each other order of Left, Down and Right yields the
/// same binding.
pub proof fn lemma_half_circle<T>(m: Map<Seq<Input>, T>, r: Map<Seq<Input>, T>, y: T)
    requires
        m == Map::<Seq<Input>, T>::empty().insert(seq![Input::Left, Input::Down, Input::Right], y),
        expanded(m, r),
    ensures
        lookup(r, seq![Input::Left, Input::Right, Input::Down]) == Some(y),
        lookup(r, seq![Input::Right, Input::Left, Input::Down]) == Some(y),
        lookup(r, seq![Input::Right, Input::Down, Input::Left]) == Some(y),
        lookup(r, seq![Input::Down, Input::Left, Input::Right]) == Some(y),
        lookup(r, seq![Input::Down, Input::Right, Input::Left]) == Some(y),
{
    let ldr = seq![Input::Left, Input::Down, Input::Right];
    let alts = alternatives(ldr);
    assert forall|i: int| 0 <= i < 5 implies lookup(r, #[trigger] alts[i]) == Some(y) by {
        assert(alts.contains(alts[i]));
        assert(r.contains_key(alts[i]));
        assert(alts[i] != ldr);
        assert(!m.contains_key(alts[i]));
    }
    assert(alts[0] == seq![Input::Left, Input::Right, Input::Down]);
    assert(alts[1] == seq![Input::Right, Input::Left, Input::Down]);
    assert(alts[2] == seq![Input::Right, Input::Down, Input::Left]);
    assert(alts[3] == seq![Input::Down, Input::Left, Input::Right]);
    assert(alts[4] == seq![Input::Down, Input::Right, Input::Left]);
}

} // verus!
