use vstd::prelude::*;

use crate::config::{bindings_view, is_art_id, is_tool_id, Bound, Trigger, UID};
use crate::input::{Input, Inputs};

verus! {

/// ASCII whitespace, which separates the items of a line.
pub open spec fn is_space(b: u8) -> bool {
    b == 32 || (9 <= b && b <= 13)
}

/// The byte with ASCII lower case letters made upper case.
pub open spec fn upper(b: u8) -> u8 {
    if 97 <= b && b <= 122 {
        (b - 32) as u8
    } else {
        b
    }
}

/// Whether `tok` is `word` (written in upper case) but for the case of ASCII letters.
pub open spec fn is_word(tok: Seq<u8>, word: Seq<u8>) -> bool {
    tok.len() == word.len() && forall|k: int| 0 <= k < tok.len() ==> upper(tok[k]) == word[k]
}

/// The direction that `t` begins with and its length in bytes: a letter U, R, D, L in either
/// case, or one of the arrows.
pub open spec fn direction_at(t: Seq<u8>) -> Option<(Input, int)> {
    if t.len() == 0 {
        None
    } else if upper(t[0]) == 85 {
        Some((Input::Up, 1))
    } else if upper(t[0]) == 82 {
        Some((Input::Right, 1))
    } else if upper(t[0]) == 68 {
        Some((Input::Down, 1))
    } else if upper(t[0]) == 76 {
        Some((Input::Left, 1))
    } else if t.len() >= 3 && t[0] == 0xE2 && t[1] == 0x86 && t[2] == 0x91 {
        Some((Input::Up, 3))
    } else if t.len() >= 3 && t[0] == 0xE2 && t[1] == 0x86 && t[2] == 0x92 {
        Some((Input::Right, 3))
    } else if t.len() >= 3 && t[0] == 0xE2 && t[1] == 0x86 && t[2] == 0x93 {
        Some((Input::Down, 3))
    } else if t.len() >= 3 && t[0] == 0xE2 && t[1] == 0x86 && t[2] == 0x90 {
        Some((Input::Left, 3))
    } else {
        None
    }
}

/// The directions that `t` spells, if it spells nothing else.
pub open spec fn directions(t: Seq<u8>) -> Option<Seq<Input>>
    decreases t.len(),
{
    if t.len() == 0 {
        Some(seq![])
    } else {
        match direction_at(t) {
            Some((d, n)) => if 0 < n <= t.len() {
                match directions(t.subrange(n, t.len() as int)) {
                    Some(rest) => Some(seq![d] + rest),
                    None => None,
                }
            } else {
                None
            },
            None => None,
        }
    }
}

/// The motion that an item stands for: none at all for `NONE` or the empty set sign, else the
/// first three directions that it spells.
pub open spec fn motion_of(tok: Seq<u8>) -> Option<Seq<Input>> {
    if is_word(tok, seq![78u8, 79u8, 78u8, 69u8]) || tok == seq![0xE2u8, 0x88u8, 0x85u8] {
        Some(seq![])
    } else {
        match directions(tok) {
            Some(d) => Some(
                if d.len() > 3 {
                    d.subrange(0, 3)
                } else {
                    d
                },
            ),
            None => None,
        }
    }
}

/// The number that decimal digits spell, where any number above `u32::MAX` counts as
/// `u32::MAX + 1`.
pub open spec fn digits_value(t: Seq<u8>) -> int
    decreases t.len(),
{
    if t.len() == 0 {
        0
    } else {
        let v = digits_value(t.drop_last()) * 10 + (t.last() - 48);
        if v > u32::MAX {
            u32::MAX + 1
        } else {
            v
        }
    }
}

pub open spec fn all_digits(t: Seq<u8>) -> bool {
    forall|k: int| 0 <= k < t.len() ==> 48 <= #[trigger] t[k] <= 57
}

/// The identifier that an item spells: decimal digits after an optional `+`, up to `u32::MAX`.
pub open spec fn number_of(tok: Seq<u8>) -> Option<UID> {
    let d = if tok.len() > 0 && tok[0] == 43 {
        tok.subrange(1, tok.len() as int)
    } else {
        tok
    };
    if d.len() > 0 && all_digits(d) && digits_value(d) <= u32::MAX {
        Some(digits_value(d) as u32)
    } else {
        None
    }
}

/// The binding of a line whose first item is `first` and whose last item before any comment
/// is `last`. A tool can be bound to X1 or M4, X2 or M5, the block sign or BLOCK, or a motion;
/// an art to a motion; other identifiers are left out.
pub open spec fn binding_of(t: Seq<u8>, first: (usize, usize), last: (usize, usize)) -> Option<
    (UID, Bound),
> {
    let tok = t.subrange(last.0 as int, last.1 as int);
    match number_of(t.subrange(first.0 as int, first.1 as int)) {
        None => None,
        Some(id) => if is_tool_id(id) {
            if is_word(tok, seq![88u8, 49u8]) || is_word(tok, seq![77u8, 52u8]) {
                Some((id, Bound::X1))
            } else if is_word(tok, seq![88u8, 50u8]) || is_word(tok, seq![77u8, 53u8]) {
                Some((id, Bound::X2))
            } else if tok == seq![0xE2u8, 0x9Bu8, 0x89u8] || is_word(
                tok,
                seq![66u8, 76u8, 79u8, 67u8, 75u8],
            ) {
                Some((id, Bound::Block))
            } else {
                match motion_of(tok) {
                    Some(m) => Some((id, Bound::Motion(m))),
                    None => None,
                }
            }
        } else if is_art_id(id) {
            match motion_of(tok) {
                Some(m) => Some((id, Bound::Motion(m))),
                None => None,
            }
        } else {
            None
        },
    }
}

/// Where a scan of the configuration stands: the bindings of the lines so far, the
/// identifiers of the lines so far that name neither an art nor a tool, the first and
/// the last item of the current line, where the current item began, and whether the rest of
/// the line is a comment.
pub struct Scan {
    pub bindings: Seq<(UID, Bound)>,
    pub ignored: Seq<UID>,
    pub first: Option<(usize, usize)>,
    pub last: Option<(usize, usize)>,
    pub start: Option<usize>,
    pub comment: bool,
}

pub open spec fn scan_start() -> Scan {
    Scan { bindings: seq![], ignored: seq![], first: None, last: None, start: None, comment: false }
}

/// The scan after the current item, if any, ends at `i`.
pub open spec fn end_item(s: Scan, i: usize) -> Scan {
    match s.start {
        Some(st) => if s.first.is_none() {
            Scan { first: Some((st, i)), start: None, ..s }
        } else {
            Scan { last: Some((st, i)), start: None, ..s }
        },
        None => s,
    }
}

/// The scan after the current line ends.
pub open spec fn end_line(s: Scan, t: Seq<u8>) -> Scan {
    let bindings = match (s.first, s.last) {
        (Some(f), Some(l)) => match binding_of(t, f, l) {
            Some(b) => s.bindings.push(b),
            None => s.bindings,
        },
        _ => s.bindings,
    };
    let ignored = match (s.first, s.last) {
        (Some(f), Some(_)) => match number_of(t.subrange(f.0 as int, f.1 as int)) {
            Some(id) => if !is_tool_id(id) && !is_art_id(id) {
                s.ignored.push(id)
            } else {
                s.ignored
            },
            None => s.ignored,
        },
        _ => s.ignored,
    };
    Scan { bindings, ignored, first: None, last: None, start: None, comment: false }
}

/// The scan after the byte at `i`: a line feed ends the line, whitespace ends an item, and an
/// item that begins with `#` begins a comment.
pub open spec fn step(s: Scan, t: Seq<u8>, i: usize) -> Scan {
    let b = t[i as int];
    if b == 10 {
        end_line(end_item(s, i), t)
    } else if s.comment {
        s
    } else if is_space(b) {
        end_item(s, i)
    } else if s.start.is_none() {
        if b == 35 {
            Scan { comment: true, ..s }
        } else {
            Scan { start: Some(i), ..s }
        }
    } else {
        s
    }
}

/// The scan after the first `n` bytes.
pub open spec fn scan(t: Seq<u8>, n: nat) -> Scan
    decreases n,
{
    if n == 0 {
        scan_start()
    } else {
        step(scan(t, (n - 1) as nat), t, (n - 1) as usize)
    }
}

/// The bindings of the configuration text `t`, one for each line that has one, in order.
pub open spec fn bindings_of(t: Seq<u8>) -> Seq<(UID, Bound)> {
    end_line(end_item(scan(t, t.len()), t.len() as usize), t).bindings
}

/// The identifiers, in order, of the lines of `t` that bind something to an identifier that
/// is neither a combat art nor a tool; such lines are left out.
pub open spec fn ignored_of(t: Seq<u8>) -> Seq<UID> {
    end_line(end_item(scan(t, t.len()), t.len() as usize), t).ignored
}


fn upper_byte(b: u8) -> (r: u8)
    ensures
        r == upper(b),
{
    if 97 <= b && b <= 122 {
        b - 32
    } else {
        b
    }
}

/// Whether the item `t[s..e]` is `word` but for the case of ASCII letters.
fn is_word_at(t: &[u8], s: usize, e: usize, word: &[u8]) -> (r: bool)
    requires
        s <= e <= t@.len(),
    ensures
        r == is_word(t@.subrange(s as int, e as int), word@),
{
    let ghost tok = t@.subrange(s as int, e as int);
    if e - s != word.len() {
        return false;
    }
    let mut k: usize = 0;
    while k < word.len()
        invariant
            e - s == word@.len(),
            s <= e <= t@.len(),
            k <= word@.len(),
            tok == t@.subrange(s as int, e as int),
            forall|j: int| 0 <= j < k ==> upper(tok[j]) == word@[j],
        decreases word@.len() - k,
    {
        if upper_byte(t[s + k]) != word[k] {
            return false;
        }
        k = k + 1;
    }
    true
}

/// The direction that `t[i..e]` begins with, and its length in bytes.
fn direction_at_exec(t: &[u8], i: usize, e: usize) -> (r: Option<(Input, usize)>)
    requires
        i <= e <= t@.len(),
    ensures
        match direction_at(t@.subrange(i as int, e as int)) {
            Some((d, n)) => r == Some((d, n as usize)) && 0 < n <= e - i,
            None => r.is_none(),
        },
{
    let ghost tok = t@.subrange(i as int, e as int);
    if i == e {
        return None;
    }
    let b = upper_byte(t[i]);
    if b == 85 {
        Some((Input::Up, 1))
    } else if b == 82 {
        Some((Input::Right, 1))
    } else if b == 68 {
        Some((Input::Down, 1))
    } else if b == 76 {
        Some((Input::Left, 1))
    } else if e - i >= 3 && t[i] == 0xE2 && t[i + 1] == 0x86 {
        let c = t[i + 2];
        assert(tok[2] == c);
        if c == 0x91 {
            Some((Input::Up, 3))
        } else if c == 0x92 {
            Some((Input::Right, 3))
        } else if c == 0x93 {
            Some((Input::Down, 3))
        } else if c == 0x90 {
            Some((Input::Left, 3))
        } else {
            None
        }
    } else {
        None
    }
}

/// The first three of `s`, or all of it.
pub open spec fn first_three(s: Seq<Input>) -> Seq<Input> {
    if s.len() > 3 {
        s.subrange(0, 3)
    } else {
        s
    }
}

/// The motion that the item `t[s..e]` stands for.
pub fn parse_motion(t: &[u8], s: usize, e: usize) -> (r: Option<Inputs>)
    requires
        s <= e <= t@.len(),
    ensures
        r.is_some() == motion_of(t@.subrange(s as int, e as int)).is_some(),
        r.is_some() ==> r.unwrap()@ == motion_of(t@.subrange(s as int, e as int)).unwrap(),
{
    let ghost tok = t@.subrange(s as int, e as int);
    let none_word = is_word_at(t, s, e, &[78u8, 79u8, 78u8, 69u8]);
    let empty_sign = is_word_at(t, s, e, &[0xE2u8, 0x88u8, 0x85u8]);
    proof {
        assert([78u8, 79u8, 78u8, 69u8]@ == seq![78u8, 79u8, 78u8, 69u8]);
        assert([0xE2u8, 0x88u8, 0x85u8]@ == seq![0xE2u8, 0x88u8, 0x85u8]);
        if empty_sign {
            assert(tok =~= seq![0xE2u8, 0x88u8, 0x85u8]);
        }
        if tok == seq![0xE2u8, 0x88u8, 0x85u8] {
            assert(is_word(tok, seq![0xE2u8, 0x88u8, 0x85u8]));
        }
    }
    if none_word || empty_sign {
        return Some(Inputs::new());
    }
    let mut r = Inputs::new();
    let mut i = s;
    let ghost mut acc: Seq<Input> = seq![];
    proof {
        match directions(tok) {
            Some(x) => assert(seq![] + x =~= x),
            None => {},
        }
    }
    while i < e
        invariant
            s <= i <= e <= t@.len(),
            tok == t@.subrange(s as int, e as int),
            !is_word(tok, seq![78u8, 79u8, 78u8, 69u8]),
            tok != seq![0xE2u8, 0x88u8, 0x85u8],
            directions(tok) == match directions(t@.subrange(i as int, e as int)) {
                Some(rest) => Some(acc + rest),
                None => None,
            },
            r@ == first_three(acc),
        decreases e - i,
    {
        let ghost here = t@.subrange(i as int, e as int);
        match direction_at_exec(t, i, e) {
            None => {
                assert(here.len() > 0);
                assert(directions(here).is_none());
                return None;
            },
            Some((d, n)) => {
                proof {
                    assert(here.subrange(n as int, here.len() as int) =~= t@.subrange(
                        i + n,
                        e as int,
                    ));
                    match directions(t@.subrange(i + n, e as int)) {
                        Some(rest) => {
                            assert(acc + (seq![d] + rest) =~= acc.push(d) + rest);
                        },
                        None => {},
                    }
                    if acc.len() >= 3 {
                        assert(first_three(acc.push(d)) =~= first_three(acc));
                    } else {
                        assert(first_three(acc.push(d)) =~= first_three(acc).push(d));
                    }
                }
                if r.len() < 3 {
                    r.push(d);
                }
                proof {
                    acc = acc.push(d);
                }
                i = i + n;
            },
        }
    }
    proof {
        assert(acc + seq![] =~= acc);
    }
    Some(r)
}

/// The identifier that the item `t[s..e]` spells.
fn parse_number(t: &[u8], s: usize, e: usize) -> (r: Option<UID>)
    requires
        s <= e <= t@.len(),
    ensures
        r == number_of(t@.subrange(s as int, e as int)),
{
    let ghost tok = t@.subrange(s as int, e as int);
    let mut d0 = s;
    if d0 < e && t[d0] == 43 {
        d0 = d0 + 1;
    }
    let ghost d = t@.subrange(d0 as int, e as int);
    assert(d =~= if tok.len() > 0 && tok[0] == 43 {
        tok.subrange(1, tok.len() as int)
    } else {
        tok
    });
    if d0 == e {
        return None;
    }
    let mut acc: u64 = 0;
    let mut i = d0;
    assert(t@.subrange(d0 as int, d0 as int) =~= Seq::<u8>::empty());
    while i < e
        invariant
            d0 <= i <= e <= t@.len(),
            d == t@.subrange(d0 as int, e as int),
            tok == t@.subrange(s as int, e as int),
            d == if tok.len() > 0 && tok[0] == 43 {
                tok.subrange(1, tok.len() as int)
            } else {
                tok
            },
            all_digits(t@.subrange(d0 as int, i as int)),
            acc == digits_value(t@.subrange(d0 as int, i as int)),
            acc <= u32::MAX + 1,
        decreases e - i,
    {
        let b = t[i];
        if b < 48 || b > 57 {
            assert(d[i - d0] == b);
            return None;
        }
        let ghost next = t@.subrange(d0 as int, i + 1);
        assert(next.drop_last() =~= t@.subrange(d0 as int, i as int));
        acc = acc * 10 + (b - 48) as u64;
        if acc > u32::MAX as u64 {
            acc = u32::MAX as u64 + 1;
        }
        i = i + 1;
        assert(all_digits(next)) by {
            assert forall|k: int| 0 <= k < next.len() implies 48 <= #[trigger] next[k] <= 57 by {
                if k < next.len() - 1 {
                    assert(next[k] == t@.subrange(d0 as int, (i - 1) as int)[k]);
                }
            }
        }
    }
    assert(t@.subrange(d0 as int, i as int) =~= d);
    if acc > u32::MAX as u64 {
        None
    } else {
        Some(acc as u32)
    }
}

/// The binding of a line whose first item is `t[first]` and last item `t[last]`.
fn binding_at(t: &[u8], first: (usize, usize), last: (usize, usize)) -> (r: Option<(UID, Trigger)>)
    requires
        first.0 <= first.1 <= t@.len(),
        last.0 <= last.1 <= t@.len(),
    ensures
        r.is_some() == binding_of(t@, first, last).is_some(),
        r.is_some() ==> (r.unwrap().0, r.unwrap().1@) == binding_of(t@, first, last).unwrap(),
{
    let id = match parse_number(t, first.0, first.1) {
        Some(id) => id,
        None => {
            return None;
        },
    };
    let (s, e) = last;
    proof {
        assert([88u8, 49u8]@ == seq![88u8, 49u8]);
        assert([77u8, 52u8]@ == seq![77u8, 52u8]);
        assert([88u8, 50u8]@ == seq![88u8, 50u8]);
        assert([77u8, 53u8]@ == seq![77u8, 53u8]);
        assert([66u8, 76u8, 79u8, 67u8, 75u8]@ == seq![66u8, 76u8, 79u8, 67u8, 75u8]);
        assert([0xE2u8, 0x9Bu8, 0x89u8]@ == seq![0xE2u8, 0x9Bu8, 0x89u8]);
    }
    if crate::config::PROSTHETIC_TOOL_UID_MIN <= id && id <= crate::config::PROSTHETIC_TOOL_UID_MAX {
        let ghost tok = t@.subrange(s as int, e as int);
        let block_sign = is_word_at(t, s, e, &[0xE2u8, 0x9Bu8, 0x89u8]);
        proof {
            if block_sign {
                assert(tok =~= seq![0xE2u8, 0x9Bu8, 0x89u8]);
            }
            if tok == seq![0xE2u8, 0x9Bu8, 0x89u8] {
                assert(is_word(tok, seq![0xE2u8, 0x9Bu8, 0x89u8]));
            }
        }
        if is_word_at(t, s, e, &[88u8, 49u8]) || is_word_at(t, s, e, &[77u8, 52u8]) {
            Some((id, Trigger::X1))
        } else if is_word_at(t, s, e, &[88u8, 50u8]) || is_word_at(t, s, e, &[77u8, 53u8]) {
            Some((id, Trigger::X2))
        } else if block_sign || is_word_at(t, s, e, &[66u8, 76u8, 79u8, 67u8, 75u8]) {
            Some((id, Trigger::Block))
        } else {
            match parse_motion(t, s, e) {
                Some(m) => Some((id, Trigger::Motion(m))),
                None => None,
            }
        }
    } else if crate::config::COMBAT_ART_UID_MIN <= id && id <= crate::config::COMBAT_ART_UID_MAX {
        match parse_motion(t, s, e) {
            Some(m) => Some((id, Trigger::Motion(m))),
            None => None,
        }
    } else {
        None
    }
}

/// Appends the binding of the current line, or its identifier if that names neither an art
/// nor a tool.
fn end_line_exec(
    t: &[u8],
    out: &mut Vec<(UID, Trigger)>,
    ignored: &mut Vec<UID>,
    first: Option<(usize, usize)>,
    last: Option<(usize, usize)>,
)
    requires
        first.is_some() ==> first.unwrap().0 <= first.unwrap().1 <= t@.len(),
        last.is_some() ==> last.unwrap().0 <= last.unwrap().1 <= t@.len(),
    ensures
        ({
            let e = end_line(
                Scan {
                    bindings: bindings_view(old(out)@),
                    ignored: old(ignored)@,
                    first,
                    last,
                    start: None,
                    comment: false,
                },
                t@,
            );
            &&& bindings_view(final(out)@) == e.bindings
            &&& final(ignored)@ == e.ignored
        }),
{
    if let (Some(f), Some(l)) = (first, last) {
        if let Some(b) = binding_at(t, f, l) {
            let ghost before = out@;
            out.push(b);
            assert(bindings_view(out@) =~= bindings_view(before).push((b.0, b.1@)));
        }
        if let Some(id) = parse_number(t, f.0, f.1) {
            if !(crate::config::PROSTHETIC_TOOL_UID_MIN <= id && id
                <= crate::config::PROSTHETIC_TOOL_UID_MAX) && !(crate::config::COMBAT_ART_UID_MIN
                <= id && id <= crate::config::COMBAT_ART_UID_MAX) {
                ignored.push(id);
            }
        }
    }
}

/// Scans the configuration text `t`; returns its bindings and the identifiers that it leaves
/// out.
fn scan_config(t: &[u8]) -> (r: (Vec<(UID, Trigger)>, Vec<UID>))
    ensures
        bindings_view(r.0@) == bindings_of(t@),
        r.1@ == ignored_of(t@),
{
    let mut out: Vec<(UID, Trigger)> = Vec::new();
    let mut ignored: Vec<UID> = Vec::new();
    let mut first: Option<(usize, usize)> = None;
    let mut last: Option<(usize, usize)> = None;
    let mut start: Option<usize> = None;
    let mut comment = false;
    let mut i: usize = 0;
    assert(bindings_view(out@) =~= Seq::<(UID, Bound)>::empty());
    while i < t.len()
        invariant
            i <= t@.len(),
            (Scan {
                bindings: bindings_view(out@),
                ignored: ignored@,
                first,
                last,
                start,
                comment,
            }) == scan(t@, i as nat),
            first.is_some() ==> first.unwrap().0 <= first.unwrap().1 <= i,
            last.is_some() ==> last.unwrap().0 <= last.unwrap().1 <= i,
            start.is_some() ==> start.unwrap() <= i,
        decreases t@.len() - i,
    {
        let b = t[i];
        if b == 10 {
            if let Some(st) = start {
                if first.is_none() {
                    first = Some((st, i));
                } else {
                    last = Some((st, i));
                }
            }
            end_line_exec(t, &mut out, &mut ignored, first, last);
            first = None;
            last = None;
            start = None;
            comment = false;
        } else if comment {
        } else if b == 32 || (9 <= b && b <= 13) {
            if let Some(st) = start {
                if first.is_none() {
                    first = Some((st, i));
                } else {
                    last = Some((st, i));
                }
                start = None;
            }
        } else if start.is_none() {
            if b == 35 {
                comment = true;
            } else {
                start = Some(i);
            }
        }
        i = i + 1;
    }
    if let Some(st) = start {
        if first.is_none() {
            first = Some((st, i));
        } else {
            last = Some((st, i));
        }
    }
    end_line_exec(t, &mut out, &mut ignored, first, last);
    (out, ignored)
}

/// The bindings of the configuration text `t`, one for each line that has one, in order.
pub fn parse_bindings(t: &[u8]) -> (r: Vec<(UID, Trigger)>)
    ensures
        bindings_view(r@) == bindings_of(t@),
{
    scan_config(t).0
}

/// The identifiers, in order, of the lines of `t` that name neither a combat art nor a tool.
pub fn ignored_ids(t: &[u8]) -> (r: Vec<UID>)
    ensures
        r@ == ignored_of(t@),
{
    scan_config(t).1
}

} // verus!
