//! The sequence generator: rejection sampling of moves against the
//! adjacency rule, and the laws that every generated sequence obeys.
//!
//! Candidate moves come from a source seeded once per generation call, so
//! the whole run is a function of the seed. Rejection sampling has no fixed
//! iteration bound, and nothing can be proved about how soon the stream
//! yields an acceptable move; to make termination provable the run spends at
//! most a (very large) budget of candidate draws, and if the budget is ever
//! exhausted it completes the sequence deterministically with the first
//! valid move in a fixed face order. Both paths are functions of seed and
//! length, so generation stays deterministic.

use vstd::prelude::*;
use vstd::string::StringExecFns;
use crate::rng::{draw_of, SeededRng};
use crate::rotation::{
    face_from, modifier_from, move_str, opposite_spec, opt_rotation, sample_move, valid_move, Face,
    Modifier, Rotation,
};
use crate::text::{dec_str, push_dec};

verus! {

/// How many candidate draws a generation run may spend before it falls back
/// to deterministic completion. A run needs about one and a half draws per
/// accepted move, so for sequences of at most 255 moves this budget is
/// astronomically generous.
pub const DRAW_BUDGET: u32 = 1000000;

/// The bounds of the draws a generation run has made after `n` candidate
/// moves: a face draw below six then a modifier draw below three, `n` times.
pub open spec fn bounds_before(n: nat) -> Seq<u32>
    decreases n,
{
    if n == 0 {
        Seq::empty()
    } else {
        bounds_before((n - 1) as nat).push(6u32).push(3u32)
    }
}

/// The `n`-th candidate move that a run seeded with `seed` draws.
pub open spec fn move_at(seed: u64, n: nat) -> Rotation {
    Rotation {
        face: face_from(draw_of(seed, bounds_before(n), 6)),
        modifier: modifier_from(draw_of(seed, bounds_before(n).push(6u32), 3)),
    }
}

/// The last accepted move of a sequence, if any.
pub open spec fn window_last(s: Seq<Rotation>) -> Option<Rotation> {
    if s.len() == 0 {
        None
    } else {
        Some(s[s.len() - 1])
    }
}

/// The second-to-last accepted move of a sequence, if any.
pub open spec fn window_second(s: Seq<Rotation>) -> Option<Rotation> {
    if s.len() < 2 {
        None
    } else {
        Some(s[s.len() - 2])
    }
}

/// The sequence accepted after the first `n` candidate moves of a run seeded
/// with `seed`: each candidate is kept exactly when it passes the validity
/// rule against the moves accepted before it.
pub open spec fn accepted(seed: u64, n: nat) -> Seq<Rotation>
    decreases n,
{
    if n == 0 {
        Seq::empty()
    } else {
        let prev = accepted(seed, (n - 1) as nat);
        let c = move_at(seed, (n - 1) as nat);
        if valid_move(c, window_last(prev), window_second(prev)) {
            prev.push(c)
        } else {
            prev
        }
    }
}

/// Whether a run seeded with `seed` accepts `len` moves within `fuel`
/// candidate draws.
pub open spec fn reaches(seed: u64, len: nat, fuel: nat) -> bool {
    exists|n: nat| n <= fuel && accepted(seed, n).len() == len
}

/// The move that deterministic completion appends after the given window:
/// the first face in the fixed order that passes the validity rule, with no
/// modifier.
pub open spec fn forced_pick(last: Option<Rotation>, second: Option<Rotation>) -> Rotation {
    if valid_move(plain(Face::Front), last, second) {
        plain(Face::Front)
    } else if valid_move(plain(Face::Back), last, second) {
        plain(Face::Back)
    } else if valid_move(plain(Face::Right), last, second) {
        plain(Face::Right)
    } else if valid_move(plain(Face::Left), last, second) {
        plain(Face::Left)
    } else if valid_move(plain(Face::Up), last, second) {
        plain(Face::Up)
    } else {
        plain(Face::Down)
    }
}

/// A face as a move with no modifier.
pub open spec fn plain(f: Face) -> Rotation {
    Rotation { face: f, modifier: Modifier::Empty }
}

/// Deterministic completion: appends forced picks until the sequence holds
/// `len` moves.
pub open spec fn forced_extend(s: Seq<Rotation>, len: nat) -> Seq<Rotation>
    decreases len - s.len(),
{
    if s.len() >= len {
        s
    } else {
        forced_extend(s.push(forced_pick(window_last(s), window_second(s))), len)
    }
}

/// The scramble of `len` moves that a run seeded with `seed` produces: the
/// accepted sequence at the point where it reaches `len`, completed
/// deterministically in the out-of-budget case.
pub open spec fn scramble_of(seed: u64, len: nat) -> Seq<Rotation> {
    if reaches(seed, len, DRAW_BUDGET as nat) {
        accepted(seed, choose|n: nat| accepted(seed, n).len() == len)
    } else {
        forced_extend(accepted(seed, DRAW_BUDGET as nat), len)
    }
}

/// Longer runs only extend the accepted sequence: a run that has not grown
/// between two points has not changed either.
pub proof fn lemma_accepted_monotone(seed: u64, m: nat, n: nat)
    requires
        m <= n,
    ensures
        accepted(seed, m).len() <= accepted(seed, n).len(),
        accepted(seed, m).len() == accepted(seed, n).len() ==> accepted(seed, m) == accepted(
            seed,
            n,
        ),
    decreases n - m,
{
    if m < n {
        lemma_accepted_monotone(seed, m, (n - 1) as nat);
    }
}

/// Determinism: two runs from the same seed that have accepted the same
/// number of moves have accepted the same moves, whichever came first.
pub proof fn lemma_scramble_deterministic(seed: u64, n1: nat, n2: nat)
    requires
        accepted(seed, n1).len() == accepted(seed, n2).len(),
    ensures
        accepted(seed, n1) == accepted(seed, n2),
{
    if n1 <= n2 {
        lemma_accepted_monotone(seed, n1, n2);
    } else {
        lemma_accepted_monotone(seed, n2, n1);
    }
}

/// The accepted sequence grows one move at a time, so on its way to any
/// later count it passes through every earlier one.
proof fn lemma_accepted_hits(seed: u64, m: nat, target: nat)
    requires
        target <= accepted(seed, m).len(),
    ensures
        exists|n: nat| n <= m && accepted(seed, n).len() == target,
    decreases m,
{
    if accepted(seed, m).len() == target {
        assert(m <= m && accepted(seed, m).len() == target);
    } else {
        lemma_accepted_monotone(seed, (m - 1) as nat, m);
        lemma_accepted_hits(seed, (m - 1) as nat, target);
    }
}

/// Adjacent moves of the sequence lie on distinct faces.
pub open spec fn adjacent_ok(s: Seq<Rotation>) -> bool {
    forall|i: int| 0 <= i && i + 1 < s.len() ==> (#[trigger] s[i + 1]).face != s[i].face
}

/// Each move's face differs from the face two moves before it and from that
/// face's opposite: no two moves on one axis stand within a three-move
/// window.
pub open spec fn plane_ok(s: Seq<Rotation>) -> bool {
    forall|i: int|
        0 <= i && i + 2 < s.len() ==> (#[trigger] s[i + 2]).face != s[i].face && s[i
            + 2].face != opposite_spec(s[i].face)
}

/// Appending a move that passes the validity rule preserves both adjacency
/// laws.
pub proof fn lemma_valid_push_keeps(s: Seq<Rotation>, c: Rotation)
    requires
        adjacent_ok(s),
        plane_ok(s),
        valid_move(c, window_last(s), window_second(s)),
    ensures
        adjacent_ok(s.push(c)),
        plane_ok(s.push(c)),
{
    let t = s.push(c);
    assert forall|i: int| 0 <= i && i + 1 < t.len() implies (#[trigger] t[i + 1]).face
        != t[i].face by {
        if i + 1 < s.len() {
            assert(s[i + 1].face != s[i].face);
        } else {
            assert(t[i + 1] == c);
            assert(t[i] == s[s.len() - 1]);
        }
    }
    assert forall|i: int| 0 <= i && i + 2 < t.len() implies (#[trigger] t[i + 2]).face != t[i].face
        && t[i + 2].face != opposite_spec(t[i].face) by {
        if i + 2 < s.len() {
            assert(s[i + 2].face != s[i].face && s[i + 2].face != opposite_spec(s[i].face));
        } else {
            assert(t[i + 2] == c);
            assert(t[i] == s[s.len() - 2]);
        }
    }
}

/// The forced pick always passes the validity rule: the rule forbids at most
/// three of the six faces, so one of the first four candidates is free.
pub proof fn lemma_forced_pick_valid(last: Option<Rotation>, second: Option<Rotation>)
    ensures
        valid_move(forced_pick(last, second), last, second),
{
}

/// Deterministic completion preserves both adjacency laws.
proof fn lemma_forced_extend_ok(s: Seq<Rotation>, len: nat)
    requires
        adjacent_ok(s),
        plane_ok(s),
    ensures
        adjacent_ok(forced_extend(s, len)),
        plane_ok(forced_extend(s, len)),
        forced_extend(s, len).len() == if s.len() >= len {
            s.len()
        } else {
            len
        },
    decreases len - s.len(),
{
    if s.len() < len {
        let c = forced_pick(window_last(s), window_second(s));
        lemma_forced_pick_valid(window_last(s), window_second(s));
        lemma_valid_push_keeps(s, c);
        lemma_forced_extend_ok(s.push(c), len);
    }
}

/// Every accepted sequence obeys both adjacency laws, whatever the seed and
/// however many candidates have been drawn.
pub proof fn lemma_accepted_ok(seed: u64, n: nat)
    ensures
        adjacent_ok(accepted(seed, n)),
        plane_ok(accepted(seed, n)),
    decreases n,
{
    if n > 0 {
        lemma_accepted_ok(seed, (n - 1) as nat);
        let prev = accepted(seed, (n - 1) as nat);
        let c = move_at(seed, (n - 1) as nat);
        if valid_move(c, window_last(prev), window_second(prev)) {
            lemma_valid_push_keeps(prev, c);
        }
    }
}

/// Every scramble holds exactly the requested number of moves and obeys both
/// adjacency laws, whatever the seed.
pub proof fn lemma_scramble_laws(seed: u64, len: nat)
    ensures
        scramble_of(seed, len).len() == len,
        adjacent_ok(scramble_of(seed, len)),
        plane_ok(scramble_of(seed, len)),
{
    let budget = DRAW_BUDGET as nat;
    if reaches(seed, len, budget) {
        let n0 = choose|n: nat| accepted(seed, n).len() == len;
        let nw = choose|n: nat| n <= budget && accepted(seed, n).len() == len;
        assert(accepted(seed, nw).len() == len);
        assert(accepted(seed, n0).len() == len);
        lemma_accepted_ok(seed, n0);
    } else {
        let base = accepted(seed, budget);
        lemma_accepted_ok(seed, budget);
        if base.len() >= len {
            lemma_accepted_hits(seed, budget, len);
            assert(reaches(seed, len, budget));
        }
        lemma_forced_extend_ok(base, len);
    }
}

/// A full scramble: the seed it was generated from, the requested length,
/// and the accepted moves in order.
pub struct Permutation {
    pub seed: u64,
    pub length: u8,
    pub rotations: Vec<Rotation>,
}

/// The move that deterministic completion appends after the given window.
fn forced_move(last: Option<&Rotation>, second: Option<&Rotation>) -> (c: Rotation)
    ensures
        c == forced_pick(opt_rotation(last), opt_rotation(second)),
{
    let c1 = Rotation { face: Face::Front, modifier: Modifier::Empty };
    if c1.is_valid(last, second) {
        return c1;
    }
    let c2 = Rotation { face: Face::Back, modifier: Modifier::Empty };
    if c2.is_valid(last, second) {
        return c2;
    }
    let c3 = Rotation { face: Face::Right, modifier: Modifier::Empty };
    if c3.is_valid(last, second) {
        return c3;
    }
    let c4 = Rotation { face: Face::Left, modifier: Modifier::Empty };
    if c4.is_valid(last, second) {
        return c4;
    }
    let c5 = Rotation { face: Face::Up, modifier: Modifier::Empty };
    if c5.is_valid(last, second) {
        return c5;
    }
    Rotation { face: Face::Down, modifier: Modifier::Empty }
}

impl Permutation {
    /// Generates the scramble of exactly `length` moves that the seed
    /// determines. Candidate moves are drawn from a source seeded once and
    /// kept exactly when they pass the validity rule against the last one or
    /// two accepted moves; the result is a function of seed and length, and
    /// its faces obey both adjacency laws.
    pub fn generate(seed: u64, length: u8) -> (p: Self)
        ensures
            p.seed == seed,
            p.length == length,
            p.rotations@.len() == length as nat,
            p.rotations@ == scramble_of(seed, length as nat),
            adjacent_ok(p.rotations@),
            plane_ok(p.rotations@),
    {
        let mut rotations: Vec<Rotation> = Vec::new();
        let mut rng = SeededRng::new(seed);
        let mut last: Option<Rotation> = None;
        let mut second_to_last: Option<Rotation> = None;
        let mut draws: u32 = 0;
        while rotations.len() < length as usize && draws < DRAW_BUDGET
            invariant
                rng.seed() == seed,
                rng.draws() == bounds_before(draws as nat),
                rotations@ == accepted(seed, draws as nat),
                rotations@.len() <= length as nat,
                draws <= DRAW_BUDGET,
                last == window_last(rotations@),
                second_to_last == window_second(rotations@),
            decreases DRAW_BUDGET - draws,
        {
            let current = sample_move(&mut rng);
            proof {
                assert(current == move_at(seed, draws as nat));
                assert(rng.draws() == bounds_before((draws + 1) as nat));
            }
            if current.is_valid(last.as_ref(), second_to_last.as_ref()) {
                rotations.push(current);
                second_to_last = last;
                last = Some(current);
            }
            draws = draws + 1;
            proof {
                assert(rotations@ == accepted(seed, draws as nat));
            }
        }
        proof {
            if rotations@.len() == length as nat {
                assert(draws <= DRAW_BUDGET && accepted(seed, draws as nat).len()
                    == length as nat);
                assert(reaches(seed, length as nat, DRAW_BUDGET as nat));
                let n0 = choose|n: nat| accepted(seed, n).len() == length as nat;
                assert(accepted(seed, n0).len() == length as nat);
                lemma_scramble_deterministic(seed, n0, draws as nat);
                assert(rotations@ == scramble_of(seed, length as nat));
            } else {
                assert(draws == DRAW_BUDGET);
                assert forall|n: nat| n <= DRAW_BUDGET as nat implies accepted(seed, n).len()
                    != length as nat by {
                    lemma_accepted_monotone(seed, n, DRAW_BUDGET as nat);
                }
                assert(!reaches(seed, length as nat, DRAW_BUDGET as nat));
                assert(scramble_of(seed, length as nat) == forced_extend(
                    rotations@,
                    length as nat,
                ));
            }
        }
        while rotations.len() < length as usize
            invariant
                rotations@.len() <= length as nat,
                scramble_of(seed, length as nat) == forced_extend(rotations@, length as nat),
                last == window_last(rotations@),
                second_to_last == window_second(rotations@),
            decreases length as int - rotations@.len(),
        {
            let current = forced_move(last.as_ref(), second_to_last.as_ref());
            proof {
                assert(current == forced_pick(window_last(rotations@), window_second(rotations@)));
                assert(forced_extend(rotations@, length as nat) == forced_extend(
                    rotations@.push(current),
                    length as nat,
                ));
            }
            rotations.push(current);
            second_to_last = last;
            last = Some(current);
        }
        proof {
            assert(rotations@ == forced_extend(rotations@, length as nat));
            lemma_scramble_laws(seed, length as nat);
        }
        Permutation { seed, length, rotations }
    }
}

/// The rendering of a move list: each move followed by a single space.
pub open spec fn moves_str(s: Seq<Rotation>) -> Seq<char>
    decreases s.len(),
{
    if s.len() == 0 {
        Seq::empty()
    } else {
        moves_str(s.drop_last()) + move_str(s.last()) + " "@
    }
}

/// The header line of a rendered scramble: the seed it was generated from.
pub open spec fn header_str(p: Permutation) -> Seq<char> {
    "Seed: "@ + dec_str(p.seed as nat) + "\n"@
}

/// The full rendering of a scramble: the seed line followed by the
/// space-separated moves.
pub open spec fn perm_str(p: Permutation) -> Seq<char> {
    header_str(p) + moves_str(p.rotations@)
}

impl Permutation {
    /// Renders the scramble: a seed line, then the moves, each followed by
    /// a space.
    pub fn render(&self) -> (out: String)
        ensures
            out@ == perm_str(*self),
    {
        let mut out = String::from_str("Seed: ");
        push_dec(&mut out, self.seed);
        out.append("\n");
        proof {
            assert(out@ =~= header_str(*self));
            assert(self.rotations@.take(0) =~= Seq::<Rotation>::empty());
        }
        let mut idx: usize = 0;
        while idx < self.rotations.len()
            invariant
                idx <= self.rotations.len(),
                out@ == header_str(*self) + moves_str(self.rotations@.take(idx as int)),
            decreases self.rotations.len() - idx,
        {
            let r = self.rotations[idx];
            let rendered = r.render();
            out.append(rendered.as_str());
            out.append(" ");
            proof {
                let taken = self.rotations@.take(idx + 1);
                assert(taken.drop_last() =~= self.rotations@.take(idx as int));
                assert(taken.last() == self.rotations@[idx as int]);
                assert(out@ =~= header_str(*self) + moves_str(taken));
            }
            idx = idx + 1;
        }
        proof {
            assert(self.rotations@.take(idx as int) =~= self.rotations@);
        }
        out
    }
}

impl Default for Permutation {
    /// The empty scramble: seed zero, length zero, no moves.
    fn default() -> (p: Self)
        ensures
            p.seed == 0,
            p.length == 0,
            p.rotations@ == Seq::<Rotation>::empty(),
    {
        Permutation { seed: 0, length: 0, rotations: Vec::new() }
    }
}

} // verus!
