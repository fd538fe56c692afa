//! Straight lines between cells and the per-turn throttle along them.
//!
//! A line from `a` to `b` is sampled at `distance(a, b) + 1` evenly spaced
//! points. Each sample is rounded to a cell twice, once nudged by a hundredth
//! of a cell towards `(+q, -r)` and once towards `(-q, +r)`; where the two
//! roundings disagree the sample sits on an edge between two cells and both
//! are reported. All arithmetic is exact.

use vstd::prelude::*;
use super::hex::Hex;
use super::hex::spec_max;
use crate::math::lemma_round_div_monotone;
use crate::math::lemma_round_div_near;
use crate::math::round_div;
use crate::math::spec_round_div;

verus! {

/// One sample of a line: a single cell, or the two cells that share the edge
/// the sample fell on.
#[derive(Copy, Clone, Debug, PartialEq, Eq, Structural)]
pub enum Path {
    One(Hex),
    Alt(Hex, Hex),
}

/// The coordinate `a + (b - a) * i / n`, nudged by `sign` hundredths and
/// rounded to the nearest integer.
pub open spec fn spec_nudged_lerp(a: int, b: int, i: int, n: int, sign: int) -> int
    recommends
        n > 0,
{
    spec_round_div(100 * (a * n + (b - a) * i) + sign * n, 100 * n)
}

/// Sample number `i` of the line from `a` to `b`.
pub open spec fn spec_line_step(a: Hex, b: Hex, i: int) -> Path {
    let n = spec_max(a.spec_distance(b), 1);
    let u = Hex {
        q: spec_nudged_lerp(a.q as int, b.q as int, i, n, 1) as i32,
        r: spec_nudged_lerp(a.r as int, b.r as int, i, n, -1) as i32,
    };
    let v = Hex {
        q: spec_nudged_lerp(a.q as int, b.q as int, i, n, -1) as i32,
        r: spec_nudged_lerp(a.r as int, b.r as int, i, n, 1) as i32,
    };
    if u == v {
        Path::One(u)
    } else {
        Path::Alt(u, v)
    }
}

/// The line from `a` to `b`: one sample per step, both ends included.
pub open spec fn spec_line(a: Hex, b: Hex) -> Seq<Path> {
    Seq::new((a.spec_distance(b) + 1) as nat, |i: int| spec_line_step(a, b, i))
}

/// How far along a line of `distance` steps one turn at `speed` leads: the
/// speed, capped at the line's end. A negative speed is no limit.
pub open spec fn spec_move_index(distance: int, speed: int) -> int {
    if 0 <= speed < distance {
        speed
    } else {
        distance
    }
}

/// The cell a sample stands for when one must be chosen: of two candidates
/// the first only if it is strictly longer than the second.
pub open spec fn spec_resolve_longer(step: Path) -> Hex {
    match step {
        Path::One(x) => x,
        Path::Alt(x, y) => if x.spec_len() > y.spec_len() {
            x
        } else {
            y
        },
    }
}

/// The value reached from `a` after one turn of moving towards `b` at
/// `speed` steps per turn.
pub open spec fn spec_move_to(a: Hex, b: Hex, speed: int) -> Hex {
    spec_resolve_longer(spec_line_step(a, b, spec_move_index(a.spec_distance(b), speed)))
}

/// A nudged coordinate at either end of the line is the end's own
/// coordinate, and in between it stays between the two.
pub proof fn lemma_nudged_lerp_bounds(a: int, b: int, i: int, n: int, sign: int)
    requires
        n > 0,
        0 <= i <= n,
        sign == 1 || sign == -1,
    ensures
        a <= b ==> a <= spec_nudged_lerp(a, b, i, n, sign) <= b,
        b <= a ==> b <= spec_nudged_lerp(a, b, i, n, sign) <= a,
        spec_nudged_lerp(a, b, 0, n, sign) == a,
        spec_nudged_lerp(a, b, n, n, sign) == b,
{
    let den = 100 * n;
    let at_a = 100 * (a * n) + sign * n;
    let at_b = 100 * (b * n) + sign * n;
    let at_i = 100 * (a * n + (b - a) * i) + sign * n;
    assert(-den < 2 * (at_a - a * den) < den && -den < 2 * (at_b - b * den) < den)
        by (nonlinear_arith)
        requires
            n > 0,
            sign == 1 || sign == -1,
            den == 100 * n,
            at_a == 100 * (a * n) + sign * n,
            at_b == 100 * (b * n) + sign * n,
    ;
    lemma_round_div_near(at_a, den, a);
    lemma_round_div_near(at_b, den, b);
    assert(a * n + (b - a) * 0 == a * n) by (nonlinear_arith);
    assert(a * n + (b - a) * n == b * n) by (nonlinear_arith);
    assert(a <= b ==> at_a <= at_i <= at_b) by (nonlinear_arith)
        requires
            n > 0,
            0 <= i <= n,
            at_a == 100 * (a * n) + sign * n,
            at_b == 100 * (b * n) + sign * n,
            at_i == 100 * (a * n + (b - a) * i) + sign * n,
    ;
    assert(b <= a ==> at_b <= at_i <= at_a) by (nonlinear_arith)
        requires
            n > 0,
            0 <= i <= n,
            at_a == 100 * (a * n) + sign * n,
            at_b == 100 * (b * n) + sign * n,
            at_i == 100 * (a * n + (b - a) * i) + sign * n,
    ;
    if a <= b {
        lemma_round_div_monotone(at_a, at_i, den);
        lemma_round_div_monotone(at_i, at_b, den);
    }
    if b <= a {
        lemma_round_div_monotone(at_b, at_i, den);
        lemma_round_div_monotone(at_i, at_a, den);
    }
}

/// One rounded, nudged coordinate of sample `i` out of `n`.
fn nudged_lerp(a: i32, b: i32, i: i32, n: i32, sign: i32) -> (x: i32)
    requires
        n > 0,
        0 <= i <= n,
        sign == 1 || sign == -1,
    ensures
        x == spec_nudged_lerp(a as int, b as int, i as int, n as int, sign as int),
{
    let wide_a: i128 = a as i128;
    let wide_b: i128 = b as i128;
    let wide_i: i128 = i as i128;
    let wide_n: i128 = n as i128;
    proof {
        lemma_nudged_lerp_bounds(a as int, b as int, i as int, n as int, sign as int);
        assert(-0x4000_0000_0000_0000 <= wide_a * wide_n <= 0x4000_0000_0000_0000)
            by (nonlinear_arith)
            requires
                -0x8000_0000 <= wide_a <= 0x8000_0000,
                0 <= wide_n <= 0x8000_0000,
        ;
        assert(-0x8000_0000_0000_0000 <= (wide_b - wide_a) * wide_i <= 0x8000_0000_0000_0000)
            by (nonlinear_arith)
            requires
                -0x1_0000_0000 <= wide_b - wide_a <= 0x1_0000_0000,
                0 <= wide_i <= 0x8000_0000,
        ;
    }
    let base: i128 = wide_a * wide_n + (wide_b - wide_a) * wide_i;
    let nudge: i128 = if sign > 0 { wide_n } else { -wide_n };
    assert(nudge == sign * n) by (nonlinear_arith)
        requires
            sign == 1 || sign == -1,
            nudge == (if sign > 0 { n as int } else { -n }),
    ;
    let rounded: i128 = round_div(100 * base + nudge, 100 * wide_n);
    rounded as i32
}

/// Sample number `i` of the line from `a` to `b`, which is `n` steps long
/// (or `n` is one, where the two coincide).
fn line_step(a: Hex, b: Hex, i: i32, n: i32) -> (step: Path)
    requires
        n == spec_max(a.spec_distance(b), 1),
        0 <= i <= n,
    ensures
        step == spec_line_step(a, b, i as int),
{
    let u: Hex = Hex { q: nudged_lerp(a.q, b.q, i, n, 1), r: nudged_lerp(a.r, b.r, i, n, -1) };
    let v: Hex = Hex { q: nudged_lerp(a.q, b.q, i, n, -1), r: nudged_lerp(a.r, b.r, i, n, 1) };
    if u == v {
        Path::One(u)
    } else {
        Path::Alt(u, v)
    }
}

/// Both ends of a line are single cells: the first sample is `a` and the
/// last is `b`.
pub proof fn lemma_line_ends(a: Hex, b: Hex)
    ensures
        spec_line(a, b).len() == a.spec_distance(b) + 1,
        spec_line(a, b).first() == Path::One(a),
        spec_line(a, b).last() == Path::One(b),
{
    let d = a.spec_distance(b);
    let n = spec_max(d, 1);
    lemma_nudged_lerp_bounds(a.q as int, b.q as int, 0, n, 1);
    lemma_nudged_lerp_bounds(a.q as int, b.q as int, 0, n, -1);
    lemma_nudged_lerp_bounds(a.r as int, b.r as int, 0, n, 1);
    lemma_nudged_lerp_bounds(a.r as int, b.r as int, 0, n, -1);
    if d == 0 {
        assert(a == b);
    }
}

/// Walking a line backwards visits the same samples: sample `i` from `a` to
/// `b` is sample `distance - i` from `b` to `a`.
pub proof fn lemma_line_reversal(a: Hex, b: Hex, i: int)
    requires
        0 <= i <= a.spec_distance(b),
    ensures
        a.spec_distance(b) == b.spec_distance(a),
        spec_line_step(a, b, i) == spec_line_step(b, a, a.spec_distance(b) - i),
{
    let d = a.spec_distance(b);
    if d >= 1 {
        lemma_lerp_numerator_reversal(a.q as int, b.q as int, i, d);
        lemma_lerp_numerator_reversal(a.r as int, b.r as int, i, d);
    } else {
        assert(a == b);
    }
}

/// The interpolation from `a` to `b` at `i` of `n` and the one from `b` to
/// `a` at `n - i` have the same numerator.
proof fn lemma_lerp_numerator_reversal(a: int, b: int, i: int, n: int)
    ensures
        a * n + (b - a) * i == b * n + (a - b) * (n - i),
{
    assert(a * n + (b - a) * i == b * n + (a - b) * (n - i)) by (nonlinear_arith);
}

impl Hex {
    /// Distance from the origin, wide enough for any cell.
    fn wide_len(self) -> (n: i64)
        ensures
            n == self.spec_len(),
    {
        let q: i64 = self.q as i64;
        let r: i64 = self.r as i64;
        let s: i64 = -q - r;
        let aq: i64 = if q < 0 { -q } else { q };
        let ar: i64 = if r < 0 { -r } else { r };
        let a_s: i64 = if s < 0 { -s } else { s };
        let m: i64 = if aq < ar { ar } else { aq };
        if m < a_s { a_s } else { m }
    }

    /// Sample number `i` of the line from this cell to `other`.
    pub fn line_at(self, other: Hex, i: i32) -> (step: Path)
        requires
            self.spec_distance(other) <= i32::MAX,
            0 <= i <= self.spec_distance(other),
        ensures
            step == spec_line_step(self, other, i as int),
    {
        let distance: i32 = self.distance(other);
        let n: i32 = if distance < 1 { 1 } else { distance };
        line_step(self, other, i, n)
    }

    /// The line from this cell to `other`, both ends included.
    pub fn line(self, other: Hex) -> (path: Vec<Path>)
        requires
            self.spec_distance(other) <= i32::MAX,
        ensures
            path@ == spec_line(self, other),
            path@.len() == self.spec_distance(other) + 1,
            forall|i: int|
                0 <= i < path@.len() ==> #[trigger] path@[i] == spec_line_step(self, other, i),
            path@.first() == Path::One(self),
            path@.last() == Path::One(other),
    {
        let distance: i32 = self.distance(other);
        let n: i32 = if distance < 1 { 1 } else { distance };
        let mut results: Vec<Path> = Vec::new();
        let mut i: i32 = 0;
        while i < distance
            invariant
                0 <= i <= distance,
                distance == self.spec_distance(other),
                n == spec_max(distance as int, 1),
                results@.len() == i,
                forall|k: int| 0 <= k < i ==> results@[k] == spec_line_step(self, other, k),
            decreases distance - i,
        {
            results.push(line_step(self, other, i, n));
            i = i + 1;
        }
        results.push(line_step(self, other, distance, n));
        proof {
            assert(results@ =~= spec_line(self, other));
            lemma_line_ends(self, other);
        }
        results
    }

    /// One turn of moving from this value towards `other`, at most `speed`
    /// steps along the line between them.
    pub fn move_to(self, other: Hex, speed: i32) -> (reached: Hex)
        requires
            self.spec_distance(other) <= i32::MAX,
        ensures
            reached == spec_move_to(self, other, speed as int),
            self == other ==> reached == self,
    {
        let distance: i32 = self.distance(other);
        let n: i32 = if distance < 1 { 1 } else { distance };
        let step: i32 = if 0 <= speed && speed < distance { speed } else { distance };
        proof {
            lemma_move_to_self(self, speed as int);
        }
        match line_step(self, other, step, n) {
            Path::One(x) => x,
            Path::Alt(x, y) => {
                if x.wide_len() > y.wide_len() {
                    x
                } else {
                    y
                }
            },
        }
    }
}

/// Moving towards the value already held changes nothing, whatever the
/// speed.
pub proof fn lemma_move_to_self(v: Hex, speed: int)
    ensures
        spec_move_to(v, v, speed) == v,
{
    lemma_line_ends(v, v);
    assert(spec_line(v, v)[0] == spec_line_step(v, v, 0));
}

} // verus!
