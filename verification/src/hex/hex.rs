//! The axial hex coordinate: arithmetic, distance, directions, rings and
//! spirals.

use vstd::prelude::*;
use vstd::arithmetic::div_mod::lemma_fundamental_div_mod_converse;
use vstd::std_specs::ops::AddSpecImpl;
use vstd::std_specs::ops::SubSpecImpl;
use vstd::std_specs::ops::MulSpecImpl;
use core::ops::Add;
use core::ops::Sub;
use core::ops::Mul;

verus! {

/// A cell of the hexagonal lattice in axial coordinates. The third cube
/// coordinate is derived: `s = -q - r`.
#[derive(Copy, Clone, Debug, PartialEq, Eq, Hash, Structural)]
pub struct Hex {
    pub q: i32,
    pub r: i32,
}

/// Absolute value of a mathematical integer.
pub open spec fn spec_abs(x: int) -> int {
    if x < 0 {
        -x
    } else {
        x
    }
}

/// The larger of two mathematical integers.
pub open spec fn spec_max(x: int, y: int) -> int {
    if x < y {
        y
    } else {
        x
    }
}

/// Whether a mathematical integer is representable as an `i32`.
pub open spec fn fits_i32(x: int) -> bool {
    i32::MIN <= x <= i32::MAX
}

/// Length of the cube vector `(q, r, -q - r)`: the largest absolute
/// coordinate.
pub open spec fn spec_cube_len(q: int, r: int) -> int {
    spec_max(spec_max(spec_abs(q), spec_abs(r)), spec_abs(-q - r))
}

/// The six unit vectors, indexed modulo six; successive indices sweep
/// counter-clockwise.
pub open spec fn spec_direction(i: int) -> Hex {
    let k = i % 6;
    if k == 0 {
        Hex { q: 1, r: -1i32 }
    } else if k == 1 {
        Hex { q: 1, r: 0 }
    } else if k == 2 {
        Hex { q: 0, r: 1 }
    } else if k == 3 {
        Hex { q: -1i32, r: 1 }
    } else if k == 4 {
        Hex { q: -1i32, r: 0 }
    } else {
        Hex { q: 0, r: -1i32 }
    }
}

/// Whether every cell of the ring of `radius` around `center` has
/// coordinates representable as `i32`.
pub open spec fn spec_ring_fits(center: Hex, radius: int) -> bool {
    &&& fits_i32(center.q - radius)
    &&& fits_i32(center.q + radius)
    &&& fits_i32(center.r - radius)
    &&& fits_i32(center.r + radius)
}

/// The cell reached on the ring of `radius` around `center` after `step`
/// steps along edge number `edge`. Edge `e` starts at the corner
/// `center + direction(e + 4) * radius` and runs in `direction(e)`.
pub open spec fn spec_ring_walk(center: Hex, radius: int, edge: int, step: int) -> Hex {
    let corner = spec_direction(edge + 4);
    let along = spec_direction(edge);
    center.spec_offset(corner.q * radius + along.q * step, corner.r * radius + along.r * step)
}

/// The `i`-th cell of the ring of `radius` around `center`.
pub open spec fn spec_ring_cell(center: Hex, radius: int, i: int) -> Hex
    recommends
        radius > 0,
{
    spec_ring_walk(center, radius, i / radius, i % radius)
}

/// Number of cells on the ring of `radius`: none unless the radius is
/// positive.
pub open spec fn spec_ring_len(radius: int) -> nat {
    if radius > 0 {
        (6 * radius) as nat
    } else {
        0
    }
}

/// The ring of `radius` around `center`: the cells at exactly that distance,
/// six edges of `radius` cells each.
pub open spec fn spec_ring(center: Hex, radius: int) -> Seq<Hex> {
    Seq::new(spec_ring_len(radius), |i: int| spec_ring_cell(center, radius, i))
}

/// The rings of radius one up to `radius` around `center`, one after the
/// other; the center itself is not part of it.
pub open spec fn spec_spiral(center: Hex, radius: int) -> Seq<Hex>
    decreases radius,
{
    if radius <= 0 {
        Seq::empty()
    } else {
        spec_spiral(center, radius - 1) + spec_ring(center, radius)
    }
}

/// Number of cells in the spiral of `radius`.
pub open spec fn spec_spiral_len(radius: int) -> nat {
    if radius > 0 {
        (3 * radius * (radius + 1)) as nat
    } else {
        0
    }
}

impl Hex {
    /// The derived third cube coordinate.
    pub open spec fn spec_s(self) -> int {
        -(self.q as int) - (self.r as int)
    }

    /// Distance from the origin, as a mathematical integer.
    pub open spec fn spec_len(self) -> int {
        spec_cube_len(self.q as int, self.r as int)
    }

    /// Number of steps between two cells, as a mathematical integer.
    pub open spec fn spec_distance(self, other: Hex) -> int {
        spec_cube_len(self.q - other.q, self.r - other.r)
    }

    /// The cell displaced from this one by `(dq, dr)`.
    pub open spec fn spec_offset(self, dq: int, dr: int) -> Hex {
        Hex { q: (self.q + dq) as i32, r: (self.r + dr) as i32 }
    }

    pub fn new(q: i32, r: i32) -> (h: Hex)
        ensures
            h == (Hex { q, r }),
    {
        Hex { q, r }
    }

    /// Distance from the origin.
    pub fn len(self) -> (n: i32)
        requires
            self.spec_len() <= i32::MAX,
        ensures
            n == self.spec_len(),
    {
        let q: i32 = self.q;
        let r: i32 = self.r;
        let s: i32 = -q - r;
        let aq: i32 = if q < 0 { -q } else { q };
        let ar: i32 = if r < 0 { -r } else { r };
        let a_s: i32 = if s < 0 { -s } else { s };
        let m: i32 = if aq < ar { ar } else { aq };
        if m < a_s { a_s } else { m }
    }

    /// The sum of two cells, where it is representable.
    pub fn checked_add(self, other: Hex) -> (sum: Option<Hex>)
        ensures
            sum == (if fits_i32(self.q + other.q) && fits_i32(self.r + other.r) {
                Some(self.spec_offset(other.q as int, other.r as int))
            } else {
                None
            }),
    {
        match (self.q.checked_add(other.q), self.r.checked_add(other.r)) {
            (Some(q), Some(r)) => Some(Hex { q, r }),
            _ => None,
        }
    }

    /// The difference of two cells, where it is representable.
    pub fn checked_sub(self, other: Hex) -> (difference: Option<Hex>)
        ensures
            difference == (if fits_i32(self.q - other.q) && fits_i32(self.r - other.r) {
                Some(self.spec_offset(-other.q, -other.r))
            } else {
                None
            }),
    {
        match (self.q.checked_sub(other.q), self.r.checked_sub(other.r)) {
            (Some(q), Some(r)) => Some(Hex { q, r }),
            _ => None,
        }
    }

    /// Number of steps between two cells, where an `i32` can hold it.
    pub fn checked_distance(self, other: Hex) -> (distance: Option<i32>)
        ensures
            distance == (if self.spec_distance(other) <= i32::MAX {
                Some(self.spec_distance(other) as i32)
            } else {
                None
            }),
    {
        let dq: i64 = self.q as i64 - other.q as i64;
        let dr: i64 = self.r as i64 - other.r as i64;
        let ds: i64 = -dq - dr;
        let aq: i64 = if dq < 0 { -dq } else { dq };
        let ar: i64 = if dr < 0 { -dr } else { dr };
        let a_s: i64 = if ds < 0 { -ds } else { ds };
        let m: i64 = if aq < ar { ar } else { aq };
        let n: i64 = if m < a_s { a_s } else { m };
        if n <= 0x7fff_ffff {
            Some(n as i32)
        } else {
            None
        }
    }

    /// Whether two cells are more than `limit` steps apart.
    pub fn distance_exceeds(self, other: Hex, limit: i32) -> (exceeds: bool)
        ensures
            exceeds == (self.spec_distance(other) > limit),
    {
        match self.checked_distance(other) {
            Some(distance) => distance > limit,
            None => true,
        }
    }

    /// Number of steps between two cells.
    pub fn distance(self, other: Hex) -> (n: i32)
        requires
            self.spec_distance(other) <= i32::MAX,
        ensures
            n == self.spec_distance(other),
    {
        match self.checked_distance(other) {
            Some(n) => n,
            None => 0,
        }
    }

    /// Whether `spiral` can be asked for this radius around this cell: every
    /// cell is representable and their number fits a `usize`.
    pub fn spiral_fits(self, radius: i32) -> (fits: bool)
        ensures
            fits == ((radius > 0 ==> spec_ring_fits(self, radius as int)) && spec_spiral_len(
                radius as int,
            ) <= usize::MAX),
    {
        if radius <= 0 {
            return true;
        }
        let q: i64 = self.q as i64;
        let r: i64 = self.r as i64;
        let k: i64 = radius as i64;
        let low: i64 = -0x8000_0000;
        let high: i64 = 0x7fff_ffff;
        let in_range: bool = low <= q - k && q + k <= high && low <= r - k && r + k <= high;
        assert(0 <= 3 * k * (k + 1) <= 3 * 0x8000_0000 * 0x8000_0000) by (nonlinear_arith)
            requires
                0 < k < 0x8000_0000,
        ;
        assert(k * (k + 1) <= 0x8000_0000 * 0x8000_0000) by (nonlinear_arith)
            requires
                0 < k < 0x8000_0000,
        ;
        assert(3 * k * (k + 1) == 3 * (k * (k + 1))) by (nonlinear_arith);
        let count: u64 = 3 * ((k * (k + 1)) as u64);
        in_range && count <= usize::MAX as u64
    }

    /// The cell in column `x` and row `y` of a grid whose odd columns are
    /// shoved half a cell down.
    pub open spec fn spec_from_offset(x: int, y: int) -> Hex {
        Hex { q: x as i32, r: (y - x / 2) as i32 }
    }

    /// The cell in column `x` and row `y` of a grid whose odd columns are
    /// shoved half a cell down.
    pub fn from_offset(x: i32, y: i32) -> (cell: Hex)
        requires
            fits_i32(y - x / 2),
        ensures
            cell == Self::spec_from_offset(x as int, y as int),
    {
        let column: i64 = x as i64;
        let half: i64 = if column >= 0 {
            column / 2
        } else {
            -((1 - column) / 2)
        };
        Hex { q: x, r: (y as i64 - half) as i32 }
    }

    /// The unit vector number `i` modulo six.
    pub fn direction(i: i32) -> (d: Hex)
        ensures
            d == spec_direction(i as int),
    {
        // 2147483652 is a multiple of six that lifts every i32 above zero.
        let k: i64 = (i as i64 + 2147483652) % 6;
        if k == 0 {
            hex(1, -1)
        } else if k == 1 {
            hex(1, 0)
        } else if k == 2 {
            hex(0, 1)
        } else if k == 3 {
            hex(-1, 1)
        } else if k == 4 {
            hex(-1, 0)
        } else {
            hex(0, -1)
        }
    }

    /// The cells at distance `radius`, in walking order; empty unless the
    /// radius is positive.
    pub fn ring(self, radius: i32) -> (cells: Vec<Hex>)
        requires
            radius > 0 ==> spec_ring_fits(self, radius as int),
            spec_ring_len(radius as int) <= usize::MAX,
        ensures
            cells@ == spec_ring(self, radius as int),
            cells@.len() == spec_ring_len(radius as int),
    {
        let mut results: Vec<Hex> = Vec::new();
        add_ring(self, radius, &mut results);
        assert(results@ =~= spec_ring(self, radius as int));
        results
    }

    /// The cells at distance one up to `radius`, ring after ring.
    pub fn spiral(self, radius: i32) -> (cells: Vec<Hex>)
        requires
            radius > 0 ==> spec_ring_fits(self, radius as int),
            spec_spiral_len(radius as int) <= usize::MAX,
        ensures
            cells@ == spec_spiral(self, radius as int),
            cells@.len() == spec_spiral_len(radius as int),
    {
        let mut results: Vec<Hex> = Vec::new();
        let mut k: i32 = 0;
        assert(results@ =~= spec_spiral(self, 0));
        while k < radius
            invariant
                0 <= k,
                k <= radius || (radius <= 0 && k == 0),
                radius > 0 ==> spec_ring_fits(self, radius as int),
                spec_spiral_len(radius as int) <= usize::MAX,
                results@ == spec_spiral(self, k as int),
            decreases radius - k,
        {
            k = k + 1;
            proof {
                lemma_spiral_len(self, k as int - 1);
                assert(6 * k + 3 * (k - 1) * k <= 3 * radius * (radius + 1)) by (nonlinear_arith)
                    requires
                        1 <= k <= radius,
                ;
            }
            add_ring(self, k, &mut results);
        }
        proof {
            lemma_spiral_len(self, radius as int);
            if radius <= 0 {
                assert(spec_spiral(self, radius as int) =~= spec_spiral(self, 0));
            }
        }
        results
    }
}

pub fn hex(q: i32, r: i32) -> (h: Hex)
    ensures
        h == (Hex { q, r }),
{
    Hex::new(q, r)
}

/// Appends the ring of `radius` around `hex` to `results`.
pub fn add_ring(hex: Hex, radius: i32, results: &mut Vec<Hex>)
    requires
        radius > 0 ==> spec_ring_fits(hex, radius as int),
        old(results)@.len() + spec_ring_len(radius as int) <= usize::MAX,
    ensures
        final(results)@ == old(results)@ + spec_ring(hex, radius as int),
{
    if radius <= 0 {
        assert(results@ =~= old(results)@ + spec_ring(hex, radius as int));
        return ;
    }
    let ghost before = results@;
    proof {
        lemma_unit_mul(spec_direction(4).q as int, radius as int);
        lemma_unit_mul(spec_direction(4).r as int, radius as int);
        lemma_ring_walk_cases(hex, radius as int, 0, 0);
    }
    let mut current: Hex = hex + Hex::direction(4) * radius;
    let mut edge: i32 = 0;
    while edge < 6
        invariant
            radius > 0,
            spec_ring_fits(hex, radius as int),
            0 <= edge <= 6,
            current == spec_ring_walk(hex, radius as int, edge as int, 0),
            results@.len() == before.len() + edge * radius,
            forall|i: int| 0 <= i < before.len() ==> results@[i] == before[i],
            forall|i: int|
                before.len() <= i < results@.len() ==> results@[i] == spec_ring_cell(
                    hex,
                    radius as int,
                    i - before.len(),
                ),
        decreases 6 - edge,
    {
        let mut step: i32 = 0;
        while step < radius
            invariant
                radius > 0,
                spec_ring_fits(hex, radius as int),
                0 <= edge < 6,
                0 <= step <= radius,
                current == spec_ring_walk(hex, radius as int, edge as int, step as int),
                results@.len() == before.len() + edge * radius + step,
                forall|i: int| 0 <= i < before.len() ==> results@[i] == before[i],
                forall|i: int|
                    before.len() <= i < results@.len() ==> results@[i] == spec_ring_cell(
                        hex,
                        radius as int,
                        i - before.len(),
                    ),
            decreases radius - step,
        {
            proof {
                lemma_fundamental_div_mod_converse(
                    edge * radius + step,
                    radius as int,
                    edge as int,
                    step as int,
                );
                lemma_ring_walk_cases(hex, radius as int, edge as int, step as int);
                lemma_ring_walk_cases(hex, radius as int, edge as int, step + 1);
            }
            results.push(current);
            current = current + Hex::direction(edge);
            step = step + 1;
        }
        proof {
            assert(edge * radius + radius == (edge + 1) * radius) by (nonlinear_arith);
            lemma_ring_walk_cases(hex, radius as int, edge as int, radius as int);
            lemma_ring_walk_cases(hex, radius as int, edge + 1, 0);
        }
        edge = edge + 1;
    }
    assert(results@ =~= before + spec_ring(hex, radius as int));
}

/// A unit vector's coordinate times `x` is `-x`, zero or `x`.
proof fn lemma_unit_mul(c: int, x: int)
    requires
        -1 <= c <= 1,
    ensures
        c == -1 ==> c * x == -x,
        c == 0 ==> c * x == 0,
        c == 1 ==> c * x == x,
{
    assert(c == -1 ==> c * x == -x) by (nonlinear_arith);
    assert(c == 0 ==> c * x == 0) by (nonlinear_arith);
    assert(c == 1 ==> c * x == x) by (nonlinear_arith);
}

/// The displacement from the center at each point of the walk round a
/// ring, edge by edge.
proof fn lemma_ring_walk_cases(center: Hex, radius: int, edge: int, step: int)
    ensures
        spec_ring_walk(center, radius, edge, step) == (if edge % 6 == 0 {
            center.spec_offset(step - radius, -step)
        } else if edge % 6 == 1 {
            center.spec_offset(step, -radius)
        } else if edge % 6 == 2 {
            center.spec_offset(radius, step - radius)
        } else if edge % 6 == 3 {
            center.spec_offset(radius - step, step)
        } else if edge % 6 == 4 {
            center.spec_offset(-step, radius)
        } else {
            center.spec_offset(-radius, radius - step)
        }),
{
    let corner = spec_direction(edge + 4);
    let along = spec_direction(edge);
    lemma_unit_mul(corner.q as int, radius);
    lemma_unit_mul(corner.r as int, radius);
    lemma_unit_mul(along.q as int, step);
    lemma_unit_mul(along.r as int, step);
}

/// The three cube coordinates of a cell sum to zero, and its distance from
/// the origin is the largest of their absolute values.
pub proof fn lemma_cube_coordinates(cell: Hex)
    ensures
        cell.q + cell.r + cell.spec_s() == 0,
        cell.spec_len() == spec_max(
            spec_max(spec_abs(cell.q as int), spec_abs(cell.r as int)),
            spec_abs(cell.spec_s()),
        ),
        cell.spec_len() == cell.spec_distance(Hex { q: 0, r: 0 }),
{
}

/// The ring of radius zero is empty and a ring of radius `k >= 1` holds
/// `6 * k` cells; the spiral of radius zero is empty and the spiral of
/// radius `k >= 1` is the rings of radius one to `k`, one after the other.
pub proof fn lemma_spiral_is_rings(center: Hex, radius: int)
    ensures
        spec_ring(center, 0).len() == 0,
        radius >= 1 ==> spec_ring(center, radius).len() == 6 * radius,
        spec_spiral(center, 0) == Seq::<Hex>::empty(),
        radius >= 1 ==> spec_spiral(center, radius) == spec_spiral(center, radius - 1) + spec_ring(
            center,
            radius,
        ),
{
}

/// The spiral of `radius` holds `3 * radius * (radius + 1)` cells.
pub proof fn lemma_spiral_len(center: Hex, radius: int)
    ensures
        spec_spiral(center, radius).len() == spec_spiral_len(radius),
    decreases radius,
{
    if radius > 0 {
        lemma_spiral_len(center, radius - 1);
        let inner = 3 * (radius - 1) * (radius - 1 + 1);
        let outer = 3 * radius * (radius + 1);
        assert(inner >= 0 && outer >= 0 && inner + 6 * radius == outer) by (nonlinear_arith)
            requires
                radius > 0,
                inner == 3 * (radius - 1) * (radius - 1 + 1),
                outer == 3 * radius * (radius + 1),
        ;
        assert(spec_spiral(center, radius).len() == spec_spiral(center, radius - 1).len()
            + spec_ring(center, radius).len());
        assert(spec_ring(center, radius).len() == 6 * radius);
        assert(spec_spiral_len(radius - 1) == inner);
        assert(spec_spiral_len(radius) == outer);
    } else {
        assert(spec_spiral(center, radius).len() == 0);
    }
}

/// On which edge of the ring of `radius`, and how many steps along it, the
/// cell displaced by `(dq, dr)` from the center lies.
pub open spec fn spec_ring_place(dq: int, dr: int, radius: int) -> (int, int) {
    if dq == -radius && dr >= 1 {
        (5, radius - dr)
    } else if dq == -radius {
        (0, 0)
    } else if dq == radius && dr <= -1 {
        (2, dr + radius)
    } else if dq == radius {
        (3, 0)
    } else if dr == -radius {
        (1, dq)
    } else if dr == radius {
        (4, -dq)
    } else if dq + dr == -radius {
        (0, dq + radius)
    } else {
        (3, radius - dq)
    }
}

/// Every cell at exactly a ring's radius from its center is a cell of the
/// ring.
pub proof fn lemma_ring_covers(center: Hex, radius: int, cell: Hex)
    requires
        radius > 0,
        spec_ring_fits(center, radius),
        center.spec_distance(cell) == radius,
    ensures
        spec_ring(center, radius).contains(cell),
{
    let (edge, step) = spec_ring_place(cell.q - center.q, cell.r - center.r, radius);
    let i = edge * radius + step;
    assert(0 <= edge < 6 && 0 <= step < radius);
    assert(0 <= i < 6 * radius) by (nonlinear_arith)
        requires
            0 <= edge < 6,
            0 <= step < radius,
            i == edge * radius + step,
    ;
    lemma_fundamental_div_mod_converse(i, radius, edge, step);
    lemma_ring_walk_cases(center, radius, edge, step);
    assert(spec_ring(center, radius)[i] == cell);
}

/// Every cell at least one step and at most a spiral's radius from its
/// center is a cell of the spiral.
pub proof fn lemma_spiral_covers(center: Hex, radius: int, cell: Hex)
    requires
        spec_ring_fits(center, radius),
        1 <= center.spec_distance(cell) <= radius,
    ensures
        spec_spiral(center, radius).contains(cell),
    decreases radius,
{
    let inner = spec_spiral(center, radius - 1);
    let ring = spec_ring(center, radius);
    if center.spec_distance(cell) == radius {
        lemma_ring_covers(center, radius, cell);
        let i = choose|i: int| 0 <= i < ring.len() && ring[i] == cell;
        assert(spec_spiral(center, radius)[inner.len() + i] == cell);
    } else {
        lemma_spiral_covers(center, radius - 1, cell);
        let i = choose|i: int| 0 <= i < inner.len() && inner[i] == cell;
        assert(spec_spiral(center, radius)[i] == cell);
    }
}

/// The spiral of a radius holds exactly the cells that lie at least one
/// step and at most that radius from its center.
pub proof fn lemma_spiral_is_disc(center: Hex, radius: int)
    requires
        radius > 0 ==> spec_ring_fits(center, radius),
    ensures
        forall|cell: Hex| #[trigger]
            spec_spiral(center, radius).contains(cell) <==> 1 <= center.spec_distance(cell)
                <= radius,
{
    assert forall|cell: Hex|
        spec_spiral(center, radius).contains(cell) <==> 1 <= center.spec_distance(cell)
            <= radius by {
        if spec_spiral(center, radius).contains(cell) {
            let i = choose|i: int|
                0 <= i < spec_spiral(center, radius).len() && spec_spiral(center, radius)[i]
                    == cell;
            if radius > 0 {
                lemma_spiral_cell_distance(center, radius, i);
            }
        }
        if 1 <= center.spec_distance(cell) <= radius {
            lemma_spiral_covers(center, radius, cell);
        }
    }
}

/// Every cell of a spiral lies at least one step and at most the spiral's
/// radius from its center.
pub proof fn lemma_spiral_cell_distance(center: Hex, radius: int, i: int)
    requires
        radius > 0,
        spec_ring_fits(center, radius),
        0 <= i < spec_spiral(center, radius).len(),
    ensures
        1 <= center.spec_distance(spec_spiral(center, radius)[i]) <= radius,
        1 <= spec_spiral(center, radius)[i].spec_distance(center) <= radius,
    decreases radius,
{
    let inner = spec_spiral(center, radius - 1);
    if i < inner.len() {
        assert(radius - 1 > 0);
        lemma_spiral_cell_distance(center, radius - 1, i);
    } else {
        lemma_ring_cell_distance(center, radius, i - inner.len());
    }
}

/// Every cell of a ring lies at exactly the ring's radius from its center.
pub proof fn lemma_ring_cell_distance(center: Hex, radius: int, i: int)
    requires
        radius > 0,
        spec_ring_fits(center, radius),
        0 <= i < 6 * radius,
    ensures
        center.spec_distance(spec_ring_cell(center, radius, i)) == radius,
{
    let edge = i / radius;
    let step = i % radius;
    assert(0 <= edge < 6 && 0 <= step < radius) by (nonlinear_arith)
        requires
            radius > 0,
            0 <= i < 6 * radius,
            edge == i / radius,
            step == i % radius,
    ;
    lemma_ring_walk_cases(center, radius, edge, step);
}

impl Add for Hex {
    type Output = Hex;

    fn add(self, other: Hex) -> (sum: Hex) {
        Hex { q: self.q + other.q, r: self.r + other.r }
    }
}

impl AddSpecImpl for Hex {
    open spec fn obeys_add_spec() -> bool {
        true
    }

    open spec fn add_req(self, other: Hex) -> bool {
        fits_i32(self.q + other.q) && fits_i32(self.r + other.r)
    }

    open spec fn add_spec(self, other: Hex) -> Hex {
        Hex { q: (self.q + other.q) as i32, r: (self.r + other.r) as i32 }
    }
}

impl Add<i32> for Hex {
    type Output = Hex;

    fn add(self, other: i32) -> (sum: Hex) {
        Hex { q: self.q + other, r: self.r + other }
    }
}

impl AddSpecImpl<i32> for Hex {
    open spec fn obeys_add_spec() -> bool {
        true
    }

    open spec fn add_req(self, other: i32) -> bool {
        fits_i32(self.q + other) && fits_i32(self.r + other)
    }

    open spec fn add_spec(self, other: i32) -> Hex {
        Hex { q: (self.q + other) as i32, r: (self.r + other) as i32 }
    }
}

impl Add<Hex> for i32 {
    type Output = Hex;

    fn add(self, other: Hex) -> (sum: Hex) {
        Hex { q: self + other.q, r: self + other.r }
    }
}

impl AddSpecImpl<Hex> for i32 {
    open spec fn obeys_add_spec() -> bool {
        true
    }

    open spec fn add_req(self, other: Hex) -> bool {
        fits_i32(self + other.q) && fits_i32(self + other.r)
    }

    open spec fn add_spec(self, other: Hex) -> Hex {
        Hex { q: (self + other.q) as i32, r: (self + other.r) as i32 }
    }
}

impl Sub for Hex {
    type Output = Hex;

    fn sub(self, other: Hex) -> (difference: Hex) {
        Hex { q: self.q - other.q, r: self.r - other.r }
    }
}

impl SubSpecImpl for Hex {
    open spec fn obeys_sub_spec() -> bool {
        true
    }

    open spec fn sub_req(self, other: Hex) -> bool {
        fits_i32(self.q - other.q) && fits_i32(self.r - other.r)
    }

    open spec fn sub_spec(self, other: Hex) -> Hex {
        Hex { q: (self.q - other.q) as i32, r: (self.r - other.r) as i32 }
    }
}

impl Sub<i32> for Hex {
    type Output = Hex;

    fn sub(self, other: i32) -> (difference: Hex) {
        Hex { q: self.q - other, r: self.r - other }
    }
}

impl SubSpecImpl<i32> for Hex {
    open spec fn obeys_sub_spec() -> bool {
        true
    }

    open spec fn sub_req(self, other: i32) -> bool {
        fits_i32(self.q - other) && fits_i32(self.r - other)
    }

    open spec fn sub_spec(self, other: i32) -> Hex {
        Hex { q: (self.q - other) as i32, r: (self.r - other) as i32 }
    }
}

impl Sub<Hex> for i32 {
    type Output = Hex;

    fn sub(self, other: Hex) -> (difference: Hex) {
        Hex { q: self - other.q, r: self - other.r }
    }
}

impl SubSpecImpl<Hex> for i32 {
    open spec fn obeys_sub_spec() -> bool {
        true
    }

    open spec fn sub_req(self, other: Hex) -> bool {
        fits_i32(self - other.q) && fits_i32(self - other.r)
    }

    open spec fn sub_spec(self, other: Hex) -> Hex {
        Hex { q: (self - other.q) as i32, r: (self - other.r) as i32 }
    }
}

impl Mul for Hex {
    type Output = Hex;

    fn mul(self, other: Hex) -> (product: Hex) {
        Hex { q: self.q * other.q, r: self.r * other.r }
    }
}

impl MulSpecImpl for Hex {
    open spec fn obeys_mul_spec() -> bool {
        true
    }

    open spec fn mul_req(self, other: Hex) -> bool {
        fits_i32(self.q * other.q) && fits_i32(self.r * other.r)
    }

    open spec fn mul_spec(self, other: Hex) -> Hex {
        Hex { q: (self.q * other.q) as i32, r: (self.r * other.r) as i32 }
    }
}

impl Mul<i32> for Hex {
    type Output = Hex;

    fn mul(self, other: i32) -> (product: Hex) {
        Hex { q: self.q * other, r: self.r * other }
    }
}

impl MulSpecImpl<i32> for Hex {
    open spec fn obeys_mul_spec() -> bool {
        true
    }

    open spec fn mul_req(self, other: i32) -> bool {
        fits_i32(self.q * other) && fits_i32(self.r * other)
    }

    open spec fn mul_spec(self, other: i32) -> Hex {
        Hex { q: (self.q * other) as i32, r: (self.r * other) as i32 }
    }
}

impl Mul<Hex> for i32 {
    type Output = Hex;

    fn mul(self, other: Hex) -> (product: Hex) {
        Hex { q: self * other.q, r: self * other.r }
    }
}

impl MulSpecImpl<Hex> for i32 {
    open spec fn obeys_mul_spec() -> bool {
        true
    }

    open spec fn mul_req(self, other: Hex) -> bool {
        fits_i32(self * other.q) && fits_i32(self * other.r)
    }

    open spec fn mul_spec(self, other: Hex) -> Hex {
        Hex { q: (self * other.q) as i32, r: (self * other.r) as i32 }
    }
}

} // verus!
