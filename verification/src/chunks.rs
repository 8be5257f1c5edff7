use vstd::prelude::*;
use crate::protocol::ProtocolVersion;

verus! {

/// Direction of the spiral's current leg; `Up` lowers the second coordinate.
#[derive(Debug, Clone, Copy, PartialEq, Eq, Structural)]
pub enum Direction {
    Right,
    Up,
    Left,
    Down,
}

/// The direction after a quarter turn.
pub open spec fn turned(d: Direction) -> Direction {
    match d {
        Direction::Right => Direction::Up,
        Direction::Up => Direction::Left,
        Direction::Left => Direction::Down,
        Direction::Down => Direction::Right,
    }
}

/// Change of the first coordinate for one step in direction `d`.
pub open spec fn step_dx(d: Direction) -> int {
    match d {
        Direction::Right => 1,
        Direction::Left => -1,
        _ => 0,
    }
}

/// Change of the second coordinate for one step in direction `d`.
pub open spec fn step_dy(d: Direction) -> int {
    match d {
        Direction::Up => -1,
        Direction::Down => 1,
        _ => 0,
    }
}

impl Direction {
    /// The direction after a quarter turn.
    pub fn turn(self) -> (d: Self)
        ensures
            d == turned(self),
    {
        match self {
            Direction::Right => Direction::Up,
            Direction::Up => Direction::Left,
            Direction::Left => Direction::Down,
            Direction::Down => Direction::Right,
        }
    }

    /// Moves `(x, y)` one step in this direction.
    pub fn step(self, x: &mut i32, y: &mut i32)
        requires
            i32::MIN <= *old(x) + step_dx(self) <= i32::MAX,
            i32::MIN <= *old(y) + step_dy(self) <= i32::MAX,
        ensures
            *final(x) == *old(x) + step_dx(self),
            *final(y) == *old(y) + step_dy(self),
    {
        match self {
            Direction::Right => *x = *x + 1,
            Direction::Up => *y = *y - 1,
            Direction::Left => *x = *x - 1,
            Direction::Down => *y = *y + 1,
        }
    }
}

/// Number of points of the square of radius `r` (none for a negative radius).
pub open spec fn spiral_total(r: int) -> int {
    if r < 0 { 0 } else { (2 * r + 1) * (2 * r + 1) }
}

/// Chebyshev distance of an offset from the origin.
pub open spec fn chebyshev(dx: int, dy: int) -> int {
    let ax = if dx < 0 { -dx } else { dx };
    let ay = if dy < 0 { -dy } else { dy };
    if ax >= ay { ax } else { ay }
}

/// Position in the spiral's order of the point at offset `(dx, dy)` from
/// the centre: ring `c` (the Chebyshev distance) comes after all smaller
/// rings, entered at `(c, c-1)` going up along `dx == c`, then left along
/// `dy == -c`, down along `dx == -c`, and right along `dy == c`.
pub open spec fn spiral_index(dx: int, dy: int) -> int {
    let c = chebyshev(dx, dy);
    if dy == c {
        2 * c * (2 * c + 1) + dx + c
    } else if dx == -c {
        (2 * c) * (2 * c) + (dy + c)
    } else if dy == -c {
        (2 * c - 1) * (2 * c) + (c - dx)
    } else {
        (2 * c - 1) * (2 * c - 1) + (c - 1 - dy)
    }
}

/// Where the legs of ring `c` start in the spiral's order: up, left, down, right.
pub open spec fn leg_start(c: int, leg: int) -> int {
    if leg == 0 {
        (2 * c - 1) * (2 * c - 1)
    } else if leg == 1 {
        (2 * c - 1) * (2 * c)
    } else if leg == 2 {
        (2 * c) * (2 * c)
    } else {
        2 * c * (2 * c + 1)
    }
}

/// Which leg of its ring the point at `(dx, dy)` lies on.
pub open spec fn spiral_leg(dx: int, dy: int) -> int {
    let c = chebyshev(dx, dy);
    if dy == c { 3 } else if dx == -c { 2 } else if dy == -c { 1 } else { 0 }
}

/// The point's place lies within its leg's stretch of the order, and a
/// ring's points come after those of every smaller ring.
proof fn lemma_index_bounds(dx: int, dy: int)
    ensures
        chebyshev(dx, dy) == 0 ==> dx == 0 && dy == 0 && spiral_index(dx, dy) == 0,
        chebyshev(dx, dy) >= 1 ==> {
            let c = chebyshev(dx, dy);
            let leg = spiral_leg(dx, dy);
            &&& leg_start(c, leg) <= spiral_index(dx, dy)
            &&& (leg < 3 ==> spiral_index(dx, dy) < leg_start(c, leg + 1))
            &&& (leg == 3 ==> spiral_index(dx, dy) < (2 * c + 1) * (2 * c + 1))
            &&& (2 * c - 1) * (2 * c - 1) <= spiral_index(dx, dy) < (2 * c + 1) * (2 * c + 1)
        },
        chebyshev(dx, dy) >= 0,
{
    let c = chebyshev(dx, dy);
    if c >= 1 {
        assert((2 * c - 1) * (2 * c) == (2 * c - 1) * (2 * c - 1) + 2 * c - 1) by (nonlinear_arith);
        assert((2 * c) * (2 * c) == (2 * c - 1) * (2 * c) + 2 * c) by (nonlinear_arith);
        assert(2 * c * (2 * c + 1) == (2 * c) * (2 * c) + 2 * c) by (nonlinear_arith);
        assert((2 * c + 1) * (2 * c + 1) == 2 * c * (2 * c + 1) + 2 * c + 1) by (nonlinear_arith);
    }
}

/// Law (spiral order): different points have different places in the
/// spiral's order.
pub proof fn lemma_spiral_index_injective(ax: int, ay: int, bx: int, by: int)
    requires
        spiral_index(ax, ay) == spiral_index(bx, by),
    ensures
        ax == bx && ay == by,
{
    lemma_index_bounds(ax, ay);
    lemma_index_bounds(bx, by);
    let ca = chebyshev(ax, ay);
    let cb = chebyshev(bx, by);
    let k = spiral_index(ax, ay);
    if ca != cb {
        if ca < cb {
            if ca == 0 {
                assert(1 <= (2 * cb - 1) * (2 * cb - 1)) by (nonlinear_arith) requires cb >= 1;
            } else {
                assert((2 * ca + 1) * (2 * ca + 1) <= (2 * cb - 1) * (2 * cb - 1)) by (nonlinear_arith)
                    requires 1 <= ca, ca + 1 <= cb;
            }
        } else {
            if cb == 0 {
                assert(1 <= (2 * ca - 1) * (2 * ca - 1)) by (nonlinear_arith) requires ca >= 1;
            } else {
                assert((2 * cb + 1) * (2 * cb + 1) <= (2 * ca - 1) * (2 * ca - 1)) by (nonlinear_arith)
                    requires 1 <= cb, cb + 1 <= ca;
            }
        }
        assert(false);
    }
    if ca >= 1 {
        let la = spiral_leg(ax, ay);
        let lb = spiral_leg(bx, by);
        if la != lb {
            assert((2 * ca - 1) * (2 * ca) == (2 * ca - 1) * (2 * ca - 1) + 2 * ca - 1) by (nonlinear_arith);
            assert((2 * ca) * (2 * ca) == (2 * ca - 1) * (2 * ca) + 2 * ca) by (nonlinear_arith);
            assert(2 * ca * (2 * ca + 1) == (2 * ca) * (2 * ca) + 2 * ca) by (nonlinear_arith);
            assert(false);
        }
    }
}

/// Law (spiral rings): along the spiral's order the Chebyshev distance from
/// the centre never decreases, and place 0 is the centre itself.
pub proof fn lemma_spiral_rings_grow(ax: int, ay: int, bx: int, by: int)
    ensures
        spiral_index(ax, ay) <= spiral_index(bx, by) ==> chebyshev(ax, ay) <= chebyshev(bx, by),
        spiral_index(ax, ay) == 0 <==> (ax == 0 && ay == 0),
{
    lemma_index_bounds(ax, ay);
    lemma_index_bounds(bx, by);
    let ca = chebyshev(ax, ay);
    let cb = chebyshev(bx, by);
    if spiral_index(ax, ay) <= spiral_index(bx, by) && ca > cb {
        if cb == 0 {
            assert(1 <= (2 * ca - 1) * (2 * ca - 1)) by (nonlinear_arith) requires ca >= 1;
        } else {
            assert((2 * cb + 1) * (2 * cb + 1) <= (2 * ca - 1) * (2 * ca - 1)) by (nonlinear_arith)
                requires 1 <= cb, cb + 1 <= ca;
        }
    }
    if ca >= 1 {
        assert(1 <= (2 * ca - 1) * (2 * ca - 1)) by (nonlinear_arith) requires ca >= 1;
    }
}

/// Walks the positions around a centre in a square spiral, right, up,
/// left, down, with legs of lengths 1, 1, 2, 2, 3, 3, ..., and stops at the
/// first position farther than `max_radius` (Chebyshev distance) from the
/// centre. It yields every position of that square, one after the other.
#[derive(Debug)]
pub struct SpiralIterator {
    center_x: i32,
    center_y: i32,
    current_x: i32,
    current_y: i32,
    direction: Direction,
    leg_length: i32,
    steps_remaining_in_leg: i32,
    grow_next_leg: bool,
    max_radius: i32,
}

impl SpiralIterator {
    pub closed spec fn center(&self) -> (int, int) {
        (self.center_x as int, self.center_y as int)
    }

    pub closed spec fn radius(&self) -> int {
        self.max_radius as int
    }

    /// Offset of the next position from the centre.
    pub closed spec fn offset(&self) -> (int, int) {
        (self.current_x - self.center_x, self.current_y - self.center_y)
    }

    /// Index of the current leg's ring: legs right and up of length `2m+1`,
    /// left and down of length `2m+2`, belong to ring `m`.
    closed spec fn ring(&self) -> int {
        match self.direction {
            Direction::Right | Direction::Up => (self.leg_length - 1) / 2,
            Direction::Left | Direction::Down => (self.leg_length - 2) / 2,
        }
    }

    /// Steps already taken along the current leg.
    closed spec fn taken(&self) -> int {
        self.leg_length - self.steps_remaining_in_leg
    }

    /// Number of positions yielded so far.
    pub closed spec fn emitted(&self) -> int {
        let m = self.ring();
        let t = self.taken();
        match self.direction {
            Direction::Right => 2 * m * (2 * m + 1) + t,
            Direction::Up => (2 * m + 1) * (2 * m + 1) + t,
            Direction::Left => (2 * m + 1) * (2 * m + 2) + t,
            Direction::Down => (2 * m + 2) * (2 * m + 2) + t,
        }
    }

    /// The state is the one the spiral reaches after `emitted()` steps.
    closed spec fn phase_ok(&self) -> bool {
        let m = self.ring();
        let t = self.taken();
        let (dx, dy) = self.offset();
        &&& 1 <= self.steps_remaining_in_leg <= self.leg_length
        &&& m >= 0
        &&& match self.direction {
            Direction::Right => !self.grow_next_leg && self.leg_length == 2 * m + 1 && dx == -m + t && dy == m,
            Direction::Up => self.grow_next_leg && self.leg_length == 2 * m + 1 && dx == m + 1 && dy == m - t,
            Direction::Left => !self.grow_next_leg && self.leg_length == 2 * m + 2 && dx == m + 1 - t && dy == -m - 1,
            Direction::Down => self.grow_next_leg && self.leg_length == 2 * m + 2 && dx == -m - 1 && dy == -m - 1 + t,
        }
    }

    /// The iterator's state is a state of the spiral no later than its end,
    /// and the square around the centre fits in `i32`.
    pub closed spec fn wf(&self) -> bool {
        &&& self.phase_ok()
        &&& self.emitted() <= spiral_total(self.max_radius as int)
        &&& 2 * self.max_radius + 2 <= i32::MAX
        &&& self.max_radius >= 0 ==> {
            &&& i32::MIN <= self.center_x - self.max_radius - 1
            &&& self.center_x + self.max_radius + 1 <= i32::MAX
            &&& i32::MIN <= self.center_y - self.max_radius - 1
            &&& self.center_y + self.max_radius + 1 <= i32::MAX
        }
    }

    /// A spiral around `(center_x, center_y)` out to `max_radius`.
    pub fn new(center_x: i32, center_y: i32, max_radius: i32) -> (s: Self)
        requires
            2 * max_radius + 2 <= i32::MAX,
            max_radius >= 0 ==> i32::MIN <= center_x - max_radius - 1 && center_x + max_radius + 1 <= i32::MAX
                && i32::MIN <= center_y - max_radius - 1 && center_y + max_radius + 1 <= i32::MAX,
        ensures
            s.wf(),
            s.center() == (center_x as int, center_y as int),
            s.radius() == max_radius,
            s.emitted() == 0,
            s.offset() == (0int, 0int),
    {
        assert(spiral_total(max_radius as int) >= 0) by (nonlinear_arith)
            requires max_radius >= 0 ==> spiral_total(max_radius as int) == (2 * max_radius + 1) * (2 * max_radius + 1),
                max_radius < 0 ==> spiral_total(max_radius as int) == 0;
        let s = SpiralIterator {
            center_x,
            center_y,
            current_x: center_x,
            current_y: center_y,
            direction: Direction::Right,
            leg_length: 1,
            steps_remaining_in_leg: 1,
            grow_next_leg: false,
            max_radius,
        };
        assert(s.ring() == 0);
        assert(s.taken() == 0);
        let ghost m = s.ring();
        assert(2 * m * (2 * m + 1) == 0) by (nonlinear_arith) requires m == 0;
        assert(s.emitted() == 0);
        s
    }

    /// The current position lies within the radius exactly while the spiral
    /// has not yielded the whole square.
    proof fn lemma_within_radius(&self)
        requires
            self.phase_ok(),
        ensures
            (chebyshev(self.offset().0, self.offset().1) <= self.max_radius) <==> (self.emitted() < spiral_total(self.max_radius as int)),
            chebyshev(self.offset().0, self.offset().1) <= self.ring() + 1,
            self.emitted() >= 0,
    {
        let m = self.ring();
        let t = self.taken();
        let r = self.max_radius as int;
        let n = self.emitted();
        assert(0 <= m * m) by (nonlinear_arith);
        match self.direction {
            Direction::Right => {
                assert(0 <= t <= 2 * m);
                assert(chebyshev(self.offset().0, self.offset().1) == m);
                assert(m <= r ==> n < spiral_total(r)) by (nonlinear_arith)
                    requires n == 2 * m * (2 * m + 1) + t, 0 <= t <= 2 * m, 0 <= m,
                        r >= 0 ==> spiral_total(r) == (2 * r + 1) * (2 * r + 1);
                assert(m > r ==> n >= spiral_total(r)) by (nonlinear_arith)
                    requires n == 2 * m * (2 * m + 1) + t, 0 <= t, 0 <= m, r < 0 ==> spiral_total(r) == 0,
                        r >= 0 ==> spiral_total(r) == (2 * r + 1) * (2 * r + 1);
                assert(n >= 0) by (nonlinear_arith) requires n == 2 * m * (2 * m + 1) + t, 0 <= t, 0 <= m;
            },
            Direction::Up => {
                assert(0 <= t <= 2 * m);
                assert(chebyshev(self.offset().0, self.offset().1) == m + 1);
                assert(m + 1 <= r ==> n < spiral_total(r)) by (nonlinear_arith)
                    requires n == (2 * m + 1) * (2 * m + 1) + t, 0 <= t <= 2 * m, 0 <= m,
                        r >= 0 ==> spiral_total(r) == (2 * r + 1) * (2 * r + 1);
                assert(m + 1 > r ==> n >= spiral_total(r)) by (nonlinear_arith)
                    requires n == (2 * m + 1) * (2 * m + 1) + t, 0 <= t, 0 <= m, r < 0 ==> spiral_total(r) == 0,
                        r >= 0 ==> spiral_total(r) == (2 * r + 1) * (2 * r + 1);
                assert(n >= 0) by (nonlinear_arith) requires n == (2 * m + 1) * (2 * m + 1) + t, 0 <= t;
            },
            Direction::Left => {
                assert(0 <= t <= 2 * m + 1);
                assert(chebyshev(self.offset().0, self.offset().1) == m + 1);
                assert(m + 1 <= r ==> n < spiral_total(r)) by (nonlinear_arith)
                    requires n == (2 * m + 1) * (2 * m + 2) + t, 0 <= t <= 2 * m + 1, 0 <= m,
                        r >= 0 ==> spiral_total(r) == (2 * r + 1) * (2 * r + 1);
                assert(m + 1 > r ==> n >= spiral_total(r)) by (nonlinear_arith)
                    requires n == (2 * m + 1) * (2 * m + 2) + t, 0 <= t, 0 <= m, r < 0 ==> spiral_total(r) == 0,
                        r >= 0 ==> spiral_total(r) == (2 * r + 1) * (2 * r + 1);
                assert(n >= 0) by (nonlinear_arith) requires n == (2 * m + 1) * (2 * m + 2) + t, 0 <= t, 0 <= m;
            },
            Direction::Down => {
                assert(0 <= t <= 2 * m + 1);
                assert(chebyshev(self.offset().0, self.offset().1) == m + 1);
                assert(m + 1 <= r ==> n < spiral_total(r)) by (nonlinear_arith)
                    requires n == (2 * m + 2) * (2 * m + 2) + t, 0 <= t <= 2 * m + 1, 0 <= m,
                        r >= 0 ==> spiral_total(r) == (2 * r + 1) * (2 * r + 1);
                assert(m + 1 > r ==> n >= spiral_total(r)) by (nonlinear_arith)
                    requires n == (2 * m + 2) * (2 * m + 2) + t, 0 <= t, 0 <= m, r < 0 ==> spiral_total(r) == 0,
                        r >= 0 ==> spiral_total(r) == (2 * r + 1) * (2 * r + 1);
                assert(n >= 0) by (nonlinear_arith) requires n == (2 * m + 2) * (2 * m + 2) + t, 0 <= t;
            },
        }
    }

    /// The spiral's next position has, as its place in the spiral's order,
    /// the number of positions yielded so far.
    pub proof fn lemma_spiral_index(&self)
        requires
            self.wf(),
        ensures
            spiral_index(self.offset().0, self.offset().1) == self.emitted(),
    {
        let m = self.ring();
        let t = self.taken();
        let (dx, dy) = self.offset();
        match self.direction {
            Direction::Right => {
                assert(chebyshev(dx, dy) == m);
            },
            Direction::Up => {
                let c = m + 1;
                assert(chebyshev(dx, dy) == c);
                assert((2 * c - 1) * (2 * c - 1) == (2 * m + 1) * (2 * m + 1)) by (nonlinear_arith)
                    requires c == m + 1;
            },
            Direction::Left => {
                let c = m + 1;
                assert(chebyshev(dx, dy) == c);
                assert((2 * c - 1) * (2 * c) == (2 * m + 1) * (2 * m + 2)) by (nonlinear_arith)
                    requires c == m + 1;
            },
            Direction::Down => {
                let c = m + 1;
                assert(chebyshev(dx, dy) == c);
                assert((2 * c) * (2 * c) == (2 * m + 2) * (2 * m + 2)) by (nonlinear_arith)
                    requires c == m + 1;
            },
        }
    }

    /// The next position of the spiral, or `None` once the square is done.
    pub fn next(&mut self) -> (r: Option<(i32, i32)>)
        requires
            old(self).wf(),
        ensures
            final(self).wf(),
            final(self).center() == old(self).center(),
            final(self).radius() == old(self).radius(),
            old(self).emitted() < spiral_total(old(self).radius()) ==> {
                &&& r == Some(((old(self).center().0 + old(self).offset().0) as i32, (old(self).center().1 + old(self).offset().1) as i32))
                &&& chebyshev(old(self).offset().0, old(self).offset().1) <= old(self).radius()
                &&& final(self).emitted() == old(self).emitted() + 1
            },
            old(self).emitted() >= spiral_total(old(self).radius()) ==> r.is_none() && *final(self) == *old(self),
    {
        proof {
            self.lemma_within_radius();
        }
        let dx: i32 = self.current_x - self.center_x;
        let dy: i32 = self.current_y - self.center_y;
        let ax: i32 = if dx < 0 { -dx } else { dx };
        let ay: i32 = if dy < 0 { -dy } else { dy };
        let distance: i32 = if ax >= ay { ax } else { ay };
        if distance > self.max_radius {
            return None;
        }
        let result = (self.current_x, self.current_y);
        let ghost before = *self;
        self.direction.step(&mut self.current_x, &mut self.current_y);
        self.steps_remaining_in_leg = self.steps_remaining_in_leg - 1;
        if self.steps_remaining_in_leg == 0 {
            self.direction = self.direction.turn();
            if self.grow_next_leg {
                self.leg_length = self.leg_length + 1;
            }
            self.grow_next_leg = !self.grow_next_leg;
            self.steps_remaining_in_leg = self.leg_length;
        }
        proof {
            let m = before.ring();
            let t = before.taken();
            if before.steps_remaining_in_leg > 1 {
                assert(self.ring() == m);
                assert(self.taken() == t + 1);
            } else {
                match before.direction {
                    Direction::Right => {
                        assert(self.ring() == m);
                        assert((2 * m + 1) * (2 * m + 1) == 2 * m * (2 * m + 1) + 2 * m + 1) by (nonlinear_arith);
                    },
                    Direction::Up => {
                        assert(self.ring() == m);
                        assert((2 * m + 1) * (2 * m + 2) == (2 * m + 1) * (2 * m + 1) + 2 * m + 1) by (nonlinear_arith);
                    },
                    Direction::Left => {
                        assert(self.ring() == m);
                        assert((2 * m + 2) * (2 * m + 2) == (2 * m + 1) * (2 * m + 2) + 2 * m + 2) by (nonlinear_arith);
                    },
                    Direction::Down => {
                        assert(self.ring() == m + 1);
                        assert(2 * (m + 1) * (2 * (m + 1) + 1) == (2 * m + 2) * (2 * m + 2) + 2 * m + 2) by (nonlinear_arith);
                    },
                }
            }
        }
        Some(result)
    }
}

/// Law (spiral radius): every position a spiral yields lies within its
/// radius of the centre.
pub proof fn lemma_spiral_points_within_radius(s: SpiralIterator)
    requires
        s.wf(),
        s.emitted() < spiral_total(s.radius()),
    ensures
        chebyshev(s.offset().0, s.offset().1) <= s.radius(),
{
    s.lemma_within_radius();
}

/// Law (spiral run): two states of one spiral, taken at different steps
/// before its end, are at different positions, the later one no nearer the
/// centre; and every position of the square has a step before the end,
/// its place in the spiral's order, at which the spiral stands on it.
pub proof fn lemma_spiral_run(a: SpiralIterator, b: SpiralIterator, dx: int, dy: int)
    requires
        a.wf(),
        b.wf(),
        a.center() == b.center(),
        a.radius() == b.radius(),
    ensures
        a.emitted() < b.emitted() < spiral_total(a.radius()) ==> a.offset() != b.offset()
            && chebyshev(a.offset().0, a.offset().1) <= chebyshev(b.offset().0, b.offset().1),
        chebyshev(dx, dy) <= a.radius() ==> 0 <= spiral_index(dx, dy) < spiral_total(a.radius()),
        a.emitted() == spiral_index(dx, dy) && a.emitted() < spiral_total(a.radius()) ==> a.offset() == (dx, dy),
{
    a.lemma_spiral_index();
    b.lemma_spiral_index();
    lemma_spiral_rings_grow(a.offset().0, a.offset().1, b.offset().0, b.offset().1);
    lemma_index_bounds(dx, dy);
    if a.emitted() == spiral_index(dx, dy) {
        lemma_spiral_index_injective(a.offset().0, a.offset().1, dx, dy);
    }
    let c = chebyshev(dx, dy);
    let r = a.radius();
    if c <= r && c >= 1 {
        assert((2 * c + 1) * (2 * c + 1) <= (2 * r + 1) * (2 * r + 1)) by (nonlinear_arith) requires 1 <= c <= r;
    }
    if c == 0 && r >= 0 {
        assert((2 * r + 1) * (2 * r + 1) >= 1) by (nonlinear_arith) requires r >= 0;
    }
}

/// The positions a spiral around `(center_x, center_y)` out to
/// `max_radius` yields, in order: `(2r+1)²` of them, all within the radius.
pub fn spiral_positions(center_x: i32, center_y: i32, max_radius: i32) -> (ps: Vec<(i32, i32)>)
    requires
        2 * max_radius + 2 <= i32::MAX,
        max_radius >= 0 ==> i32::MIN <= center_x - max_radius - 1 && center_x + max_radius + 1 <= i32::MAX
            && i32::MIN <= center_y - max_radius - 1 && center_y + max_radius + 1 <= i32::MAX,
        spiral_total(max_radius as int) <= usize::MAX,
    ensures
        ps@.len() == spiral_total(max_radius as int),
        forall|i: int| 0 <= i < ps@.len() ==> chebyshev((#[trigger] ps@[i]).0 - center_x, ps@[i].1 - center_y) <= max_radius,
        forall|i: int| 0 <= i < ps@.len() ==> spiral_index((#[trigger] ps@[i]).0 - center_x, ps@[i].1 - center_y) == i,
        forall|i: int, j: int| 0 <= i < j < ps@.len() ==> (#[trigger] ps@[i]) != (#[trigger] ps@[j]),
        forall|dx: int, dy: int| #![trigger chebyshev(dx, dy)] chebyshev(dx, dy) <= max_radius
            ==> exists|i: int| 0 <= i < ps@.len() && (#[trigger] ps@[i]).0 == center_x + dx && ps@[i].1 == center_y + dy,
        forall|i: int, j: int| 0 <= i < j < ps@.len() ==> chebyshev((#[trigger] ps@[i]).0 - center_x, ps@[i].1 - center_y)
            <= chebyshev((#[trigger] ps@[j]).0 - center_x, ps@[j].1 - center_y),
        max_radius >= 0 ==> ps@[0] == (center_x, center_y),
{
    let mut it = SpiralIterator::new(center_x, center_y, max_radius);
    let ghost total = spiral_total(max_radius as int);
    let mut ps: Vec<(i32, i32)> = Vec::new();
    loop
        invariant
            it.wf(),
            it.center() == (center_x as int, center_y as int),
            it.radius() == max_radius,
            ps@.len() == it.emitted(),
            0 <= it.emitted() <= total,
            total == spiral_total(max_radius as int),
            forall|i: int| 0 <= i < ps@.len() ==> chebyshev((#[trigger] ps@[i]).0 - center_x, ps@[i].1 - center_y) <= max_radius,
            forall|i: int| 0 <= i < ps@.len() ==> spiral_index((#[trigger] ps@[i]).0 - center_x, ps@[i].1 - center_y) == i,
        ensures
            ps@.len() == total,
            forall|i: int| 0 <= i < ps@.len() ==> chebyshev((#[trigger] ps@[i]).0 - center_x, ps@[i].1 - center_y) <= max_radius,
            forall|i: int| 0 <= i < ps@.len() ==> spiral_index((#[trigger] ps@[i]).0 - center_x, ps@[i].1 - center_y) == i,
        decreases total - it.emitted(),
    {
        proof {
            it.lemma_spiral_index();
        }
        match it.next() {
            Some(p) => {
                ps.push(p);
            },
            None => {
                break;
            },
        }
    }
    assert forall|dx: int, dy: int| #![trigger chebyshev(dx, dy)] chebyshev(dx, dy) <= max_radius
        implies exists|i: int| 0 <= i < ps@.len() && (#[trigger] ps@[i]).0 == center_x + dx && ps@[i].1 == center_y + dy by {
        lemma_index_bounds(dx, dy);
        let c = chebyshev(dx, dy);
        let k = spiral_index(dx, dy);
        assert((2 * c + 1) * (2 * c + 1) <= (2 * max_radius + 1) * (2 * max_radius + 1)) by (nonlinear_arith)
            requires 0 <= c <= max_radius;
        assert(0 <= k < ps@.len());
        assert(spiral_index(ps@[k].0 - center_x, ps@[k].1 - center_y) == k);
        lemma_spiral_index_injective(ps@[k].0 - center_x, ps@[k].1 - center_y, dx, dy);
    }
    assert forall|i: int, j: int| 0 <= i < j < ps@.len() implies chebyshev((#[trigger] ps@[i]).0 - center_x, ps@[i].1 - center_y)
        <= chebyshev((#[trigger] ps@[j]).0 - center_x, ps@[j].1 - center_y) by {
        lemma_spiral_rings_grow(ps@[i].0 - center_x, ps@[i].1 - center_y, ps@[j].0 - center_x, ps@[j].1 - center_y);
    }
    proof {
        if max_radius >= 0 {
            assert((2 * max_radius + 1) * (2 * max_radius + 1) >= 1) by (nonlinear_arith) requires max_radius >= 0;
            lemma_spiral_rings_grow(ps@[0].0 - center_x, ps@[0].1 - center_y, 0int, 0int);
        }
    }
    assert forall|i: int, j: int| 0 <= i < j < ps@.len() implies (#[trigger] ps@[i]) != (#[trigger] ps@[j]) by {
        assert(spiral_index(ps@[i].0 - center_x, ps@[i].1 - center_y) == i);
        assert(spiral_index(ps@[j].0 - center_x, ps@[j].1 - center_y) == j);
    }
    ps
}

/// Whether a client of `v` is sent a separate light update after each
/// chunk (1.14 to 1.17.1).
pub open spec fn needs_light_update(v: ProtocolVersion) -> bool {
    ProtocolVersion::V1_14.rank() <= v.rank() && v.rank() <= ProtocolVersion::V1_17_1.rank()
}

/// Whether a client of `version` is sent a separate light update after each chunk.
pub fn needs_legacy_light_update(version: ProtocolVersion) -> (b: bool)
    ensures
        b == needs_light_update(version),
{
    version.between_inclusive(ProtocolVersion::V1_14, ProtocolVersion::V1_17_1)
}

/// The version whose block report maps a world's blocks for `version`:
/// clients up to 1.15.2 use the 1.16 report.
pub fn block_mapping_version(version: ProtocolVersion) -> (v: ProtocolVersion)
    ensures
        v == if version.rank() <= ProtocolVersion::V1_15_2.rank() { ProtocolVersion::V1_16 } else { version },
{
    if version.is_before_inclusive(ProtocolVersion::V1_15_2) {
        ProtocolVersion::V1_16
    } else {
        version
    }
}

/// A packet of the world sent around a player.
#[derive(Debug, Clone, Copy, PartialEq, Eq, Structural)]
pub enum ChunkPacket {
    /// A chunk's blocks (with its light from 1.18 on).
    ChunkData { chunk_x: i32, chunk_z: i32 },
    /// A chunk's light, sent separately to clients 1.14 to 1.17.1.
    LightUpdate { chunk_x: i32, chunk_z: i32 },
}

/// Packets per chunk for a client of `v`.
pub open spec fn packets_per_chunk(v: ProtocolVersion) -> int {
    if needs_light_update(v) { 2 } else { 1 }
}

/// Number of packets that send the chunks within `view_distance` to a client of `v`.
pub open spec fn chunk_packet_total(v: ProtocolVersion, view_distance: int) -> int {
    spiral_total(view_distance) * packets_per_chunk(v)
}

/// Sends the chunks around a centre chunk, nearest first along the spiral,
/// each followed by its light update where the client needs one.
#[derive(Debug)]
pub struct CircularChunkPacketIterator {
    spiral_iterator: SpiralIterator,
    protocol_version: ProtocolVersion,
    pending: Option<ChunkPacket>,
}

impl CircularChunkPacketIterator {
    pub closed spec fn version(&self) -> ProtocolVersion {
        self.protocol_version
    }

    pub closed spec fn view_distance(&self) -> int {
        self.spiral_iterator.radius()
    }

    /// Packets handed out so far.
    pub closed spec fn produced(&self) -> int {
        self.spiral_iterator.emitted() * packets_per_chunk(self.protocol_version)
            - if self.pending.is_some() { 1int } else { 0int }
    }

    pub closed spec fn wf(&self) -> bool {
        &&& self.spiral_iterator.wf()
        &&& self.pending.is_some() ==> needs_light_update(self.protocol_version) && self.spiral_iterator.emitted() >= 1
    }

    /// The spiral of chunk positions still to be sent.
    pub closed spec fn spiral_spec(&self) -> SpiralIterator {
        self.spiral_iterator
    }

    /// The light update waiting to follow the chunk just sent, if any.
    pub closed spec fn pending_spec(&self) -> Option<ChunkPacket> {
        self.pending
    }

    /// The chunks within `view_distance` of `center_chunk`, for a client of `protocol_version`.
    pub fn new(center_chunk: (i32, i32), view_distance: i32, protocol_version: ProtocolVersion) -> (it: Self)
        requires
            2 * view_distance + 2 <= i32::MAX,
            view_distance >= 0 ==> i32::MIN <= center_chunk.0 - view_distance - 1 && center_chunk.0 + view_distance + 1 <= i32::MAX
                && i32::MIN <= center_chunk.1 - view_distance - 1 && center_chunk.1 + view_distance + 1 <= i32::MAX,
        ensures
            it.wf(),
            it.version() == protocol_version,
            it.view_distance() == view_distance,
            it.produced() == 0,
            it.pending_spec().is_none(),
            it.spiral_spec().center() == (center_chunk.0 as int, center_chunk.1 as int),
            it.spiral_spec().radius() == view_distance,
            it.spiral_spec().emitted() == 0,
            it.spiral_spec().offset() == (0int, 0int),
    {
        CircularChunkPacketIterator {
            spiral_iterator: SpiralIterator::new(center_chunk.0, center_chunk.1, view_distance),
            protocol_version,
            pending: None,
        }
    }

    /// The next packet, or `None` once every chunk (and light update) is
    /// out: a waiting light update first; otherwise the data of the chunk at
    /// the spiral's next position, whose light update then waits when the
    /// client needs one (1.14 to 1.17.1).
    pub fn next(&mut self) -> (p: Option<ChunkPacket>)
        requires
            old(self).wf(),
        ensures
            old(self).pending_spec() matches Some(q) ==> p == Some(q) && final(self).pending_spec().is_none()
                && final(self).spiral_spec() == old(self).spiral_spec(),
            old(self).pending_spec().is_none() && old(self).spiral_spec().emitted() < spiral_total(old(self).view_distance()) ==> {
                let x = (old(self).spiral_spec().center().0 + old(self).spiral_spec().offset().0) as i32;
                let z = (old(self).spiral_spec().center().1 + old(self).spiral_spec().offset().1) as i32;
                &&& p == Some(ChunkPacket::ChunkData { chunk_x: x, chunk_z: z })
                &&& final(self).pending_spec() == if needs_light_update(old(self).version()) {
                    Some(ChunkPacket::LightUpdate { chunk_x: x, chunk_z: z })
                } else {
                    None::<ChunkPacket>
                }
                &&& final(self).spiral_spec().emitted() == old(self).spiral_spec().emitted() + 1
                &&& final(self).spiral_spec().center() == old(self).spiral_spec().center()
            },
            old(self).pending_spec().is_none() && old(self).spiral_spec().emitted() >= spiral_total(old(self).view_distance())
                ==> p.is_none() && *final(self) == *old(self),
            final(self).wf(),
            final(self).version() == old(self).version(),
            final(self).view_distance() == old(self).view_distance(),
            old(self).produced() < chunk_packet_total(old(self).version(), old(self).view_distance()) ==> p.is_some()
                && final(self).produced() == old(self).produced() + 1,
            old(self).produced() >= chunk_packet_total(old(self).version(), old(self).view_distance()) ==> p.is_none()
                && final(self).produced() == old(self).produced(),
    {
        let ghost v = self.protocol_version;
        let ghost per = packets_per_chunk(v);
        let ghost e = self.spiral_iterator.emitted();
        let ghost total = spiral_total(self.spiral_iterator.radius());
        assert(e <= total);
        if let Some(packet) = self.pending.take() {
            assert(e * per - 1 < total * per) by (nonlinear_arith)
                requires e <= total, per == 2;
            return Some(packet);
        }
        assert(e * per >= total * per <==> e >= total) by (nonlinear_arith)
            requires per == 1 || per == 2;
        let (chunk_x, chunk_z) = match self.spiral_iterator.next() {
            Some(p) => p,
            None => return None,
        };
        assert((e + 1) * per == e * per + per) by (nonlinear_arith);
        if needs_legacy_light_update(self.protocol_version) {
            self.pending = Some(ChunkPacket::LightUpdate { chunk_x, chunk_z });
        }
        Some(ChunkPacket::ChunkData { chunk_x, chunk_z })
    }
}

/// The protocol buckets the world-sending code is measured on.
#[derive(Debug, Clone, Copy, PartialEq, Eq, Structural)]
pub enum BenchProtocol {
    Legacy,
    LightUpdate,
    Modern,
    Latest,
}

impl BenchProtocol {
    pub open spec fn version_spec(self) -> ProtocolVersion {
        match self {
            BenchProtocol::Legacy => ProtocolVersion::V1_8,
            BenchProtocol::LightUpdate => ProtocolVersion::V1_17,
            BenchProtocol::Modern => ProtocolVersion::V1_20_5,
            BenchProtocol::Latest => ProtocolVersion::V26_1,
        }
    }

    /// The protocol version the bucket stands for.
    pub fn version(self) -> (v: ProtocolVersion)
        ensures
            v == self.version_spec(),
    {
        match self {
            BenchProtocol::Legacy => ProtocolVersion::V1_8,
            BenchProtocol::LightUpdate => ProtocolVersion::V1_17,
            BenchProtocol::Modern => ProtocolVersion::V1_20_5,
            BenchProtocol::Latest => ProtocolVersion::V26_1,
        }
    }

    /// A short name of the bucket.
    pub fn label(self) -> (s: &'static str)
        ensures
            s@ == match self {
                BenchProtocol::Legacy => "v1_8"@,
                BenchProtocol::LightUpdate => "v1_17"@,
                BenchProtocol::Modern => "v1_20_5"@,
                BenchProtocol::Latest => "v26_1"@,
            },
    {
        match self {
            BenchProtocol::Legacy => "v1_8",
            BenchProtocol::LightUpdate => "v1_17",
            BenchProtocol::Modern => "v1_20_5",
            BenchProtocol::Latest => "v26_1",
        }
    }
}

/// Number of packets that send the world within `view_distance` of the
/// origin chunk to a client of the bucket's version, counted by running the
/// chunk iterator to its end.
pub fn collect_chunk_packets(protocol: BenchProtocol, view_distance: i32) -> (n: usize)
    requires
        2 * view_distance + 2 <= i32::MAX,
        chunk_packet_total(protocol.version_spec(), view_distance as int) <= usize::MAX,
    ensures
        n == chunk_packet_total(protocol.version_spec(), view_distance as int),
{
    let mut it = CircularChunkPacketIterator::new((0, 0), view_distance, protocol.version());
    let ghost total = chunk_packet_total(protocol.version_spec(), view_distance as int);
    let mut n: usize = 0;
    loop
        invariant
            it.wf(),
            it.version() == protocol.version_spec(),
            it.view_distance() == view_distance,
            0 <= it.produced() <= total,
            n == it.produced(),
            total == chunk_packet_total(protocol.version_spec(), view_distance as int),
            total <= usize::MAX,
        ensures
            n == total,
        decreases total - it.produced(),
    {
        proof {
            assert(spiral_total(view_distance as int) >= 0) by (nonlinear_arith);
        }
        match it.next() {
            Some(_) => {
                n = n + 1;
            },
            None => {
                break;
            },
        }
    }
    n
}

} // verus!
