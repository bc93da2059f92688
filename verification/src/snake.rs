//! The snake body model: an ordered list of occupied cells, a heading, and a
//! one-shot growth flag, with movement and overlap queries.

use vstd::prelude::*;

verus! {

/// The four headings a snake can take on the grid.
#[derive(Clone, Copy, Debug, PartialEq, Eq, Structural)]
pub enum Direction {
    Up,
    Down,
    Left,
    Right,
}

impl Direction {
    /// The exact reverse of this heading.
    pub open spec fn opposite_spec(&self) -> Direction {
        match self {
            Direction::Up => Direction::Down,
            Direction::Down => Direction::Up,
            Direction::Left => Direction::Right,
            Direction::Right => Direction::Left,
        }
    }

    /// The exact reverse of this heading: Up and Down swap, Left and Right swap.
    #[verifier::when_used_as_spec(opposite_spec)]
    pub fn opposite(&self) -> (d: Direction)
        ensures
            d == self.opposite_spec(),
    {
        match self {
            Direction::Up => Direction::Down,
            Direction::Down => Direction::Up,
            Direction::Left => Direction::Right,
            Direction::Right => Direction::Left,
        }
    }
}

/// The cell one step away from `(x, y)` in direction `d`: Up decreases y,
/// Down increases y, Left decreases x, Right increases x.
pub open spec fn step_cell(x: int, y: int, d: Direction) -> (int, int) {
    match d {
        Direction::Up => (x, y - 1),
        Direction::Down => (x, y + 1),
        Direction::Left => (x - 1, y),
        Direction::Right => (x + 1, y),
    }
}

/// Mathematical model of a snake: heading, occupied cells (head first), and
/// whether the next committed move keeps the tail.
#[verifier::ext_equal]
pub struct SnakeView {
    pub direction: Direction,
    pub body: Seq<(i32, i32)>,
    pub grow_pending: bool,
}

impl SnakeView {
    /// A snake is well formed when it occupies at least one cell.
    pub open spec fn wf(self) -> bool {
        self.body.len() >= 1
    }

    /// No two segments occupy the same cell.
    pub open spec fn distinct(self) -> bool {
        forall|i: int, j: int|
            0 <= i < j < self.body.len() ==> self.body[i] != self.body[j]
    }
}

/// The heading one step would take: the intent if present, the current
/// heading otherwise.
pub open spec fn heading_of(s: SnakeView, dir: Option<Direction>) -> Direction {
    match dir {
        Some(d) => d,
        None => s.direction,
    }
}

/// The cell the head would occupy after one step with intent `dir`.
pub open spec fn next_head_spec(s: SnakeView, dir: Option<Direction>) -> (int, int) {
    step_cell(s.body[0].0 as int, s.body[0].1 as int, heading_of(s, dir))
}

/// How many leading segments count for the self-overlap test: all of them
/// while a growth is pending (the tail will then stay), otherwise all but the
/// tail, which vacates its cell on the very next move.
pub open spec fn occupied_limit(s: SnakeView) -> int {
    if s.grow_pending {
        s.body.len() as int
    } else {
        s.body.len() - 1
    }
}

/// Whether `(x, y)` is covered by a segment that will still be there after
/// the next move (tail-exclusion rule).
pub open spec fn overlap_spec(s: SnakeView, x: int, y: int) -> bool {
    exists|i: int|
        0 <= i < occupied_limit(s) && s.body[i].0 as int == x && s.body[i].1 as int == y
}

/// One committed movement step: the heading becomes `heading_of(s, dir)`, the
/// new head cell is prepended, and the tail is dropped unless a pending
/// growth is consumed.
pub open spec fn move_spec(s: SnakeView, dir: Option<Direction>) -> SnakeView {
    let nh = next_head_spec(s, dir);
    let grown = seq![((nh.0 as i32), (nh.1 as i32))] + s.body;
    SnakeView {
        direction: heading_of(s, dir),
        body: if s.grow_pending {
            grown
        } else {
            grown.drop_last()
        },
        grow_pending: false,
    }
}

/// The two-segment snake a game starts with: head at `(x, y)`, tail one cell
/// to its left, heading Right.
pub open spec fn initial_snake_at(x: i32, y: i32) -> SnakeView {
    SnakeView {
        direction: Direction::Right,
        body: seq![(x, y), (((x - 1) as i32), y)],
        grow_pending: false,
    }
}

/// The snake body: an ordered segment list (head first), the current heading,
/// and a one-shot growth flag.
pub struct Snake {
    direction: Direction,
    body: Vec<(i32, i32)>,
    grow_pending: bool,
}

impl View for Snake {
    type V = SnakeView;

    closed spec fn view(&self) -> SnakeView {
        SnakeView { direction: self.direction, body: self.body@, grow_pending: self.grow_pending }
    }
}

impl Snake {
    /// A fresh snake of two segments heading Right, head at `(x, y)`.
    pub fn new(x: i32, y: i32) -> (s: Snake)
        requires
            x > i32::MIN,
        ensures
            s@ == initial_snake_at(x, y),
    {
        let mut body: Vec<(i32, i32)> = Vec::new();
        body.push((x, y));
        body.push((x - 1, y));
        let s = Snake { direction: Direction::Right, body, grow_pending: false };
        proof {
            assert(s@ =~= initial_snake_at(x, y));
        }
        s
    }

    /// The current heading.
    pub fn head_direction(&self) -> (d: Direction)
        ensures
            d == self@.direction,
    {
        self.direction
    }

    /// The head cell.
    pub fn head_position(&self) -> (p: (i32, i32))
        requires
            self@.wf(),
        ensures
            p == self@.body[0],
    {
        self.body[0]
    }

    /// How many cells the snake occupies.
    pub fn length(&self) -> (n: usize)
        ensures
            n == self@.body.len(),
    {
        self.body.len()
    }

    /// The segment at position `i`; position 0 is the head.
    pub fn segment(&self, i: usize) -> (p: (i32, i32))
        requires
            i < self@.body.len(),
        ensures
            p == self@.body[i as int],
    {
        self.body[i]
    }

    /// The cell the head would occupy after one step with intent `dir`.
    /// Pure arithmetic: it neither rejects reversals nor checks collisions;
    /// that is the caller's responsibility.
    pub fn next_head(&self, dir: Option<Direction>) -> (p: (i32, i32))
        requires
            self@.wf(),
            i32::MIN < self@.body[0].0 < i32::MAX,
            i32::MIN < self@.body[0].1 < i32::MAX,
        ensures
            (p.0 as int, p.1 as int) == next_head_spec(self@, dir),
    {
        let (hx, hy) = self.body[0];
        let d = match dir {
            Some(d) => d,
            None => self.direction,
        };
        match d {
            Direction::Up => (hx, hy - 1),
            Direction::Down => (hx, hy + 1),
            Direction::Left => (hx - 1, hy),
            Direction::Right => (hx + 1, hy),
        }
    }

    /// Whether `(x, y)` is covered by a segment that will still be there
    /// after the next move: the vacating tail is excluded unless a pending
    /// growth will keep it in place.
    pub fn overlap_tail(&self, x: i32, y: i32) -> (r: bool)
        requires
            self@.wf(),
        ensures
            r == overlap_spec(self@, x as int, y as int),
    {
        let limit: usize = if self.grow_pending {
            self.body.len()
        } else {
            self.body.len() - 1
        };
        let mut i: usize = 0;
        while i < limit
            invariant
                limit == occupied_limit(self@),
                limit <= self@.body.len(),
                0 <= i <= limit,
                forall|k: int|
                    0 <= k < i ==> !(self@.body[k].0 == x && self@.body[k].1 == y),
            decreases limit - i,
        {
            let (bx, by) = self.body[i];
            if bx == x && by == y {
                return true;
            }
            i += 1;
        }
        false
    }

    /// Marks the snake to grow: the next `move_forward` keeps the tail,
    /// for a net length of one more.
    pub fn add_block_tail(&mut self)
        ensures
            final(self)@ == (SnakeView { grow_pending: true, ..old(self)@ }),
    {
        self.grow_pending = true;
    }

    /// Commits one step: updates the heading to `dir` if given, prepends the
    /// new head cell, and drops the tail unless a pending growth is consumed.
    pub fn move_forward(&mut self, dir: Option<Direction>)
        requires
            old(self)@.wf(),
            i32::MIN < old(self)@.body[0].0 < i32::MAX,
            i32::MIN < old(self)@.body[0].1 < i32::MAX,
        ensures
            final(self)@ == move_spec(old(self)@, dir),
    {
        let nh = self.next_head(dir);
        if let Some(d) = dir {
            self.direction = d;
        }
        self.body.insert(0, nh);
        if self.grow_pending {
            self.grow_pending = false;
        } else {
            self.body.pop();
        }
        proof {
            assert(self@.body =~= move_spec(old(self)@, dir).body);
            assert(self@ =~= move_spec(old(self)@, dir));
        }
    }
}

} // verus!
