//! The game state machine: timing, food lifecycle, collision detection, and
//! the game-over/restart cycle.

use vstd::prelude::*;

use crate::snake::Direction;
use crate::snake::Snake;
use crate::snake::SnakeView;
use crate::snake::initial_snake_at;
use crate::snake::next_head_spec;
use crate::snake::overlap_spec;

verus! {

/// Milliseconds of accumulated waiting time after which the snake advances on
/// its own.
pub const MOVING_PERIOD_MS: u64 = 100;

/// Milliseconds the game-over state persists before the game restarts.
pub const RESTART_TIME_MS: u64 = 1000;

/// Head cell of a freshly started snake.
pub const START_X: i32 = 2;

/// Head cell of a freshly started snake.
pub const START_Y: i32 = 2;

/// Cell of the first food after a start or restart.
pub const FOOD_START_X: i32 = 6;

/// Cell of the first food after a start or restart.
pub const FOOD_START_Y: i32 = 4;

/// Mathematical model of a whole game: the snake, the food, the board
/// bounds, the game-over flag and the waiting-time accumulator.
#[verifier::ext_equal]
pub struct GameView {
    pub snake: SnakeView,
    pub food_exists: bool,
    pub food_x: i32,
    pub food_y: i32,
    pub width: i32,
    pub height: i32,
    pub game_over: bool,
    pub waiting_time: u64,
}

impl GameView {
    /// Whether `(x, y)` lies in the playable interior: the board without its
    /// one-cell border frame.
    pub open spec fn in_interior(self, x: int, y: int) -> bool {
        1 <= x <= self.width - 2 && 1 <= y <= self.height - 2
    }

    /// Whether segment `i` of the snake lies in the playable interior.
    pub open spec fn seg_ok(self, i: int) -> bool {
        self.in_interior(self.snake.body[i].0 as int, self.snake.body[i].1 as int)
    }

    /// Well-formedness: the board leaves room for the fixed start layout, the
    /// snake is non-empty with pairwise distinct segments, and every segment
    /// as well as the food (when present) lies in the playable interior.
    pub open spec fn wf(self) -> bool {
        &&& self.width >= 8
        &&& self.height >= 6
        &&& self.snake.wf()
        &&& self.snake.distinct()
        &&& forall|i: int| 0 <= i < self.snake.body.len() ==> #[trigger] self.seg_ok(i)
        &&& (self.food_exists ==> self.in_interior(self.food_x as int, self.food_y as int))
    }
}

/// Whether a step with intent `dir` keeps the snake alive: the prospective
/// head cell neither overlaps the body (tail-exclusion rule) nor leaves the
/// playable interior.
pub open spec fn alive_spec(g: GameView, dir: Option<Direction>) -> bool {
    let nh = next_head_spec(g.snake, dir);
    &&& !overlap_spec(g.snake, nh.0, nh.1)
    &&& nh.0 > 0
    &&& nh.1 > 0
    &&& nh.0 < g.width - 1
    &&& nh.1 < g.height - 1
}

/// Food consumption after a committed step: when the head sits exactly on
/// existing food, the food disappears and the snake is marked to grow.
pub open spec fn eat_spec(g: GameView) -> GameView {
    if g.food_exists && g.snake.body[0].0 == g.food_x && g.snake.body[0].1 == g.food_y {
        GameView {
            food_exists: false,
            snake: SnakeView { grow_pending: true, ..g.snake },
            ..g
        }
    } else {
        g
    }
}

/// The central transition: an alive step commits the move and runs food
/// consumption; a lethal one only sets the game-over flag. Either way the
/// waiting time restarts at zero.
pub open spec fn update_snake_spec(g: GameView, dir: Option<Direction>) -> GameView {
    let g2 = if alive_spec(g, dir) {
        eat_spec(GameView { snake: crate::snake::move_spec(g.snake, dir), ..g })
    } else {
        GameView { game_over: true, ..g }
    };
    GameView { waiting_time: 0, ..g2 }
}

/// A directional key press: ignored while the game is over, ignored when it
/// is the exact reverse of the current heading, a normal step otherwise.
/// `None` stands for a key with no directional meaning and is ignored.
pub open spec fn key_pressed_spec(g: GameView, dir: Option<Direction>) -> GameView {
    if g.game_over {
        g
    } else {
        match dir {
            None => g,
            Some(d) => if d == g.snake.direction.opposite_spec() {
                g
            } else {
                update_snake_spec(g, Some(d))
            },
        }
    }
}

/// The state a game starts in on a `width` by `height` board: the fixed
/// two-segment snake, the fixed first food, not over, timer at zero.
pub open spec fn initial_game_spec(width: i32, height: i32) -> GameView {
    GameView {
        snake: initial_snake_at(START_X, START_Y),
        food_exists: true,
        food_x: FOOD_START_X,
        food_y: FOOD_START_Y,
        width: width,
        height: height,
        game_over: false,
        waiting_time: 0,
    }
}

/// A restart: the initial state on the same board.
pub open spec fn restart_spec(g: GameView) -> GameView {
    initial_game_spec(g.width, g.height)
}

/// The waiting-time accumulator after `d` more milliseconds: saturating at
/// the largest representable value.
pub open spec fn accumulate(w: u64, d: u64) -> u64 {
    if w + d > u64::MAX {
        u64::MAX
    } else {
        (w + d) as u64
    }
}

/// Whether `(x, y)` is an acceptable food cell in state `g`: inside the
/// playable interior and not on a body cell that the next move keeps
/// (the same tail-exclusion rule the self-collision test uses).
pub open spec fn food_ok(g: GameView, x: int, y: int) -> bool {
    g.in_interior(x, y) && !overlap_spec(g.snake, x, y)
}

/// Whether some acceptable food cell exists in state `g`.
pub open spec fn has_free_cell(g: GameView) -> bool {
    exists|x: int, y: int| #[trigger] food_ok(g, x, y)
}

/// What placing food does: everything but the food is unchanged; food exists
/// afterwards exactly when some acceptable cell exists, and then sits on an
/// acceptable cell.
pub open spec fn add_food_rel(pre: GameView, post: GameView) -> bool {
    &&& post.snake == pre.snake
    &&& post.game_over == pre.game_over
    &&& post.waiting_time == pre.waiting_time
    &&& post.width == pre.width
    &&& post.height == pre.height
    &&& post.food_exists == has_free_cell(pre)
    &&& (post.food_exists ==> food_ok(pre, post.food_x as int, post.food_y as int))
    &&& (!post.food_exists ==> post.food_x == pre.food_x && post.food_y == pre.food_y)
}

/// How many random samples food placement takes before it falls back to a
/// deterministic scan of the interior.
pub const FOOD_SAMPLE_TRIES: u32 = 64;

/// Relies on rand::thread_rng and rand::Rng::gen_range: a sample from the
/// half-open range `low..high` lies in that range; the range is non-empty,
/// so the call does not panic.
#[verifier::external_body]
fn random_in_range(low: i32, high: i32) -> (r: i32)
    requires
        low < high,
    ensures
        low <= r < high,
{
    rand::Rng::gen_range(&mut rand::thread_rng(), low..high)
}

/// Picks an acceptable food cell on a `width` by `height` board, or reports
/// that none exists. A few uniform random samples keep placement unbiased;
/// a deterministic scan of the whole interior then bounds the search, where
/// an unbounded retry loop could spin forever on a nearly full board.
fn pick_food_cell(snake: &Snake, width: i32, height: i32) -> (r: Option<(i32, i32)>)
    requires
        width >= 8,
        height >= 6,
        snake@.wf(),
    ensures
        match r {
            Some(p) => 1 <= p.0 <= width - 2 && 1 <= p.1 <= height - 2 && !overlap_spec(
                snake@,
                p.0 as int,
                p.1 as int,
            ),
            None => forall|x: int, y: int|
                1 <= x <= width - 2 && 1 <= y <= height - 2 ==> overlap_spec(snake@, x, y),
        },
{
    let mut tries: u32 = 0;
    while tries < FOOD_SAMPLE_TRIES
        invariant
            width >= 8,
            height >= 6,
            snake@.wf(),
        decreases FOOD_SAMPLE_TRIES - tries,
    {
        let fx = random_in_range(1, width - 1);
        let fy = random_in_range(1, height - 1);
        if !snake.overlap_tail(fx, fy) {
            return Some((fx, fy));
        }
        tries += 1;
    }
    let mut fy: i32 = 1;
    while fy < height - 1
        invariant
            width >= 8,
            height >= 6,
            snake@.wf(),
            1 <= fy <= height - 1,
            forall|x: int, y: int|
                1 <= x <= width - 2 && 1 <= y < fy ==> overlap_spec(snake@, x, y),
        decreases height - 1 - fy,
    {
        let mut fx: i32 = 1;
        while fx < width - 1
            invariant
                width >= 8,
                height >= 6,
                snake@.wf(),
                1 <= fy <= height - 2,
                1 <= fx <= width - 1,
                forall|x: int, y: int|
                    1 <= x <= width - 2 && 1 <= y < fy ==> overlap_spec(snake@, x, y),
                forall|x: int| 1 <= x < fx ==> overlap_spec(snake@, x, fy as int),
            decreases width - 1 - fx,
        {
            if !snake.overlap_tail(fx, fy) {
                return Some((fx, fy));
            }
            fx += 1;
        }
        fy += 1;
    }
    None
}

/// The state after food was spawned at `(x, y)` on `g1`: the spawned food is
/// placed, then the snake steps once on its own heading if the waiting time
/// exceeds the movement period.
pub open spec fn step_after_spawn(g1: GameView, x: int, y: int) -> GameView {
    let g2 = GameView { food_exists: true, food_x: x as i32, food_y: y as i32, ..g1 };
    if g1.waiting_time > MOVING_PERIOD_MS {
        update_snake_spec(g2, None)
    } else {
        g2
    }
}

/// What one time tick of `delta_ms` milliseconds does. While the game is
/// over, only the timer runs until it exceeds the restart delay, which
/// restarts the game. While playing, missing food is spawned first (on some
/// acceptable cell, if one exists), then the snake steps once on its own
/// heading if the accumulated waiting time exceeds the movement period.
pub open spec fn update_rel(pre: GameView, post: GameView, delta_ms: u64) -> bool {
    let w = accumulate(pre.waiting_time, delta_ms);
    let g1 = GameView { waiting_time: w, ..pre };
    if pre.game_over {
        post == (if w > RESTART_TIME_MS {
            restart_spec(pre)
        } else {
            g1
        })
    } else if pre.food_exists {
        post == (if w > MOVING_PERIOD_MS {
            update_snake_spec(g1, None)
        } else {
            g1
        })
    } else if has_free_cell(pre) {
        exists|x: int, y: int| #[trigger] food_ok(pre, x, y) && post == step_after_spawn(g1, x, y)
    } else {
        post == (if w > MOVING_PERIOD_MS {
            update_snake_spec(g1, None)
        } else {
            g1
        })
    }
}

/// Acceptable food cells depend only on the snake and the board, so two
/// states that share them accept the same cells.
proof fn lemma_free_cell_same(a: GameView, b: GameView)
    requires
        b.snake == a.snake,
        b.width == a.width,
        b.height == a.height,
    ensures
        has_free_cell(a) == has_free_cell(b),
        forall|x: int, y: int| #[trigger] food_ok(a, x, y) == food_ok(b, x, y),
{
    assert forall|x: int, y: int| #[trigger] food_ok(a, x, y) == food_ok(b, x, y) by {}
    if has_free_cell(a) {
        let (x, y) = choose|x: int, y: int| #[trigger] food_ok(a, x, y);
        assert(food_ok(b, x, y));
    }
    if has_free_cell(b) {
        let (x, y) = choose|x: int, y: int| #[trigger] food_ok(b, x, y);
        assert(food_ok(a, x, y));
    }
}

/// The initial state is well formed.
pub proof fn lemma_initial_wf(width: i32, height: i32)
    requires
        width >= 8,
        height >= 6,
    ensures
        initial_game_spec(width, height).wf(),
{
    let g = initial_game_spec(width, height);
    assert(g.snake.body[0] == (START_X, START_Y));
    assert(g.snake.body[1] == (1i32, START_Y));
    assert forall|i: int, j: int| 0 <= i < j < g.snake.body.len() implies g.snake.body[i]
        != g.snake.body[j] by {
        assert(i == 0 && j == 1);
    }
    assert forall|i: int| 0 <= i < g.snake.body.len() implies #[trigger] g.seg_ok(i) by {
        assert(i == 0 || i == 1);
    }
}

/// A state that keeps the snake and the board of a well-formed state, and
/// whose food (when present) lies in the interior, is well formed.
proof fn lemma_wf_same_snake(pre: GameView, post: GameView)
    requires
        pre.wf(),
        post.snake == pre.snake,
        post.width == pre.width,
        post.height == pre.height,
        post.food_exists ==> post.in_interior(post.food_x as int, post.food_y as int),
    ensures
        post.wf(),
{
    assert forall|i: int| 0 <= i < post.snake.body.len() implies #[trigger] post.seg_ok(i) by {
        assert(pre.seg_ok(i));
    }
}

/// Bounds and self-distinctness are inductive: the central transition takes
/// any well-formed state to a well-formed state, whatever the intent. In
/// particular every segment and the food stay inside the playable interior,
/// and the segments stay pairwise distinct.
pub proof fn lemma_update_snake_preserves_wf(g: GameView, dir: Option<Direction>)
    requires
        g.wf(),
    ensures
        update_snake_spec(g, dir).wf(),
{
    if alive_spec(g, dir) {
        let s = g.snake;
        let nh = next_head_spec(s, dir);
        let s2 = crate::snake::move_spec(s, dir);
        let g2 = update_snake_spec(g, dir);
        assert(g.seg_ok(0));
        assert(1 <= nh.0 <= g.width - 2 && 1 <= nh.1 <= g.height - 2);
        assert(s2.body[0] == ((nh.0 as i32), (nh.1 as i32)));
        assert forall|i: int| 0 <= i < g2.snake.body.len() implies #[trigger] g2.seg_ok(i) by {
            assert(g2.snake.body == s2.body);
            if i == 0 {
                assert(s2.body[0] == ((nh.0 as i32), (nh.1 as i32)));
            } else {
                assert(s2.body[i] == s.body[i - 1]);
                assert(g.seg_ok(i - 1));
            }
        }
        assert forall|i: int, j: int| 0 <= i < j < s2.body.len() implies s2.body[i]
            != s2.body[j] by {
            if i == 0 {
                assert(s2.body[j] == s.body[j - 1]);
                assert(0 <= j - 1 < crate::snake::occupied_limit(s));
                if s2.body[i] == s2.body[j] {
                    assert(s.body[j - 1].0 as int == nh.0 && s.body[j - 1].1 as int == nh.1);
                    assert(overlap_spec(s, nh.0, nh.1));
                }
            } else {
                assert(s2.body[i] == s.body[i - 1] && s2.body[j] == s.body[j - 1]);
            }
        }
        assert forall|i: int, j: int| 0 <= i < j < g2.snake.body.len() implies g2.snake.body[i]
            != g2.snake.body[j] by {
            assert(g2.snake.body == s2.body);
        }
    } else {
        let g2 = update_snake_spec(g, dir);
        assert(g2.snake == g.snake);
        assert forall|i: int| 0 <= i < g2.snake.body.len() implies #[trigger] g2.seg_ok(i) by {
            assert(g.seg_ok(i));
        }
    }
}

/// Bounds law, spelled out: in every well-formed state each segment lies
/// inside the playable interior, and so does the food while it exists.
pub proof fn lemma_wf_bounds(g: GameView)
    requires
        g.wf(),
    ensures
        forall|i: int|
            0 <= i < g.snake.body.len() ==> {
                let c = #[trigger] g.snake.body[i];
                1 <= c.0 <= g.width - 2 && 1 <= c.1 <= g.height - 2
            },
        g.food_exists ==> 1 <= g.food_x <= g.width - 2 && 1 <= g.food_y <= g.height - 2,
{
    assert forall|i: int| 0 <= i < g.snake.body.len() implies {
        let c = #[trigger] g.snake.body[i];
        1 <= c.0 <= g.width - 2 && 1 <= c.1 <= g.height - 2
    } by {
        assert(g.seg_ok(i));
    }
}

/// Self-distinctness law, spelled out: in every well-formed state no two
/// segments occupy the same cell.
pub proof fn lemma_wf_distinct(g: GameView)
    requires
        g.wf(),
    ensures
        forall|i: int, j: int|
            0 <= i < j < g.snake.body.len() ==> g.snake.body[i] != g.snake.body[j],
{
}

/// Growth law: when the head lands exactly on the food cell, that step
/// consumes the food without changing the length, and the next committed
/// step grows the snake by exactly one; no food reappears on its own.
pub proof fn lemma_food_growth(g: GameView, d1: Option<Direction>, d2: Option<Direction>)
    requires
        g.wf(),
        g.food_exists,
        !g.snake.grow_pending,
        alive_spec(g, d1),
        next_head_spec(g.snake, d1) == (g.food_x as int, g.food_y as int),
        alive_spec(update_snake_spec(g, d1), d2),
    ensures
        !update_snake_spec(g, d1).food_exists,
        update_snake_spec(g, d1).snake.grow_pending,
        update_snake_spec(g, d1).snake.body.len() == g.snake.body.len(),
        update_snake_spec(update_snake_spec(g, d1), d2).snake.body.len() == g.snake.body.len()
            + 1,
        !update_snake_spec(update_snake_spec(g, d1), d2).food_exists,
{
    let s2 = crate::snake::move_spec(g.snake, d1);
    let nh = next_head_spec(g.snake, d1);
    assert(s2.body[0] == ((nh.0 as i32), (nh.1 as i32)));
    assert(s2.body[0].0 == g.food_x && s2.body[0].1 == g.food_y);
    assert(s2.body.len() == g.snake.body.len());
}

/// Reversal law: pressing the exact reverse of the current heading changes
/// nothing — neither the heading nor any segment nor any other field.
pub proof fn lemma_reversal_rejected(g: GameView)
    ensures
        key_pressed_spec(g, Some(g.snake.direction.opposite_spec())) == g,
{
}

/// Death law: a step into a kept body cell or onto or beyond the border only
/// sets the game-over flag; the snake keeps its heading, segments and growth
/// flag, the food stays as it was, and the waiting time restarts.
pub proof fn lemma_death_keeps_snake(g: GameView, dir: Option<Direction>)
    requires
        !alive_spec(g, dir),
    ensures
        update_snake_spec(g, dir).game_over,
        update_snake_spec(g, dir).snake == g.snake,
        update_snake_spec(g, dir).food_exists == g.food_exists,
        update_snake_spec(g, dir).food_x == g.food_x,
        update_snake_spec(g, dir).food_y == g.food_y,
        update_snake_spec(g, dir).waiting_time == 0,
{
}

/// Restart law: a restart yields exactly the fixed start state on the same
/// board — the two-segment snake heading Right with its head at the start
/// cell, food back at the start food cell, the game not over, the timer at
/// zero.
pub proof fn lemma_restart_resets(g: GameView)
    ensures
        restart_spec(g).snake == initial_snake_at(START_X, START_Y),
        restart_spec(g).snake.body.len() == 2,
        restart_spec(g).snake.body[0] == (START_X, START_Y),
        restart_spec(g).snake.body[1] == (1i32, START_Y),
        restart_spec(g).snake.direction == Direction::Right,
        !restart_spec(g).snake.grow_pending,
        restart_spec(g).food_exists,
        restart_spec(g).food_x == FOOD_START_X && restart_spec(g).food_y == FOOD_START_Y,
        !restart_spec(g).game_over,
        restart_spec(g).waiting_time == 0,
        restart_spec(g).width == g.width && restart_spec(g).height == g.height,
{
}

/// The game state: a snake on a bordered board, the current food, the
/// game-over flag and the waiting-time accumulator (whole milliseconds).
pub struct Game {
    snake: Snake,
    food_exists: bool,
    food_x: i32,
    food_y: i32,
    gameboard_width: i32,
    gameboard_height: i32,
    game_over: bool,
    waiting_time: u64,
}

impl View for Game {
    type V = GameView;

    closed spec fn view(&self) -> GameView {
        GameView {
            snake: self.snake@,
            food_exists: self.food_exists,
            food_x: self.food_x,
            food_y: self.food_y,
            width: self.gameboard_width,
            height: self.gameboard_height,
            game_over: self.game_over,
            waiting_time: self.waiting_time,
        }
    }
}

impl Game {
    /// A new game on a `width` by `height` board. The board must leave the
    /// fixed start layout (snake head at (2, 2), food at (6, 4)) inside the
    /// playable interior.
    pub fn new(width: i32, height: i32) -> (g: Game)
        requires
            width >= 8,
            height >= 6,
        ensures
            g@ == initial_game_spec(width, height),
            g@.wf(),
    {
        let g = Game {
            snake: Snake::new(START_X, START_Y),
            waiting_time: 0,
            food_exists: true,
            food_x: FOOD_START_X,
            food_y: FOOD_START_Y,
            gameboard_width: width,
            gameboard_height: height,
            game_over: false,
        };
        proof {
            assert(g@ =~= initial_game_spec(width, height));
            lemma_initial_wf(width, height);
        }
        g
    }

    /// Resets snake, food, flags and timer in place; the board keeps its
    /// size.
    pub fn restart(&mut self)
        requires
            old(self)@.width >= 8,
            old(self)@.height >= 6,
        ensures
            final(self)@ == restart_spec(old(self)@),
            final(self)@.wf(),
    {
        self.snake = Snake::new(START_X, START_Y);
        self.waiting_time = 0;
        self.food_exists = true;
        self.food_x = FOOD_START_X;
        self.food_y = FOOD_START_Y;
        self.game_over = false;
        proof {
            assert(self@ =~= restart_spec(old(self)@));
            lemma_initial_wf(old(self)@.width, old(self)@.height);
        }
    }

    /// Whether the game is over.
    pub fn game_over(&self) -> (r: bool)
        ensures
            r == self@.game_over,
    {
        self.game_over
    }

    /// Whether a food item is currently placed.
    pub fn food_exists(&self) -> (r: bool)
        ensures
            r == self@.food_exists,
    {
        self.food_exists
    }

    /// The cell of the current food; meaningful only while food exists.
    pub fn food_position(&self) -> (p: (i32, i32))
        ensures
            p == (self@.food_x, self@.food_y),
    {
        (self.food_x, self.food_y)
    }

    /// Milliseconds accumulated since the last step, or since the game
    /// ended.
    pub fn waiting_time(&self) -> (w: u64)
        ensures
            w == self@.waiting_time,
    {
        self.waiting_time
    }

    /// The board width set at construction.
    pub fn width(&self) -> (w: i32)
        ensures
            w == self@.width,
    {
        self.gameboard_width
    }

    /// The board height set at construction.
    pub fn height(&self) -> (h: i32)
        ensures
            h == self@.height,
    {
        self.gameboard_height
    }

    /// The snake, for read-only queries.
    pub fn snake(&self) -> (s: &Snake)
        ensures
            s@ == self@.snake,
    {
        &self.snake
    }

    /// Whether a step with intent `dir` would keep the snake alive: neither
    /// onto its own body (tail-exclusion rule) nor onto or beyond the
    /// border.
    pub fn is_snake_alive(&self, dir: Option<Direction>) -> (r: bool)
        requires
            self@.wf(),
        ensures
            r == alive_spec(self@, dir),
    {
        proof {
            assert(self@.seg_ok(0));
        }
        let (next_x, next_y) = self.snake.next_head(dir);
        if self.snake.overlap_tail(next_x, next_y) {
            return false;
        }
        next_x > 0 && next_y > 0 && next_x < self.gameboard_width - 1 && next_y
            < self.gameboard_height - 1
    }

    /// Consumes the food if the head sits exactly on it: the food disappears
    /// and the snake is marked to grow on its next step.
    pub fn eating_food(&mut self)
        requires
            old(self)@.snake.wf(),
        ensures
            final(self)@ == eat_spec(old(self)@),
    {
        let (head_x, head_y) = self.snake.head_position();
        if self.food_exists {
            if self.food_x == head_x && self.food_y == head_y {
                self.food_exists = false;
                self.snake.add_block_tail();
            }
        }
        proof {
            assert(self@ =~= eat_spec(old(self)@));
        }
    }

    /// Places a new food item on a sampled interior cell that does not
    /// overlap the snake body, leaving everything else unchanged. When the
    /// board holds no acceptable cell, no food is placed: a bounded strategy
    /// in place of an unbounded retry.
    pub fn add_food(&mut self)
        requires
            old(self)@.wf(),
        ensures
            final(self)@.wf(),
            add_food_rel(old(self)@, final(self)@),
    {
        match pick_food_cell(&self.snake, self.gameboard_width, self.gameboard_height) {
            Some(p) => {
                self.food_x = p.0;
                self.food_y = p.1;
                self.food_exists = true;
                proof {
                    assert(food_ok(old(self)@, self@.food_x as int, self@.food_y as int));
                }
            },
            None => {
                self.food_exists = false;
                proof {
                    assert(!has_free_cell(old(self)@)) by {
                        if has_free_cell(old(self)@) {
                            let (x, y) = choose|x: int, y: int| food_ok(old(self)@, x, y);
                            assert(overlap_spec(old(self)@.snake, x, y));
                        }
                    }
                }
            },
        }
        proof {
            lemma_wf_same_snake(old(self)@, self@);
        }
    }

    /// The central mutator: commits an alive step and runs food consumption,
    /// or sets the game-over flag on a lethal one, leaving the snake
    /// unchanged. The waiting time restarts at zero either way.
    pub fn update_snake(&mut self, dir: Option<Direction>)
        requires
            old(self)@.wf(),
        ensures
            final(self)@ == update_snake_spec(old(self)@, dir),
            final(self)@.wf(),
    {
        if self.is_snake_alive(dir) {
            proof {
                assert(self@.seg_ok(0));
            }
            self.snake.move_forward(dir);
            self.eating_food();
        } else {
            self.game_over = true;
        }
        self.waiting_time = 0;
        proof {
            assert(self@ =~= update_snake_spec(old(self)@, dir));
            lemma_update_snake_preserves_wf(old(self)@, dir);
        }
    }

    /// One time tick: accumulates `delta_ms` milliseconds of waiting time,
    /// runs the restart countdown while the game is over, and otherwise
    /// spawns missing food and steps the snake once its movement period has
    /// elapsed.
    pub fn update(&mut self, delta_ms: u64)
        requires
            old(self)@.wf(),
        ensures
            final(self)@.wf(),
            update_rel(old(self)@, final(self)@, delta_ms),
    {
        proof {
            let pre = old(self)@;
            let g1 = GameView { waiting_time: accumulate(pre.waiting_time, delta_ms), ..pre };
            lemma_wf_same_snake(pre, g1);
        }
        self.waiting_time = if delta_ms > u64::MAX - self.waiting_time {
            u64::MAX
        } else {
            self.waiting_time + delta_ms
        };
        let ghost g1 = self@;
        proof {
            assert(g1 =~= (GameView {
                waiting_time: accumulate(old(self)@.waiting_time, delta_ms),
                ..old(self)@
            }));
        }
        if self.game_over {
            if self.waiting_time > RESTART_TIME_MS {
                self.restart();
                proof {
                    assert(self@ =~= restart_spec(old(self)@));
                }
            }
            return ;
        }
        if !self.food_exists {
            self.add_food();
            proof {
                lemma_free_cell_same(old(self)@, g1);
            }
        }
        let ghost g2 = self@;
        if self.waiting_time > MOVING_PERIOD_MS {
            self.update_snake(None);
        }
        proof {
            let pre = old(self)@;
            if pre.food_exists {
                assert(g2 == g1);
            } else if has_free_cell(pre) {
                let fx = g2.food_x as int;
                let fy = g2.food_y as int;
                assert(food_ok(g1, fx, fy));
                assert(food_ok(pre, fx, fy));
                assert(g2 =~= (GameView {
                    food_exists: true,
                    food_x: fx as i32,
                    food_y: fy as i32,
                    ..g1
                }));
                assert(self@ == step_after_spawn(g1, fx, fy));
            } else {
                assert(g2 =~= g1);
            }
        }
    }

    /// Handles a directional key press; `None` stands for a key with no
    /// directional meaning. Ignored while the game is over; a press of the
    /// exact reverse of the current heading is ignored too, since it would
    /// be an instant self-collision.
    pub fn key_pressed(&mut self, dir: Option<Direction>)
        requires
            old(self)@.wf(),
        ensures
            final(self)@ == key_pressed_spec(old(self)@, dir),
            final(self)@.wf(),
    {
        if self.game_over {
            return ;
        }
        let d = match dir {
            Some(d) => d,
            None => {
                return ;
            },
        };
        if d == self.snake.head_direction().opposite() {
            return ;
        }
        self.update_snake(Some(d));
    }
}

} // verus!
