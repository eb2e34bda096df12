use vstd::prelude::*;

use crate::food::Food;
use crate::placement::{free_cells_of, lemma_free_cells, place_food};
use crate::snake::{fresh, on_board, Direction, MoveError, Moved, Point, RejectedReason, Snake, SnakeModel};

verus! {

/// The pause between ticks for a one-cell snake, in milliseconds.
pub const SLOWEST_DELAY_MS: u64 = 210;

/// The shortest pause between ticks, in milliseconds.
pub const FASTEST_DELAY_MS: u64 = 10;

/// How much shorter the pause gets for each cell of the snake, in milliseconds.
pub const SPEED_UP_MS: u64 = 5;

/// The pause between ticks for a snake of `len` cells: shorter for a longer
/// snake, never below the floor.
pub open spec fn delay_for(len: int) -> int {
    if SLOWEST_DELAY_MS - SPEED_UP_MS * len < FASTEST_DELAY_MS {
        FASTEST_DELAY_MS as int
    } else {
        SLOWEST_DELAY_MS - SPEED_UP_MS * len
    }
}

/// How long the caller waits between ticks for a snake of `len` cells.
pub fn tick_delay_ms(len: usize) -> (r: u64)
    ensures
        r == delay_for(len as int),
{
    if len as u64 >= (SLOWEST_DELAY_MS - FASTEST_DELAY_MS) / SPEED_UP_MS {
        FASTEST_DELAY_MS
    } else {
        SLOWEST_DELAY_MS - SPEED_UP_MS * (len as u64)
    }
}

/// Where a round stands.
#[derive(Clone, Copy, Debug, PartialEq, Eq, Structural)]
pub enum GameState {
    Idle,
    Running,
    Paused,
    GameOver,
    Win,
}

/// What one tick did.
#[derive(Clone, Copy, Debug, PartialEq, Eq, Structural)]
pub enum TickOutcome {
    Continued,
    Ate,
    GameOver,
    Won,
}

/// A game as a value.
pub struct GameModel {
    pub snake: SnakeModel,
    pub food: Food,
    pub state: GameState,
}

/// A round still in play.
pub open spec fn is_active(s: GameState) -> bool {
    s is Idle || s is Running || s is Paused
}

/// What a tick reports in a state in which nothing moves.
pub open spec fn resting_outcome(s: GameState) -> TickOutcome {
    match s {
        GameState::GameOver => TickOutcome::GameOver,
        GameState::Win => TickOutcome::Won,
        _ => TickOutcome::Continued,
    }
}

impl GameModel {
    /// A well-formed snake, and while the round is in play, food on a free
    /// cell of the board.
    pub open spec fn wf(self) -> bool {
        &&& self.snake.wf()
        &&& is_active(self.state) ==> {
            &&& on_board(self.food.cell(), self.snake.cols, self.snake.rows)
            &&& !self.snake.body.contains(self.food.cell())
        }
    }

    /// The cells that no part of the snake holds.
    pub open spec fn free(self) -> Seq<Point> {
        free_cells_of(self.snake.cols, self.snake.rows, self.snake.body)
    }

    /// `next` and `r` are what a tick from this game may give: the food that
    /// replaces eaten food is any free cell, as it is drawn at random.
    pub open spec fn ticks_to(self, is_direction: bool, r: TickOutcome, next: GameModel) -> bool {
        if !(self.state is Running) {
            next == self && r == resting_outcome(self.state)
        } else {
            let f = self.food.cell();
            let moved = self.snake.after_move(is_direction, f);
            &&& next.snake == moved
            &&& match self.snake.move_result(is_direction, f) {
                Err(_) => r == TickOutcome::GameOver && next.state == GameState::GameOver && next.food == self.food,
                Ok(Moved::Ate) => if free_cells_of(moved.cols, moved.rows, moved.body).len() == 0 {
                    r == TickOutcome::Won && next.state == GameState::Win && next.food == self.food
                } else {
                    &&& r == TickOutcome::Ate
                    &&& next.state == GameState::Running
                    &&& free_cells_of(moved.cols, moved.rows, moved.body).contains(next.food.cell())
                },
                Ok(_) => r == TickOutcome::Continued && next.state == GameState::Running && next.food == self.food,
            }
        }
    }
}

impl GameModel {
    /// Every tick of a well-formed game gives a well-formed game: in
    /// particular no cell is held twice by the snake.
    pub proof fn lemma_tick_wf(self, is_direction: bool, r: TickOutcome, next: GameModel)
        requires
            self.wf(),
            self.ticks_to(is_direction, r, next),
        ensures
            next.wf(),
            next.snake.body.no_duplicates(),
    {
        if self.state is Running {
            let m = self.snake;
            let f = self.food.cell();
            m.lemma_after_move_wf(is_direction, f);
            let moved = m.after_move(is_direction, f);
            lemma_free_cells(moved.cols, moved.rows, moved.body);
            if m.move_result(is_direction, f) is Ok && !m.skips(is_direction) && m.move_result(is_direction, f)
                != Ok::<Moved, MoveError>(Moved::Ate) {
                let b = moved.body;
                assert(m.kept(f) =~= m.body.subrange(0, m.kept(f).len() as int));
                if b.contains(f) {
                    let i = choose|i: int| 0 <= i < b.len() && b[i] == f;
                    assert(m.body[i - 1] == f);
                }
            }
        }
    }

    /// Food that was eaten, where the round goes on, is placed again on the
    /// board and off the snake.
    pub proof fn lemma_eaten_food_off_snake(self, is_direction: bool, r: TickOutcome, next: GameModel)
        requires
            self.wf(),
            self.ticks_to(is_direction, r, next),
            r == TickOutcome::Ate,
        ensures
            on_board(next.food.cell(), next.snake.cols, next.snake.rows),
            !next.snake.body.contains(next.food.cell()),
    {
        self.lemma_tick_wf(is_direction, r, next);
    }

    /// A running snake at the left edge of the board that faces Left ends the
    /// round on its next move.
    pub proof fn lemma_left_wall_ends_round(self, is_direction: bool, r: TickOutcome, next: GameModel)
        requires
            self.wf(),
            self.state is Running,
            self.snake.head().x == 0,
            self.snake.facing == Direction::Left,
            !self.snake.skips(is_direction),
            self.ticks_to(is_direction, r, next),
        ensures
            r == TickOutcome::GameOver,
            next.state == GameState::GameOver,
    {
    }

    /// Where the food lies on the one cell the snake does not hold, eating it
    /// wins the round.
    pub proof fn lemma_last_free_cell_wins(self, is_direction: bool, r: TickOutcome, next: GameModel)
        requires
            self.wf(),
            self.state is Running,
            forall|p: Point| on_board(p, self.snake.cols, self.snake.rows) && p != self.food.cell()
                ==> #[trigger] self.snake.body.contains(p),
            self.snake.ahead_on_board(),
            self.snake.ahead() == self.food.cell(),
            !self.snake.skips(is_direction),
            self.ticks_to(is_direction, r, next),
        ensures
            r == TickOutcome::Won,
            next.state == GameState::Win,
    {
        let m = self.snake;
        let f = self.food.cell();
        assert(m.kept(f) == m.body);
        assert(m.move_result(is_direction, f) == Ok::<Moved, MoveError>(Moved::Ate));
        let moved = m.after_move(is_direction, f);
        lemma_free_cells(moved.cols, moved.rows, moved.body);
        let free = free_cells_of(moved.cols, moved.rows, moved.body);
        assert(moved.body == seq![f] + m.body);
        if free.len() > 0 {
            let p = free[0];
            assert(free.contains(p));
            assert(on_board(p, m.cols, m.rows));
            if p == f {
                assert(moved.body[0] == p);
            } else {
                assert(self.snake.body.contains(p));
                let i = choose|i: int| 0 <= i < m.body.len() && m.body[i] == p;
                assert(moved.body[i + 1] == p);
            }
        }
    }
}

/// The game: the snake, the food, and the round's state.
pub struct GameLoop {
    snake: Snake,
    food: Food,
    state: GameState,
}

impl View for GameLoop {
    type V = GameModel;

    closed spec fn view(&self) -> GameModel {
        GameModel { snake: self.snake@, food: self.food, state: self.state }
    }
}

impl GameLoop {
    pub open spec fn wf(&self) -> bool {
        self@.wf()
    }

    /// An idle game of `snake` with food on `food`.
    pub fn from_parts(snake: Snake, food: Food) -> (r: GameLoop)
        requires
            snake.wf(),
            on_board(food.cell(), snake@.cols, snake@.rows),
            !snake@.body.contains(food.cell()),
        ensures
            r.wf(),
            r@ == (GameModel { snake: snake@, food, state: GameState::Idle }),
    {
        GameLoop { snake, food, state: GameState::Idle }
    }

    /// Puts food on a free cell drawn at random; where none is left the round
    /// is won.
    fn seed_food(&mut self)
        requires
            old(self).snake.wf(),
        ensures
            final(self).wf(),
            final(self)@.snake == old(self)@.snake,
            final(self)@.state == GameState::Win <==> old(self)@.free().len() == 0,
            final(self)@.state != GameState::Win ==> final(self)@.state == GameState::Idle,
    {
        proof {
            lemma_free_cells(self.snake@.cols, self.snake@.rows, self.snake@.body);
        }
        match place_food(self.snake.cols(), self.snake.rows(), self.snake.get_occupied_points()) {
            Some(f) => {
                self.food = f;
                self.state = GameState::Idle;
            },
            None => {
                self.state = GameState::Win;
            },
        }
    }

    /// A game on a `cols` by `rows` board: a one-cell snake on a cell drawn at
    /// random, and food on another; idle, or won at once where the board has
    /// no second cell.
    pub fn new(cols: i32, rows: i32) -> (r: GameLoop)
        requires
            cols > 0,
            rows > 0,
        ensures
            r.wf(),
            r@.snake == fresh(r@.snake.head(), cols as int, rows as int),
            on_board(r@.snake.head(), cols as int, rows as int),
            r@.state == GameState::Win <==> r@.free().len() == 0,
            r@.state != GameState::Win ==> r@.state == GameState::Idle,
    {
        let mut snake = Snake::new(0, 0, cols, rows);
        snake.clear();
        let mut g = GameLoop { snake, food: Food::new(0, 0), state: GameState::Idle };
        g.seed_food();
        g
    }

    /// Starts the round over: a fresh snake on a random cell and fresh food.
    pub fn restart(&mut self)
        requires
            old(self).wf(),
        ensures
            final(self).wf(),
            final(self)@.snake == fresh(final(self)@.snake.head(), old(self)@.snake.cols, old(self)@.snake.rows),
            on_board(final(self)@.snake.head(), old(self)@.snake.cols, old(self)@.snake.rows),
            final(self)@.state == GameState::Win <==> final(self)@.free().len() == 0,
            final(self)@.state != GameState::Win ==> final(self)@.state == GameState::Idle,
    {
        self.snake.clear();
        self.seed_food();
    }

    /// An idle round starts running; any other state stays.
    pub fn start(&mut self)
        requires
            old(self).wf(),
        ensures
            final(self).wf(),
            final(self)@ == (if old(self)@.state is Idle {
                GameModel { state: GameState::Running, ..old(self)@ }
            } else {
                old(self)@
            }),
    {
        if let GameState::Idle = self.state {
            self.state = GameState::Running;
        }
    }

    /// A running round pauses and a paused one runs again; any other state
    /// stays.
    pub fn toggle_pause(&mut self)
        requires
            old(self).wf(),
        ensures
            final(self).wf(),
            final(self)@ == (match old(self)@.state {
                GameState::Running => GameModel { state: GameState::Paused, ..old(self)@ },
                GameState::Paused => GameModel { state: GameState::Running, ..old(self)@ },
                _ => old(self)@,
            }),
    {
        match self.state {
            GameState::Running => self.state = GameState::Paused,
            GameState::Paused => self.state = GameState::Running,
            _ => {},
        }
    }

    /// Turns the snake of a running round; outside a running round the request
    /// is ignored.
    pub fn request_direction(&mut self, direction: Direction) -> (r: Result<(), RejectedReason>)
        requires
            old(self).wf(),
        ensures
            final(self).wf(),
            old(self)@.state is Running ==> {
                &&& r == old(self)@.snake.turn_result(direction)
                &&& final(self)@ == (GameModel { snake: old(self)@.snake.after_turn(direction), ..old(self)@ })
            },
            !(old(self)@.state is Running) ==> r is Ok && final(self)@ == old(self)@,
    {
        if let GameState::Running = self.state {
            self.snake.set_direction(direction)
        } else {
            Ok(())
        }
    }

    /// Advances a running round by one move of the snake.
    ///
    /// `is_direction_change` tells a move that follows a turn at once from a
    /// scheduled one. The round ends on a move off the board or onto the body;
    /// eaten food is placed again on a random free cell, and where none is left
    /// the round is won. Outside a running round nothing changes.
    pub fn tick(&mut self, is_direction_change: bool) -> (r: TickOutcome)
        requires
            old(self).wf(),
        ensures
            final(self).wf(),
            old(self)@.ticks_to(is_direction_change, r, final(self)@),
            r == TickOutcome::Ate ==> !final(self)@.snake.body.contains(final(self)@.food.cell()),
    {
        match self.state {
            GameState::Running => {},
            GameState::GameOver => return TickOutcome::GameOver,
            GameState::Win => return TickOutcome::Won,
            _ => return TickOutcome::Continued,
        }
        let f = Point::new(self.food.x, self.food.y);
        assert(f == self.food.cell());
        let moved = self.snake.move_direction(is_direction_change, f);
        let r = match moved {
            Err(_) => {
                self.state = GameState::GameOver;
                TickOutcome::GameOver
            },
            Ok(Moved::Ate) => {
                proof {
                    lemma_free_cells(self.snake@.cols, self.snake@.rows, self.snake@.body);
                }
                match place_food(self.snake.cols(), self.snake.rows(), self.snake.get_occupied_points()) {
                    Some(food) => {
                        self.food = food;
                        TickOutcome::Ate
                    },
                    None => {
                        self.state = GameState::Win;
                        TickOutcome::Won
                    },
                }
            },
            Ok(_) => TickOutcome::Continued,
        };
        proof {
            old(self)@.lemma_tick_wf(is_direction_change, r, self@);
        }
        r
    }

    pub fn snake(&self) -> (r: &Snake)
        ensures
            r@ == self@.snake,
    {
        &self.snake
    }

    /// The snake's cells, head first.
    pub fn occupied_cells(&self) -> (r: &Vec<Point>)
        ensures
            r@ == self@.snake.body,
    {
        self.snake.get_occupied_points()
    }

    pub fn food(&self) -> (r: Food)
        ensures
            r == self@.food,
    {
        self.food
    }

    pub fn state(&self) -> (r: GameState)
        ensures
            r == self@.state,
    {
        self.state
    }
}

} // verus!
