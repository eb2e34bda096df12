use vstd::prelude::*;

use crate::utils::rand_range;

verus! {

/// A cell of the board, in grid units.
#[derive(Clone, Copy, Debug, PartialEq, Eq, Hash, Structural)]
pub struct Point {
    pub x: i32,
    pub y: i32,
}

impl Point {
    pub fn new(x: i32, y: i32) -> (r: Point)
        ensures
            r.x == x,
            r.y == y,
    {
        Point { x, y }
    }

    pub fn x(&self) -> (r: i32)
        ensures
            r == self.x,
    {
        self.x
    }

    pub fn y(&self) -> (r: i32)
        ensures
            r == self.y,
    {
        self.y
    }
}

/// The way the snake's head moves on the next tick.
#[derive(Clone, Copy, Debug, PartialEq, Eq, Hash, Structural)]
pub enum Direction {
    Up,
    Down,
    Left,
    Right,
}

impl Direction {
    pub open spec fn spec_opposite(self) -> Direction {
        match self {
            Direction::Up => Direction::Down,
            Direction::Down => Direction::Up,
            Direction::Left => Direction::Right,
            Direction::Right => Direction::Left,
        }
    }

    /// Up and Down, Left and Right are each other's opposite.
    #[verifier::when_used_as_spec(spec_opposite)]
    pub fn opposite(self) -> (r: Direction)
        ensures
            r == self.spec_opposite(),
    {
        match self {
            Direction::Up => Direction::Down,
            Direction::Down => Direction::Up,
            Direction::Left => Direction::Right,
            Direction::Right => Direction::Left,
        }
    }
}


/// Why a turn was refused.
#[derive(Clone, Copy, Debug, PartialEq, Eq, Structural)]
pub enum RejectedReason {
    /// A snake longer than one cell cannot turn back onto its own neck.
    ReverseIntoSelf,
}

/// Why a move ended the round.
#[derive(Clone, Copy, Debug, PartialEq, Eq, Structural)]
pub enum MoveError {
    /// The head would leave the board.
    OutOfBounds,
    /// The head would land on the snake's own body.
    SelfCollision,
}

/// What a move that did not end the round did.
#[derive(Clone, Copy, Debug, PartialEq, Eq, Structural)]
pub enum Moved {
    /// A scheduled move right after a turn: the turn already moved the snake.
    Skipped,
    /// The head advanced one cell.
    Stepped,
    /// The head advanced onto the food and the tail stayed.
    Ate,
}

/// Whether `p` lies on a board of `cols` by `rows` cells.
pub open spec fn on_board(p: Point, cols: int, rows: int) -> bool {
    0 <= p.x < cols && 0 <= p.y < rows
}

/// The facing with the most room in front of it, given the free cells towards
/// each wall; ties go to Left, then Right, then Up, then Down.
pub open spec fn roomiest(left: int, right: int, up: int, down: int) -> Direction {
    if left >= right && left >= up && left >= down {
        Direction::Left
    } else if right >= up && right >= down {
        Direction::Right
    } else if up >= down {
        Direction::Up
    } else {
        Direction::Down
    }
}

/// A snake as a value.
pub struct SnakeModel {
    /// The cells, head first, tail last.
    pub body: Seq<Point>,
    /// Where the head goes on the next move.
    pub facing: Direction,
    /// The next move keeps the tail.
    pub growing: bool,
    /// A turn was taken that the next scheduled move must not repeat.
    pub turned: bool,
    pub cols: int,
    pub rows: int,
}

/// A one-cell snake on `seed`, facing the way with the most room.
pub open spec fn fresh(seed: Point, cols: int, rows: int) -> SnakeModel {
    SnakeModel {
        body: seq![seed],
        facing: roomiest(seed.x as int, cols - 1 - seed.x, seed.y as int, rows - 1 - seed.y),
        growing: false,
        turned: false,
        cols,
        rows,
    }
}

impl SnakeModel {
    /// A board that fits `i32`, and a body of one cell or more, on the board,
    /// no cell twice.
    pub open spec fn wf(self) -> bool {
        &&& 0 < self.cols <= i32::MAX
        &&& 0 < self.rows <= i32::MAX
        &&& self.body.len() >= 1
        &&& forall|i: int| 0 <= i < self.body.len() ==> on_board(#[trigger] self.body[i], self.cols, self.rows)
        &&& self.body.no_duplicates()
    }

    pub open spec fn head(self) -> Point {
        self.body[0]
    }

    pub open spec fn ahead_x(self) -> int {
        match self.facing {
            Direction::Left => self.head().x - 1,
            Direction::Right => self.head().x + 1,
            _ => self.head().x as int,
        }
    }

    pub open spec fn ahead_y(self) -> int {
        match self.facing {
            Direction::Up => self.head().y - 1,
            Direction::Down => self.head().y + 1,
            _ => self.head().y as int,
        }
    }

    /// The cell in front of the head is on the board.
    pub open spec fn ahead_on_board(self) -> bool {
        0 <= self.ahead_x() < self.cols && 0 <= self.ahead_y() < self.rows
    }

    /// The cell in front of the head (meaningful where it is on the board).
    pub open spec fn ahead(self) -> Point {
        Point { x: self.ahead_x() as i32, y: self.ahead_y() as i32 }
    }

    /// A scheduled move right after a turn moves nothing.
    pub open spec fn skips(self, is_direction: bool) -> bool {
        self.turned && !is_direction
    }

    /// The move keeps the tail: growth was asked for, or the head reaches food.
    pub open spec fn keeps_tail(self, food: Point) -> bool {
        self.growing || self.ahead() == food
    }

    /// The cells that stay after the move, besides the new head.
    pub open spec fn kept(self, food: Point) -> Seq<Point> {
        if self.keeps_tail(food) {
            self.body
        } else {
            self.body.drop_last()
        }
    }

    pub open spec fn move_result(self, is_direction: bool, food: Point) -> Result<Moved, MoveError> {
        if self.skips(is_direction) {
            Ok(Moved::Skipped)
        } else if !self.ahead_on_board() {
            Err(MoveError::OutOfBounds)
        } else if self.kept(food).contains(self.ahead()) {
            Err(MoveError::SelfCollision)
        } else if self.ahead() == food {
            Ok(Moved::Ate)
        } else {
            Ok(Moved::Stepped)
        }
    }

    pub open spec fn after_move(self, is_direction: bool, food: Point) -> SnakeModel {
        if self.skips(is_direction) {
            SnakeModel { turned: false, ..self }
        } else if self.move_result(is_direction, food) is Err {
            self
        } else {
            SnakeModel { body: seq![self.ahead()] + self.kept(food), growing: false, ..self }
        }
    }

    pub open spec fn turn_result(self, d: Direction) -> Result<(), RejectedReason> {
        if d == self.facing.opposite() && self.body.len() > 1 {
            Err(RejectedReason::ReverseIntoSelf)
        } else {
            Ok(())
        }
    }

    pub open spec fn after_turn(self, d: Direction) -> SnakeModel {
        if self.turn_result(d) is Err {
            self
        } else {
            SnakeModel { facing: d, turned: self.turned || d != self.facing, ..self }
        }
    }
}

impl SnakeModel {
    /// A move keeps the snake well formed: on the board, and no cell twice.
    pub proof fn lemma_after_move_wf(self, is_direction: bool, food: Point)
        requires
            self.wf(),
        ensures
            self.after_move(is_direction, food).wf(),
            self.after_move(is_direction, food).body.no_duplicates(),
    {
        if !self.skips(is_direction) && self.move_result(is_direction, food) is Ok {
            let c = self.ahead();
            let kept = self.kept(food);
            let b = seq![c] + kept;
            assert(kept =~= self.body.subrange(0, kept.len() as int));
            assert forall|j: int| 0 <= j < b.len() implies on_board(#[trigger] b[j], self.cols, self.rows) by {
                if j > 0 {
                    assert(b[j] == self.body[j - 1]);
                }
            }
            assert forall|j: int, k: int| 0 <= j < b.len() && 0 <= k < b.len() && j != k implies b[j] != b[k] by {
                if j == 0 {
                    assert(b[k] == kept[k - 1]);
                } else if k == 0 {
                    assert(b[j] == kept[j - 1]);
                } else {
                    assert(b[j] == self.body[j - 1]);
                    assert(b[k] == self.body[k - 1]);
                }
            }
        }
    }

    /// A move that neither eats nor follows a request to grow keeps the
    /// snake's length; one that eats, or follows such a request, adds exactly
    /// one cell; one that ends the round or is skipped leaves the body as it was.
    pub proof fn lemma_move_length(self, is_direction: bool, food: Point)
        requires
            self.wf(),
        ensures
            self.move_result(is_direction, food) == Ok::<Moved, MoveError>(Moved::Stepped) && !self.growing
                ==> self.after_move(is_direction, food).body.len() == self.body.len(),
            self.move_result(is_direction, food) == Ok::<Moved, MoveError>(Moved::Stepped) && self.growing
                ==> self.after_move(is_direction, food).body.len() == self.body.len() + 1,
            self.move_result(is_direction, food) == Ok::<Moved, MoveError>(Moved::Ate)
                ==> self.after_move(is_direction, food).body.len() == self.body.len() + 1,
            self.move_result(is_direction, food) is Err || self.move_result(is_direction, food) == Ok::<Moved, MoveError>(Moved::Skipped)
                ==> self.after_move(is_direction, food).body == self.body,
            !self.growing ==> !self.after_move(is_direction, food).growing,
    {
    }

    /// A turn keeps the snake well formed.
    pub proof fn lemma_after_turn_wf(self, d: Direction)
        requires
            self.wf(),
        ensures
            self.after_turn(d).wf(),
            self.after_turn(d).body.no_duplicates(),
    {
    }

    /// A snake longer than one cell cannot turn to the opposite of its facing,
    /// and keeps its facing; a one-cell snake can.
    pub proof fn lemma_reverse(self)
        requires
            self.wf(),
        ensures
            self.body.len() > 1 ==> self.turn_result(self.facing.opposite()) == Err::<(), RejectedReason>(RejectedReason::ReverseIntoSelf),
            self.body.len() > 1 ==> self.after_turn(self.facing.opposite()).facing == self.facing,
            self.body.len() == 1 ==> self.turn_result(self.facing.opposite()) is Ok,
            self.body.len() == 1 ==> self.after_turn(self.facing.opposite()).facing == self.facing.opposite(),
    {
    }
}

/// The snake after a run of moves, one for each flag in `flags`, each
/// key-driven or scheduled as its flag says, with food lying on `food`.
pub open spec fn moves(m: SnakeModel, food: Point, flags: Seq<bool>) -> SnakeModel
    decreases flags.len(),
{
    if flags.len() == 0 {
        m
    } else {
        moves(m, food, flags.drop_last()).after_move(flags.last(), food)
    }
}

/// Over any run of moves none of which eats, a snake that was not asked to
/// grow keeps its length.
pub proof fn lemma_length_kept(m: SnakeModel, food: Point, flags: Seq<bool>)
    requires
        m.wf(),
        !m.growing,
        forall|i: int| 0 <= i < flags.len()
            ==> #[trigger] moves(m, food, flags.subrange(0, i)).move_result(flags[i], food) != Ok::<Moved, MoveError>(Moved::Ate),
    ensures
        moves(m, food, flags).wf(),
        !moves(m, food, flags).growing,
        moves(m, food, flags).body.len() == m.body.len(),
    decreases flags.len(),
{
    if flags.len() > 0 {
        let n = flags.len() - 1;
        let front = flags.drop_last();
        assert forall|i: int| 0 <= i < front.len()
            implies #[trigger] moves(m, food, front.subrange(0, i)).move_result(front[i], food) != Ok::<Moved, MoveError>(Moved::Ate) by {
            assert(front.subrange(0, i) =~= flags.subrange(0, i));
            assert(moves(m, food, flags.subrange(0, i)).move_result(flags[i], food) != Ok::<Moved, MoveError>(Moved::Ate));
        }
        lemma_length_kept(m, food, front);
        let prev = moves(m, food, front);
        assert(flags.subrange(0, n) =~= front);
        assert(moves(m, food, flags.subrange(0, n)).move_result(flags[n], food) != Ok::<Moved, MoveError>(Moved::Ate));
        prev.lemma_after_move_wf(flags.last(), food);
        prev.lemma_move_length(flags.last(), food);
    }
}

/// The snake on its board.
pub struct Snake {
    body: Vec<Point>,
    direction: Direction,
    growing: bool,
    is_change: bool,
    cols: i32,
    rows: i32,
}

impl View for Snake {
    type V = SnakeModel;

    closed spec fn view(&self) -> SnakeModel {
        SnakeModel {
            body: self.body@,
            facing: self.direction,
            growing: self.growing,
            turned: self.is_change,
            cols: self.cols as int,
            rows: self.rows as int,
        }
    }
}

fn roomiest_way(left: i32, right: i32, up: i32, down: i32) -> (r: Direction)
    ensures
        r == roomiest(left as int, right as int, up as int, down as int),
{
    if left >= right && left >= up && left >= down {
        Direction::Left
    } else if right >= up && right >= down {
        Direction::Right
    } else if up >= down {
        Direction::Up
    } else {
        Direction::Down
    }
}

impl Snake {
    pub open spec fn wf(&self) -> bool {
        self@.wf()
    }

    /// A one-cell snake on `(x, y)` of a `cols` by `rows` board.
    pub fn new(x: i32, y: i32, cols: i32, rows: i32) -> (r: Snake)
        requires
            0 <= x < cols,
            0 <= y < rows,
        ensures
            r.wf(),
            r@ == fresh(Point { x, y }, cols as int, rows as int),
    {
        let direction = roomiest_way(x, cols - 1 - x, y, rows - 1 - y);
        let r = Snake { body: vec![Point { x, y }], direction, growing: false, is_change: false, cols, rows };
        assert(r@.body =~= seq![Point { x, y }]);
        r
    }

    /// Starts over as a one-cell snake on `seed`.
    pub fn reset(&mut self, seed: Point)
        requires
            old(self).wf(),
            on_board(seed, old(self)@.cols, old(self)@.rows),
        ensures
            final(self).wf(),
            final(self)@ == fresh(seed, old(self)@.cols, old(self)@.rows),
    {
        *self = Snake::new(seed.x, seed.y, self.cols, self.rows);
    }

    /// Starts over as a one-cell snake on a cell drawn at random.
    pub fn clear(&mut self)
        requires
            old(self).wf(),
        ensures
            final(self).wf(),
            on_board(final(self)@.head(), old(self)@.cols, old(self)@.rows),
            final(self)@ == fresh(final(self)@.head(), old(self)@.cols, old(self)@.rows),
    {
        let x = rand_range(0, self.cols as usize) as i32;
        let y = rand_range(0, self.rows as usize) as i32;
        self.reset(Point { x, y });
    }

    pub fn len(&self) -> (r: usize)
        ensures
            r == self@.body.len(),
    {
        self.body.len()
    }

    /// The cells, head first.
    pub fn get_occupied_points(&self) -> (r: &Vec<Point>)
        ensures
            r@ == self@.body,
    {
        &self.body
    }

    pub fn direction(&self) -> (r: Direction)
        ensures
            r == self@.facing,
    {
        self.direction
    }

    pub fn cols(&self) -> (r: i32)
        ensures
            r == self@.cols,
    {
        self.cols
    }

    pub fn rows(&self) -> (r: i32)
        ensures
            r == self@.rows,
    {
        self.rows
    }

    /// Turns the snake, unless it would turn back onto its neck.
    pub fn set_direction(&mut self, direction: Direction) -> (r: Result<(), RejectedReason>)
        requires
            old(self).wf(),
        ensures
            final(self).wf(),
            r == old(self)@.turn_result(direction),
            final(self)@ == old(self)@.after_turn(direction),
    {
        if direction == self.direction.opposite() && self.body.len() > 1 {
            return Err(RejectedReason::ReverseIntoSelf);
        }
        if direction != self.direction {
            self.is_change = true;
        }
        self.direction = direction;
        Ok(())
    }

    /// Asks for one more cell: the next move keeps the tail.
    pub fn add_body(&mut self)
        requires
            old(self).wf(),
        ensures
            final(self).wf(),
            final(self)@ == (SnakeModel { growing: true, ..old(self)@ }),
    {
        self.growing = true;
    }

    /// Moves the head one cell the way the snake faces, onto `food` or not.
    ///
    /// A scheduled move (`is_direction` false) right after a turn moves nothing,
    /// as the turn's own move already did. A move off the board or onto the body
    /// leaves the snake as it was.
    pub fn move_direction(&mut self, is_direction: bool, food: Point) -> (r: Result<Moved, MoveError>)
        requires
            old(self).wf(),
        ensures
            final(self).wf(),
            r == old(self)@.move_result(is_direction, food),
            final(self)@ == old(self)@.after_move(is_direction, food),
    {
        if self.is_change && !is_direction {
            self.is_change = false;
            return Ok(Moved::Skipped);
        }
        let head = self.body[0];
        assert(on_board(self@.body[0], self@.cols, self@.rows));
        let (x, y) = match self.direction {
            Direction::Up => (head.x, head.y - 1),
            Direction::Down => (head.x, head.y + 1),
            Direction::Left => (head.x - 1, head.y),
            Direction::Right => (head.x + 1, head.y),
        };
        if x < 0 || x >= self.cols || y < 0 || y >= self.rows {
            return Err(MoveError::OutOfBounds);
        }
        let c = Point { x, y };
        assert(c == self@.ahead());
        let keep = self.growing || c == food;
        let n: usize = if keep { self.body.len() } else { self.body.len() - 1 };
        let ghost kept = self@.kept(food);
        assert(kept.len() == n);
        let mut i: usize = 0;
        while i < n
            invariant
                self@ == old(self)@,
                self.wf(),
                !self@.skips(is_direction),
                self@.ahead_on_board(),
                c == self@.ahead(),
                kept == self@.kept(food),
                n == kept.len(),
                kept.len() <= self.body@.len(),
                forall|j: int| 0 <= j < kept.len() ==> kept[j] == self.body@[j],
                i <= n,
                forall|j: int| 0 <= j < i ==> kept[j] != c,
            decreases n - i,
        {
            if self.body[i] == c {
                assert(kept[i as int] == c);
                return Err(MoveError::SelfCollision);
            }
            i += 1;
        }
        assert(!kept.contains(c));
        if !keep {
            self.body.pop();
        }
        assert(self.body@ =~= kept);
        self.body.insert(0, c);
        self.growing = false;
        proof {
            old(self)@.lemma_after_move_wf(is_direction, food);
            assert(self.body@ =~= seq![c] + kept);
        }
        if c == food {
            Ok(Moved::Ate)
        } else {
            Ok(Moved::Stepped)
        }
    }
}

} // verus!
