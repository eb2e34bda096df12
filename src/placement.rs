use vstd::prelude::*;

use vstd::arithmetic::div_mod::lemma_small_mod;

use crate::food::Food;
use crate::snake::{on_board, Point};
use crate::utils::rand_range;

verus! {

/// The free cells of column `x` among its first `n` rows, by increasing `y`.
pub open spec fn free_in_column(x: int, n: int, occupied: Seq<Point>) -> Seq<Point>
    decreases n,
{
    if n <= 0 {
        seq![]
    } else {
        let p = Point { x: x as i32, y: (n - 1) as i32 };
        let rest = free_in_column(x, n - 1, occupied);
        if occupied.contains(p) {
            rest
        } else {
            rest.push(p)
        }
    }
}

/// The free cells of the first `n` columns of a board with `rows` rows,
/// column by column.
pub open spec fn free_in_columns(n: int, rows: int, occupied: Seq<Point>) -> Seq<Point>
    decreases n,
{
    if n <= 0 {
        seq![]
    } else {
        free_in_columns(n - 1, rows, occupied) + free_in_column(n - 1, rows, occupied)
    }
}

/// The cells of a `cols` by `rows` board that `occupied` does not hold, in the
/// order in which they are listed: column by column, then by row.
pub open spec fn free_cells_of(cols: int, rows: int, occupied: Seq<Point>) -> Seq<Point> {
    free_in_columns(cols, rows, occupied)
}

proof fn lemma_free_in_column(x: int, n: int, occupied: Seq<Point>)
    requires
        0 <= x <= i32::MAX,
        n <= i32::MAX + 1,
    ensures
        forall|p: Point| #[trigger] free_in_column(x, n, occupied).contains(p)
            <==> (p.x == x && 0 <= p.y < n && !occupied.contains(p)),
        free_in_column(x, n, occupied).no_duplicates(),
    decreases n,
{
    if n > 0 {
        lemma_free_in_column(x, n - 1, occupied);
        let q = Point { x: x as i32, y: (n - 1) as i32 };
        let rest = free_in_column(x, n - 1, occupied);
        assert forall|p: Point| #[trigger] free_in_column(x, n, occupied).contains(p)
            <==> (p.x == x && 0 <= p.y < n && !occupied.contains(p)) by {
            if !occupied.contains(q) {
                assert(rest.push(q).contains(p) <==> (rest.contains(p) || p == q)) by {
                    if rest.push(q).contains(p) {
                        let i = choose|i: int| 0 <= i < rest.push(q).len() && rest.push(q)[i] == p;
                        if i < rest.len() {
                            assert(rest[i] == p);
                        }
                    }
                    if p == q {
                        assert(rest.push(q)[rest.len() as int] == q);
                    }
                    if rest.contains(p) {
                        let i = choose|i: int| 0 <= i < rest.len() && rest[i] == p;
                        assert(rest.push(q)[i] == p);
                    }
                }
            }
        }
        if !occupied.contains(q) {
            let s = rest.push(q);
            assert forall|i: int, j: int| 0 <= i < s.len() && 0 <= j < s.len() && i != j implies s[i] != s[j] by {
                if i == rest.len() {
                    assert(rest.contains(s[j]));
                } else if j == rest.len() {
                    assert(rest.contains(s[i]));
                }
            }
        }
    }
}

proof fn lemma_free_in_columns(n: int, rows: int, occupied: Seq<Point>)
    requires
        n <= i32::MAX + 1,
        rows <= i32::MAX,
    ensures
        forall|p: Point| #[trigger] free_in_columns(n, rows, occupied).contains(p)
            <==> (0 <= p.x < n && 0 <= p.y < rows && !occupied.contains(p)),
        free_in_columns(n, rows, occupied).no_duplicates(),
    decreases n,
{
    if n > 0 {
        lemma_free_in_columns(n - 1, rows, occupied);
        lemma_free_in_column(n - 1, rows, occupied);
        let a = free_in_columns(n - 1, rows, occupied);
        let b = free_in_column(n - 1, rows, occupied);
        let s = a + b;
        assert forall|p: Point| #[trigger] s.contains(p) <==> (a.contains(p) || b.contains(p)) by {
            if s.contains(p) {
                let i = choose|i: int| 0 <= i < s.len() && s[i] == p;
                if i < a.len() {
                    assert(a[i] == p);
                } else {
                    assert(b[i - a.len()] == p);
                }
            }
            if a.contains(p) {
                let i = choose|i: int| 0 <= i < a.len() && a[i] == p;
                assert(s[i] == p);
            }
            if b.contains(p) {
                let i = choose|i: int| 0 <= i < b.len() && b[i] == p;
                assert(s[i + a.len()] == p);
            }
        }
        assert forall|i: int, j: int| 0 <= i < s.len() && 0 <= j < s.len() && i != j implies s[i] != s[j] by {
            if i < a.len() && j >= a.len() {
                assert(a.contains(s[i]));
                assert(b.contains(s[j]));
            } else if j < a.len() && i >= a.len() {
                assert(a.contains(s[j]));
                assert(b.contains(s[i]));
            } else if i >= a.len() {
                assert(s[i] == b[i - a.len()]);
                assert(s[j] == b[j - a.len()]);
            }
        }
    }
}

/// The free cells of a board are exactly its cells outside `occupied`, each
/// listed once.
pub proof fn lemma_free_cells(cols: int, rows: int, occupied: Seq<Point>)
    requires
        cols <= i32::MAX,
        rows <= i32::MAX,
    ensures
        forall|p: Point| #[trigger] free_cells_of(cols, rows, occupied).contains(p)
            <==> (on_board(p, cols, rows) && !occupied.contains(p)),
        free_cells_of(cols, rows, occupied).no_duplicates(),
{
    lemma_free_in_columns(cols, rows, occupied);
}

/// Whether `cells` holds `p`.
pub fn holds(cells: &Vec<Point>, p: Point) -> (r: bool)
    ensures
        r == cells@.contains(p),
{
    let mut i: usize = 0;
    while i < cells.len()
        invariant
            i <= cells@.len(),
            forall|j: int| 0 <= j < i ==> cells@[j] != p,
        decreases cells@.len() - i,
    {
        if cells[i] == p {
            assert(cells@[i as int] == p);
            return true;
        }
        i += 1;
    }
    false
}

/// The cells of a `cols` by `rows` board that `occupied` does not hold.
pub fn free_cells(cols: i32, rows: i32, occupied: &Vec<Point>) -> (r: Vec<Point>)
    ensures
        r@ == free_cells_of(cols as int, rows as int, occupied@),
{
    let mut r: Vec<Point> = Vec::new();
    let mut x: i32 = 0;
    while x < cols
        invariant
            0 <= x,
            cols >= 0 ==> x <= cols,
            cols < 0 ==> x == 0,
            r@ == free_in_columns(x as int, rows as int, occupied@),
        decreases cols - x,
    {
        let ghost before = r@;
        let mut y: i32 = 0;
        while y < rows
            invariant
                0 <= x < cols,
                0 <= y,
                rows >= 0 ==> y <= rows,
                rows < 0 ==> y == 0,
                before == free_in_columns(x as int, rows as int, occupied@),
                r@ == before + free_in_column(x as int, y as int, occupied@),
            decreases rows - y,
        {
            let p = Point { x, y };
            if !holds(occupied, p) {
                r.push(p);
                assert(r@ =~= before + free_in_column(x as int, y + 1, occupied@));
            } else {
                assert(r@ =~= before + free_in_column(x as int, y + 1, occupied@));
            }
            y += 1;
        }
        proof {
            if rows < 0 {
                assert(free_in_column(x as int, y as int, occupied@) =~= seq![]);
                assert(free_in_column(x as int, rows as int, occupied@) =~= seq![]);
            } else {
                assert(y == rows);
            }
        }
        assert(r@ =~= free_in_columns(x + 1, rows as int, occupied@));
        x += 1;
    }
    proof {
        if cols < 0 {
            assert(free_in_columns(x as int, rows as int, occupied@) =~= seq![]);
            assert(free_in_columns(cols as int, rows as int, occupied@) =~= seq![]);
        } else {
            assert(x == cols);
        }
    }
    r
}

/// Food on the free cell that `pick` selects: the one at `pick` modulo their
/// number; none where no cell is free.
pub fn pick_food(free: &Vec<Point>, pick: usize) -> (r: Option<Food>)
    ensures
        free@.len() == 0 ==> r is None,
        free@.len() > 0 ==> r == Some(Food::from_cell(free@[pick as int % free@.len() as int])),
{
    if free.len() == 0 {
        return None;
    }
    let p = free[pick % free.len()];
    Some(Food::new(p.x, p.y))
}

/// Food on a free cell of a `cols` by `rows` board drawn at random, each free
/// cell as likely as any other; none where every cell is occupied.
pub fn place_food(cols: i32, rows: i32, occupied: &Vec<Point>) -> (r: Option<Food>)
    ensures
        r is None <==> free_cells_of(cols as int, rows as int, occupied@).len() == 0,
        r is Some ==> free_cells_of(cols as int, rows as int, occupied@).contains(r->0.cell()),
{
    let free = free_cells(cols, rows, occupied);
    if free.len() == 0 {
        return None;
    }
    let pick = rand_range(0, free.len());
    let r = pick_food(&free, pick);
    proof {
        lemma_small_mod(pick as nat, free@.len());
    }
    r
}

} // verus!
