//! The maze as a rectangular grid of cell tags.
use vstd::prelude::*;

verus! {

/// The tag of a passable cell; every other tag is an occupied, textured cell.
pub const EMPTY: char = ' ';

/// The tag at column `i` and row `j`, or `None` outside the grid.
pub open spec fn cell_at(g: Seq<Seq<char>>, i: int, j: int) -> Option<char> {
    if 0 <= j < g.len() && 0 <= i < g[j].len() {
        Some(g[j][i])
    } else {
        None
    }
}

/// Every row has the length of the first.
pub open spec fn is_rectangular(g: Seq<Seq<char>>) -> bool {
    forall|j: int| 0 <= j < g.len() ==> (#[trigger] g[j]).len() == g[0].len()
}

/// A non-empty rectangular grid whose border cells are all occupied.
pub open spec fn enclosed(g: Seq<Seq<char>>) -> bool {
    &&& 0 < g.len()
    &&& is_rectangular(g)
    &&& forall|i: int| 0 <= i < g[0].len() ==> #[trigger] g[0][i] != EMPTY
    &&& forall|i: int| 0 <= i < g[0].len() ==> #[trigger] g[g.len() - 1][i] != EMPTY
    &&& forall|j: int| 0 <= j < g.len() ==> (#[trigger] g[j])[0] != EMPTY && g[j][g[j].len() - 1] != EMPTY
}

/// A rectangular grid of cell tags, stored row by row.
pub struct Grid {
    pub rows: Vec<Vec<char>>,
}

impl View for Grid {
    type V = Seq<Seq<char>>;

    open spec fn view(&self) -> Seq<Seq<char>> {
        self.rows@.map_values(|r: Vec<char>| r@)
    }
}

impl Grid {
    pub open spec fn wf(&self) -> bool {
        is_rectangular(self@)
    }

    /// Builds a grid from its rows; `None` when the rows differ in length.
    pub fn new(rows: Vec<Vec<char>>) -> (r: Option<Grid>)
        ensures
            r is Some <==> is_rectangular(rows@.map_values(|r: Vec<char>| r@)),
            r matches Some(g) ==> g@ == rows@.map_values(|r: Vec<char>| r@) && g.wf(),
    {
        let ghost v = rows@.map_values(|r: Vec<char>| r@);
        if rows.len() == 0 {
            return Some(Grid { rows });
        }
        let w = rows[0].len();
        let mut j: usize = 0;
        while j < rows.len()
            invariant
                0 <= j <= rows.len(),
                v == rows@.map_values(|r: Vec<char>| r@),
                w == v[0].len(),
                forall|k: int| 0 <= k < j ==> (#[trigger] v[k]).len() == w,
            decreases rows.len() - j,
        {
            if rows[j].len() != w {
                assert(v[j as int].len() != v[0].len());
                return None;
            }
            j += 1;
        }
        Some(Grid { rows })
    }

    /// Number of rows.
    pub fn height(&self) -> (n: usize)
        ensures
            n == self@.len(),
    {
        self.rows.len()
    }

    /// Bounds-checked lookup of the tag at column `i`, row `j`.
    pub fn cell(&self, i: usize, j: usize) -> (r: Option<char>)
        ensures
            r == cell_at(self@, i as int, j as int),
    {
        if j < self.rows.len() && i < self.rows[j].len() {
            Some(self.rows[j][i])
        } else {
            None
        }
    }
}

} // verus!
