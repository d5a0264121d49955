//! The frame buffer: a grid of characters, blank except for marked cells.

use vstd::prelude::*;

verus! {

use crate::HEIGHT;
use crate::WIDTH;

/// A `HEIGHT` x `WIDTH` grid of characters. Every cell is either blank or
/// carries the marker glyph `'#'`; a fresh buffer is all blank.
pub struct Screen {
    cells: Vec<char>,
}

impl Screen {
    /// The set of grid positions `(x, y)` that carry the marker.
    pub closed spec fn marked(&self) -> Set<(int, int)> {
        Set::new(
            |p: (int, int)|
                0 <= p.0 < WIDTH && 0 <= p.1 < HEIGHT && self.cells[p.1 * WIDTH + p.0] == '#',
        )
    }

    /// The buffer holds one character per grid cell, each blank or the marker.
    pub closed spec fn wf(&self) -> bool {
        &&& self.cells.len() == WIDTH * HEIGHT
        &&& forall|i: int|
            0 <= i < self.cells.len() ==> ((#[trigger] self.cells[i]) == '#' || self.cells[i]
                == ' ')
    }

    /// A blank buffer: nothing is marked.
    pub fn new() -> (s: Screen)
        ensures
            s.wf(),
            s.marked() == Set::<(int, int)>::empty(),
    {
        let mut cells: Vec<char> = Vec::new();
        let mut i: usize = 0;
        while i < WIDTH * HEIGHT
            invariant
                i <= WIDTH * HEIGHT,
                cells.len() == i,
                forall|j: int| 0 <= j < i ==> #[trigger] cells[j] == ' ',
            decreases WIDTH * HEIGHT - i,
        {
            cells.push(' ');
            i = i + 1;
        }
        let s = Screen { cells };
        proof {
            assert forall|p: (int, int)| !s.marked().contains(p) by {
                if 0 <= p.0 < WIDTH && 0 <= p.1 < HEIGHT {
                    lemma_cell_index(p.0, p.1);
                }
            }
            assert(s.marked() =~= Set::<(int, int)>::empty());
        }
        s
    }

    /// The character at column `x`, row `y`: the marker where the cell is
    /// marked, a blank otherwise.
    pub fn get(&self, x: usize, y: usize) -> (c: char)
        requires
            self.wf(),
            x < WIDTH,
            y < HEIGHT,
        ensures
            c == if self.marked().contains((x as int, y as int)) {
                '#'
            } else {
                ' '
            },
    {
        proof {
            lemma_cell_index(x as int, y as int);
        }
        self.cells[y * WIDTH + x]
    }

    /// Mark the cell at column `x`, row `y`; every other cell keeps its value.
    pub fn mark(&mut self, x: usize, y: usize)
        requires
            old(self).wf(),
            x < WIDTH,
            y < HEIGHT,
        ensures
            final(self).wf(),
            final(self).marked() == old(self).marked().insert((x as int, y as int)),
    {
        proof {
            lemma_cell_index(x as int, y as int);
        }
        let i: usize = y * WIDTH + x;
        self.cells[i] = '#';
        proof {
            let xi = x as int;
            let yi = y as int;
            assert forall|p: (int, int)|
                #[trigger] self.marked().contains(p) == old(self).marked().insert(
                    (xi, yi),
                ).contains(p) by {
                if 0 <= p.0 < WIDTH && 0 <= p.1 < HEIGHT {
                    lemma_cell_index(p.0, p.1);
                    if p.1 * WIDTH + p.0 == yi * WIDTH + xi {
                        lemma_cell_index_injective(p.0, p.1, xi, yi);
                    }
                }
            }
            assert(self.marked() =~= old(self).marked().insert((xi, yi)));
        }
    }
}

/// A cell's flat index lies inside the buffer.
proof fn lemma_cell_index(x: int, y: int)
    requires
        0 <= x < WIDTH,
        0 <= y < HEIGHT,
    ensures
        0 <= y * WIDTH + x < WIDTH * HEIGHT,
{
    assert(0 <= y * WIDTH + x < WIDTH * HEIGHT) by (nonlinear_arith)
        requires
            0 <= x < WIDTH,
            0 <= y < HEIGHT,
    ;
}

/// Distinct cells have distinct flat indices.
proof fn lemma_cell_index_injective(a: int, b: int, x: int, y: int)
    requires
        0 <= a < WIDTH,
        0 <= b < HEIGHT,
        0 <= x < WIDTH,
        0 <= y < HEIGHT,
        b * WIDTH + a == y * WIDTH + x,
    ensures
        a == x && b == y,
{
    assert(b == y && a == x) by (nonlinear_arith)
        requires
            0 <= a < WIDTH,
            0 <= x < WIDTH,
            b * WIDTH + a == y * WIDTH + x,
    ;
}

} // verus!
