//! The render adapter's computational half: which live cells fall inside the
//! current viewport and are therefore drawn. Cells outside the viewport are
//! silently dropped from the draw list; the generation itself is untouched.

use vstd::prelude::*;
use crate::life_iteration::{coord_set, distinct_coords, seq_has_coord, Coords, LifeIteration};

verus! {

/// The coordinates visible in a `width` by `height` terminal viewport.
pub open spec fn viewport(width: int, height: int) -> Set<(int, int)> {
    Set::new(|p: (int, int)| 0 <= p.0 < width && 0 <= p.1 < height)
}

impl LifeIteration {
    /// The draw list for this generation: exactly the live cells inside the
    /// `[0, width) x [0, height)` viewport, each once, with coordinates that
    /// fit the terminal's cell grid.
    #[verifier::loop_isolation(false)]
    pub fn viewport_cells(&self, width: u16, height: u16) -> (r: Vec<Coords>)
        requires
            self.well_formed(),
        ensures
            distinct_coords(r@),
            coord_set(r@) == self@.intersect(viewport(width as int, height as int)),
            forall|m: int|
                0 <= m < r@.len() ==> 0 <= (#[trigger] r@[m]).x < width as int && 0 <= r@[m].y
                    < height as int,
    {
        let mut out = LifeIteration::new();
        let mut i: usize = 0;
        while i < self.cells.len()
            invariant
                0 <= i <= self.cells@.len(),
                out.well_formed(),
                forall|p: (int, int)|
                    #[trigger] out@.contains(p) ==> self@.contains(p) && 0 <= p.0 < width as int
                        && 0 <= p.1 < height as int,
                forall|k: int|
                    #![trigger self.cells@[k]]
                    0 <= k < i && 0 <= (self.cells@[k].x as int) && (self.cells@[k].x as int)
                        < width as int && 0 <= (self.cells@[k].y as int) && (self.cells@[k].y
                        as int) < height as int ==> out@.contains(
                        (self.cells@[k].x as int, self.cells@[k].y as int),
                    ),
            decreases self.cells@.len() - i,
        {
            let c = self.cells[i];
            if c.x >= 0 && c.y >= 0 && c.x < width as isize && c.y < height as isize {
                proof {
                    assert(seq_has_coord(self.cells@, c.x as int, c.y as int));
                }
                out.insert(c);
            }
            i = i + 1;
        }
        proof {
            assert forall|p: (int, int)|
                self@.intersect(viewport(width as int, height as int)).contains(p) implies
                out@.contains(p) by {
                let k = choose|k: int|
                    0 <= k < self.cells@.len() && self.cells@[k].x == p.0 && self.cells@[k].y
                        == p.1;
                assert(self.cells@[k].x as int == p.0 && self.cells@[k].y as int == p.1);
            }
            assert(out@ =~= self@.intersect(viewport(width as int, height as int)));
            assert forall|m: int| 0 <= m < out.cells@.len() implies 0 <= (#[trigger] out.cells@[m]).x
                < width as int && 0 <= out.cells@[m].y < height as int by {
                assert(seq_has_coord(out.cells@, out.cells@[m].x as int, out.cells@[m].y as int));
                assert(out@.contains((out.cells@[m].x as int, out.cells@[m].y as int)));
            }
        }
        out.cells
    }
}

} // verus!
