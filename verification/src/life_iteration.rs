//! The cellular-automaton core: coordinates on the unbounded integer plane,
//! the Moore neighborhood, and the generation-advancement rule over a sparse
//! set of live cells.

use vstd::prelude::*;

verus! {

/// A position on the unbounded integer plane. Equal iff both components are
/// equal; the addressing unit of the sparse live-cell set.
#[derive(Clone, Copy, PartialEq, Eq, Hash, Structural, Debug)]
pub struct Coords {
    pub x: isize,
    pub y: isize,
}

/// The two states a cell can be in at one time step.
#[derive(Clone, Copy, PartialEq, Eq, Structural, Debug)]
pub enum CellState {
    Alive,
    Dead,
}

/// `(nx, ny)` lies in the Moore neighborhood of `(x, y)`: at most one step
/// away in each axis, and not the cell itself.
pub open spec fn is_neighbor(x: int, y: int, nx: int, ny: int) -> bool {
    &&& -1 <= nx - x <= 1
    &&& -1 <= ny - y <= 1
    &&& !(nx == x && ny == y)
}

/// 1 if `(x, y)` is live in `g`, else 0.
pub open spec fn occ(g: Set<(int, int)>, x: int, y: int) -> nat {
    if g.contains((x, y)) {
        1nat
    } else {
        0nat
    }
}

/// How many of the 8 Moore neighbors of `(x, y)` are live in `g`.
pub open spec fn live_neighbor_count(g: Set<(int, int)>, x: int, y: int) -> nat {
    occ(g, x - 1, y + 1) + occ(g, x - 1, y) + occ(g, x - 1, y - 1) + occ(g, x, y - 1) + occ(
        g,
        x,
        y + 1,
    ) + occ(g, x + 1, y + 1) + occ(g, x + 1, y) + occ(g, x + 1, y - 1)
}

/// The transition rule for one cell: a live cell survives with exactly 2 or 3
/// live neighbors; a dead cell is born with exactly 3.
pub open spec fn cell_next_alive(g: Set<(int, int)>, x: int, y: int) -> bool {
    if g.contains((x, y)) {
        live_neighbor_count(g, x, y) == 2 || live_neighbor_count(g, x, y) == 3
    } else {
        live_neighbor_count(g, x, y) == 3
    }
}

/// The whole next generation: exactly the cells the rule makes live.
pub open spec fn next_generation(g: Set<(int, int)>) -> Set<(int, int)> {
    Set::new(|p: (int, int)| cell_next_alive(g, p.0, p.1))
}

/// Some element of `s` carries the coordinates `(x, y)`.
pub open spec fn seq_has_coord(s: Seq<Coords>, x: int, y: int) -> bool {
    exists|i: int| 0 <= i < s.len() && s[i].x == x && s[i].y == y
}

/// The set of coordinate pairs held by the elements of `s`.
pub open spec fn coord_set(s: Seq<Coords>) -> Set<(int, int)> {
    Set::new(|p: (int, int)| seq_has_coord(s, p.0, p.1))
}

/// No two elements of `s` carry the same coordinates.
pub open spec fn distinct_coords(s: Seq<Coords>) -> bool {
    forall|i: int, j: int|
        0 <= i < j < s.len() ==> !(#[trigger] s[i].x == #[trigger] s[j].x && s[i].y == s[j].y)
}

impl Coords {
    /// Both components at least `margin` away from the edge of the machine
    /// integer range, so neighbor offsets cannot overflow.
    pub open spec fn within(self, margin: int) -> bool {
        &&& isize::MIN as int + margin <= self.x as int <= isize::MAX as int - margin
        &&& isize::MIN as int + margin <= self.y as int <= isize::MAX as int - margin
    }

    pub fn new(x: isize, y: isize) -> (r: Self)
        ensures
            r.x == x,
            r.y == y,
    {
        Coords { x, y }
    }

    /// The 8 Moore neighbors, in a fixed order: the left column top to
    /// bottom, the two vertical neighbors, then the right column.
    pub fn get_neighbor_coords(&self) -> (r: [Coords; 8])
        requires
            self.within(1),
        ensures
            r@[0].x as int == self.x as int - 1 && r@[0].y as int == self.y as int + 1,
            r@[1].x as int == self.x as int - 1 && r@[1].y as int == self.y as int,
            r@[2].x as int == self.x as int - 1 && r@[2].y as int == self.y as int - 1,
            r@[3].x as int == self.x as int && r@[3].y as int == self.y as int - 1,
            r@[4].x as int == self.x as int && r@[4].y as int == self.y as int + 1,
            r@[5].x as int == self.x as int + 1 && r@[5].y as int == self.y as int + 1,
            r@[6].x as int == self.x as int + 1 && r@[6].y as int == self.y as int,
            r@[7].x as int == self.x as int + 1 && r@[7].y as int == self.y as int - 1,
            forall|i: int|
                0 <= i < 8 ==> is_neighbor(
                    self.x as int,
                    self.y as int,
                    #[trigger] r@[i].x as int,
                    r@[i].y as int,
                ),
            forall|nx: int, ny: int|
                is_neighbor(self.x as int, self.y as int, nx, ny) ==> #[trigger] seq_has_coord(
                    r@,
                    nx,
                    ny,
                ),
    {
        let (x, y) = (self.x, self.y);
        let r = [
            Coords::new(x - 1, y + 1),
            Coords::new(x - 1, y),
            Coords::new(x - 1, y - 1),
            Coords::new(x, y - 1),
            Coords::new(x, y + 1),
            Coords::new(x + 1, y + 1),
            Coords::new(x + 1, y),
            Coords::new(x + 1, y - 1),
        ];
        proof {
            assert forall|nx: int, ny: int|
                is_neighbor(self.x as int, self.y as int, nx, ny) implies #[trigger] seq_has_coord(
                r@,
                nx,
                ny,
            ) by {
                if nx == x - 1 && ny == y + 1 {
                    assert(r@[0].x == nx && r@[0].y == ny);
                } else if nx == x - 1 && ny == y {
                    assert(r@[1].x == nx && r@[1].y == ny);
                } else if nx == x - 1 && ny == y - 1 {
                    assert(r@[2].x == nx && r@[2].y == ny);
                } else if nx == x && ny == y - 1 {
                    assert(r@[3].x == nx && r@[3].y == ny);
                } else if nx == x && ny == y + 1 {
                    assert(r@[4].x == nx && r@[4].y == ny);
                } else if nx == x + 1 && ny == y + 1 {
                    assert(r@[5].x == nx && r@[5].y == ny);
                } else if nx == x + 1 && ny == y {
                    assert(r@[6].x == nx && r@[6].y == ny);
                } else {
                    assert(nx == x + 1 && ny == y - 1);
                    assert(r@[7].x == nx && r@[7].y == ny);
                }
            }
        }
        r
    }

    /// The transition rule for a single cell, as executable code.
    pub fn get_next_state(alive_neighbors_count: usize, cur_state: CellState) -> (r: CellState)
        ensures
            r is Alive <==> (if cur_state is Alive {
                alive_neighbors_count == 2 || alive_neighbors_count == 3
            } else {
                alive_neighbors_count == 3
            }),
    {
        match (alive_neighbors_count, cur_state) {
            (n, state) => match state {
                CellState::Alive => {
                    if n == 2 || n == 3 {
                        CellState::Alive
                    } else {
                        CellState::Dead
                    }
                },
                CellState::Dead => {
                    if n == 3 {
                        CellState::Alive
                    } else {
                        CellState::Dead
                    }
                },
            },
        }
    }
}

/// One generation of the simulation: the set of all currently live cells.
/// Dead cells are implicit. The backing vector holds each coordinate at most
/// once, so it faithfully represents a set.
pub struct LifeIteration {
    pub cells: Vec<Coords>,
}

impl View for LifeIteration {
    type V = Set<(int, int)>;

    open spec fn view(&self) -> Set<(int, int)> {
        coord_set(self.cells@)
    }
}

impl LifeIteration {
    /// The set invariant: no coordinate appears twice in the backing vector.
    pub open spec fn well_formed(self) -> bool {
        distinct_coords(self.cells@)
    }

    /// Every live cell is at least `margin` away from the machine integer
    /// edge, so neighbor arithmetic cannot overflow.
    pub open spec fn all_within(self, margin: int) -> bool {
        forall|p: (int, int)|
            #[trigger] self@.contains(p) ==> isize::MIN as int + margin <= p.0 <= isize::MAX as int
                - margin && isize::MIN as int + margin <= p.1 <= isize::MAX as int - margin
    }

    /// The empty generation.
    pub fn new() -> (r: Self)
        ensures
            r.well_formed(),
            r@ == Set::<(int, int)>::empty(),
    {
        let r = LifeIteration { cells: Vec::new() };
        proof {
            assert(r@ =~= Set::<(int, int)>::empty());
        }
        r
    }

    /// Whether the cell at `c`'s coordinates is live in this generation.
    pub fn contains(&self, c: &Coords) -> (r: bool)
        ensures
            r == self@.contains((c.x as int, c.y as int)),
    {
        let mut i: usize = 0;
        while i < self.cells.len()
            invariant
                0 <= i <= self.cells@.len(),
                forall|k: int| 0 <= k < i ==> !(#[trigger] self.cells@[k].x == c.x && self.cells@[k].y == c.y),
            decreases self.cells@.len() - i,
        {
            if self.cells[i].x == c.x && self.cells[i].y == c.y {
                return true;
            }
            i = i + 1;
        }
        false
    }

    /// Whether no cell at all is live.
    pub fn is_empty(&self) -> (r: bool)
        ensures
            r == self@.is_empty(),
    {
        if self.cells.len() == 0 {
            proof {
                assert(self@ =~= Set::<(int, int)>::empty());
            }
            true
        } else {
            proof {
                let c = self.cells@[0];
                assert(seq_has_coord(self.cells@, c.x as int, c.y as int));
                assert(self@.contains((c.x as int, c.y as int)));
            }
            false
        }
    }

    /// Mark the cell at `c`'s coordinates live.
    pub fn insert(&mut self, c: Coords)
        requires
            old(self).well_formed(),
        ensures
            final(self).well_formed(),
            final(self)@ == old(self)@.insert((c.x as int, c.y as int)),
    {
        if !self.contains(&c) {
            self.cells.push(c);
            proof {
                let s = self.cells@;
                let olds = old(self).cells@;
                assert forall|p: (int, int)|
                    self@.contains(p) <==> old(self)@.insert((c.x as int, c.y as int)).contains(p)
                by {
                    if seq_has_coord(s, p.0, p.1) {
                        let i = choose|i: int| 0 <= i < s.len() && s[i].x == p.0 && s[i].y == p.1;
                        if i < olds.len() {
                            assert(seq_has_coord(olds, p.0, p.1));
                        } else {
                            assert(p == (c.x as int, c.y as int));
                        }
                    }
                    if seq_has_coord(olds, p.0, p.1) {
                        let i = choose|i: int|
                            0 <= i < olds.len() && olds[i].x == p.0 && olds[i].y == p.1;
                        assert(s[i].x == p.0 && s[i].y == p.1);
                    }
                    if p == (c.x as int, c.y as int) {
                        assert(s[s.len() - 1].x == p.0 && s[s.len() - 1].y == p.1);
                    }
                }
                assert(self@ =~= old(self)@.insert((c.x as int, c.y as int)));
                assert forall|i: int, j: int| 0 <= i < j < s.len() implies !(s[i].x == s[j].x
                    && s[i].y == s[j].y) by {
                    if j == s.len() - 1 {
                        assert(!(olds[i].x == c.x && olds[i].y == c.y));
                    }
                }
            }
        } else {
            proof {
                assert(self@ =~= old(self)@.insert((c.x as int, c.y as int)));
            }
        }
    }

    /// Mark the cell at `c`'s coordinates dead.
    pub fn remove(&mut self, c: Coords)
        requires
            old(self).well_formed(),
        ensures
            final(self).well_formed(),
            final(self)@ == old(self)@.remove((c.x as int, c.y as int)),
    {
        let mut i: usize = 0;
        while i < self.cells.len()
            invariant
                0 <= i <= self.cells@.len(),
                self.cells@ == old(self).cells@,
                distinct_coords(self.cells@),
                forall|k: int| 0 <= k < i ==> !(#[trigger] self.cells@[k].x == c.x && self.cells@[k].y == c.y),
            decreases self.cells@.len() - i,
        {
            if self.cells[i].x == c.x && self.cells[i].y == c.y {
                self.cells.remove(i);
                proof {
                    let s = self.cells@;
                    let olds = old(self).cells@;
                    assert forall|p: (int, int)|
                        self@.contains(p) <==> old(self)@.remove(
                            (c.x as int, c.y as int),
                        ).contains(p)
                    by {
                        if seq_has_coord(s, p.0, p.1) {
                            let k = choose|k: int|
                                0 <= k < s.len() && s[k].x == p.0 && s[k].y == p.1;
                            if k < i {
                                assert(olds[k].x == p.0 && olds[k].y == p.1);
                                assert(seq_has_coord(olds, p.0, p.1));
                            } else {
                                assert(olds[k + 1].x == p.0 && olds[k + 1].y == p.1);
                                assert(seq_has_coord(olds, p.0, p.1));
                            }
                            assert(p != (c.x as int, c.y as int));
                        }
                        if seq_has_coord(olds, p.0, p.1) && p != (c.x as int, c.y as int) {
                            let k = choose|k: int|
                                0 <= k < olds.len() && olds[k].x == p.0 && olds[k].y == p.1;
                            if k < i {
                                assert(s[k].x == p.0 && s[k].y == p.1);
                            } else {
                                assert(k > i);
                                assert(s[k - 1].x == p.0 && s[k - 1].y == p.1);
                            }
                            assert(seq_has_coord(s, p.0, p.1));
                        }
                    }
                    assert(self@ =~= old(self)@.remove((c.x as int, c.y as int)));
                    assert forall|a: int, b: int| 0 <= a < b < s.len() implies !(s[a].x == s[b].x
                        && s[a].y == s[b].y) by {
                        let oa: int = if a < i {
                            a
                        } else {
                            a + 1
                        };
                        let ob: int = if b < i {
                            b
                        } else {
                            b + 1
                        };
                        assert(s[a] == olds[oa] && s[b] == olds[ob]);
                    }
                }
                return ;
            }
            i = i + 1;
        }
        proof {
            assert(!seq_has_coord(self.cells@, c.x as int, c.y as int));
            assert(self@ =~= old(self)@.remove((c.x as int, c.y as int)));
        }
    }
}

/// If `(x, y)` has a positive live-neighbor count in `g`, some live cell of
/// `g` is a neighbor of it.
pub proof fn lemma_count_pos_has_live_neighbor(g: Set<(int, int)>, x: int, y: int)
    requires
        live_neighbor_count(g, x, y) > 0,
    ensures
        exists|q: (int, int)| g.contains(q) && is_neighbor(q.0, q.1, x, y),
{
    if g.contains((x - 1, y + 1)) {
        assert(g.contains((x - 1, y + 1)) && is_neighbor(x - 1, y + 1, x, y));
    } else if g.contains((x - 1, y)) {
        assert(g.contains((x - 1, y)) && is_neighbor(x - 1, y, x, y));
    } else if g.contains((x - 1, y - 1)) {
        assert(g.contains((x - 1, y - 1)) && is_neighbor(x - 1, y - 1, x, y));
    } else if g.contains((x, y - 1)) {
        assert(g.contains((x, y - 1)) && is_neighbor(x, y - 1, x, y));
    } else if g.contains((x, y + 1)) {
        assert(g.contains((x, y + 1)) && is_neighbor(x, y + 1, x, y));
    } else if g.contains((x + 1, y + 1)) {
        assert(g.contains((x + 1, y + 1)) && is_neighbor(x + 1, y + 1, x, y));
    } else if g.contains((x + 1, y)) {
        assert(g.contains((x + 1, y)) && is_neighbor(x + 1, y, x, y));
    } else {
        assert(g.contains((x + 1, y - 1)));
        assert(g.contains((x + 1, y - 1)) && is_neighbor(x + 1, y - 1, x, y));
    }
}

impl LifeIteration {
    /// How many of the 8 Moore neighbors of `(x, y)` are live, as executable
    /// code.
    pub fn count_live_neighbors(&self, x: isize, y: isize) -> (r: usize)
        requires
            (Coords { x, y }).within(1),
        ensures
            r == live_neighbor_count(self@, x as int, y as int),
    {
        let mut n: usize = 0;
        if self.contains(&Coords { x: x - 1, y: y + 1 }) {
            n = n + 1;
        }
        if self.contains(&Coords { x: x - 1, y }) {
            n = n + 1;
        }
        if self.contains(&Coords { x: x - 1, y: y - 1 }) {
            n = n + 1;
        }
        if self.contains(&Coords { x, y: y - 1 }) {
            n = n + 1;
        }
        if self.contains(&Coords { x, y: y + 1 }) {
            n = n + 1;
        }
        if self.contains(&Coords { x: x + 1, y: y + 1 }) {
            n = n + 1;
        }
        if self.contains(&Coords { x: x + 1, y }) {
            n = n + 1;
        }
        if self.contains(&Coords { x: x + 1, y: y - 1 }) {
            n = n + 1;
        }
        n
    }

    /// Whether every live cell is far enough from the machine integer edge
    /// for one tick's neighbor arithmetic, as executable code.
    pub fn in_safe_range(&self) -> (r: bool)
        ensures
            r == self.all_within(2),
    {
        let mut i: usize = 0;
        while i < self.cells.len()
            invariant
                0 <= i <= self.cells@.len(),
                forall|k: int| 0 <= k < i ==> (#[trigger] self.cells@[k]).within(2),
            decreases self.cells@.len() - i,
        {
            let c = self.cells[i];
            if !(c.x >= isize::MIN + 2 && c.x <= isize::MAX - 2 && c.y >= isize::MIN + 2 && c.y
                <= isize::MAX - 2) {
                proof {
                    assert(seq_has_coord(self.cells@, c.x as int, c.y as int));
                    assert(self@.contains((c.x as int, c.y as int)));
                }
                return false;
            }
            i = i + 1;
        }
        proof {
            assert forall|p: (int, int)| #[trigger] self@.contains(p) implies isize::MIN as int + 2
                <= p.0 <= isize::MAX as int - 2 && isize::MIN as int + 2 <= p.1 <= isize::MAX as int
                - 2 by {
                let k = choose|k: int|
                    0 <= k < self.cells@.len() && self.cells@[k].x == p.0 && self.cells@[k].y
                        == p.1;
                assert((self.cells@[k]).within(2));
            }
        }
        true
    }

    /// Advance one tick: apply the transition rule to every live cell, and
    /// evaluate every dead neighbor of a live cell for birth, all against this
    /// (pre-transition) generation. The result is exactly the next
    /// generation: no other cell of the unbounded plane can come alive, since
    /// birth needs 3 live neighbors.
    #[verifier::loop_isolation(false)]
    pub fn get_next_life_iteration(self) -> (r: LifeIteration)
        requires
            self.well_formed(),
            self.all_within(2),
        ensures
            r.well_formed(),
            r@ == next_generation(self@),
    {
        let mut new_cells = LifeIteration::new();

        let mut i: usize = 0;
        while i < self.cells.len()
            invariant
                0 <= i <= self.cells@.len(),
                new_cells.well_formed(),
                forall|p: (int, int)|
                    new_cells@.contains(p) ==> cell_next_alive(self@, p.0, p.1),
                forall|k: int|
                    #![trigger self.cells@[k]]
                    0 <= k < i && cell_next_alive(
                        self@,
                        self.cells@[k].x as int,
                        self.cells@[k].y as int,
                    ) ==> new_cells@.contains((self.cells@[k].x as int, self.cells@[k].y as int)),
                forall|p: (int, int), k: int|
                    #![trigger self.cells@[k], self@.contains(p)]
                    0 <= k < i && !self@.contains(p) && is_neighbor(
                        self.cells@[k].x as int,
                        self.cells@[k].y as int,
                        p.0,
                        p.1,
                    ) && live_neighbor_count(self@, p.0, p.1) == 3 ==> new_cells@.contains(p),
            decreases self.cells@.len() - i,
        {
            let cell = self.cells[i];
            proof {
                assert(cell == self.cells@[i as int]);
                assert(seq_has_coord(self.cells@, cell.x as int, cell.y as int));
                assert(self@.contains((cell.x as int, cell.y as int)));
                assert(cell.within(2));
            }
            let alive_neighbors_count = self.count_live_neighbors(cell.x, cell.y);
            let next_state = Coords::get_next_state(alive_neighbors_count, CellState::Alive);
            if let CellState::Alive = next_state {
                new_cells.insert(Coords { x: cell.x, y: cell.y });
            }

            let neighbor_coords = cell.get_neighbor_coords();
            let mut j: usize = 0;
            while j < 8
                invariant
                    0 <= j <= 8,
                    new_cells.well_formed(),
                    forall|p: (int, int)|
                        new_cells@.contains(p) ==> cell_next_alive(self@, p.0, p.1),
                    forall|k: int|
                        #![trigger self.cells@[k]]
                        0 <= k <= i && cell_next_alive(
                            self@,
                            self.cells@[k].x as int,
                            self.cells@[k].y as int,
                        ) ==> new_cells@.contains(
                            (self.cells@[k].x as int, self.cells@[k].y as int),
                        ),
                    forall|p: (int, int), k: int|
                        #![trigger self.cells@[k], self@.contains(p)]
                        0 <= k < i && !self@.contains(p) && is_neighbor(
                            self.cells@[k].x as int,
                            self.cells@[k].y as int,
                            p.0,
                            p.1,
                        ) && live_neighbor_count(self@, p.0, p.1) == 3 ==> new_cells@.contains(p),
                    forall|j2: int|
                        #![trigger neighbor_coords@[j2]]
                        0 <= j2 < j && !self@.contains(
                            (neighbor_coords@[j2].x as int, neighbor_coords@[j2].y as int),
                        ) && live_neighbor_count(
                            self@,
                            neighbor_coords@[j2].x as int,
                            neighbor_coords@[j2].y as int,
                        ) == 3 ==> new_cells@.contains(
                            (neighbor_coords@[j2].x as int, neighbor_coords@[j2].y as int),
                        ),
                decreases 8 - j,
            {
                let neighbor = neighbor_coords[j];
                proof {
                    assert(neighbor == neighbor_coords@[j as int]);
                    assert(is_neighbor(
                        cell.x as int,
                        cell.y as int,
                        neighbor.x as int,
                        neighbor.y as int,
                    ));
                    assert(neighbor.within(1));
                }
                if !self.contains(&neighbor) {
                    let alive_neighbors_count = self.count_live_neighbors(neighbor.x, neighbor.y);
                    let next_state = Coords::get_next_state(alive_neighbors_count, CellState::Dead);
                    if let CellState::Alive = next_state {
                        new_cells.insert(Coords { x: neighbor.x, y: neighbor.y });
                    }
                }
                j = j + 1;
            }

            proof {
                assert forall|p: (int, int)|
                    !self@.contains(p) && is_neighbor(cell.x as int, cell.y as int, p.0, p.1)
                        && live_neighbor_count(self@, p.0, p.1) == 3 implies new_cells@.contains(
                    p,
                ) by {
                    assert(seq_has_coord(neighbor_coords@, p.0, p.1));
                    let j2 = choose|j2: int|
                        0 <= j2 < neighbor_coords@.len() && neighbor_coords@[j2].x == p.0
                            && neighbor_coords@[j2].y == p.1;
                    assert(neighbor_coords@[j2].x as int == p.0 && neighbor_coords@[j2].y as int
                        == p.1);
                }
            }
            i = i + 1;
        }

        proof {
            assert forall|p: (int, int)| cell_next_alive(self@, p.0, p.1) implies new_cells@.contains(
                p,
            ) by {
                if self@.contains(p) {
                    let k = choose|k: int|
                        0 <= k < self.cells@.len() && self.cells@[k].x == p.0 && self.cells@[k].y
                            == p.1;
                    assert(self.cells@[k].x as int == p.0 && self.cells@[k].y as int == p.1);
                } else {
                    lemma_count_pos_has_live_neighbor(self@, p.0, p.1);
                    let q = choose|q: (int, int)| self@.contains(q) && is_neighbor(q.0, q.1, p.0, p.1);
                    assert(seq_has_coord(self.cells@, q.0, q.1));
                    let k = choose|k: int|
                        0 <= k < self.cells@.len() && self.cells@[k].x == q.0 && self.cells@[k].y
                            == q.1;
                    assert(self.cells@[k].x as int == q.0 && self.cells@[k].y as int == q.1);
                    assert(self@.contains(p) == false);
                }
            }
            assert(new_cells@ =~= next_generation(self@));
        }
        new_cells
    }
}

/// Advancing a generation is deterministic: equal live-cell sets have equal
/// successors.
pub proof fn lemma_next_generation_deterministic(g1: Set<(int, int)>, g2: Set<(int, int)>)
    requires
        g1 == g2,
    ensures
        next_generation(g1) == next_generation(g2),
{
}

/// A live cell is in the next generation exactly when it has 2 or 3 live
/// neighbors.
pub proof fn lemma_survival_rule(g: Set<(int, int)>, p: (int, int))
    requires
        g.contains(p),
    ensures
        next_generation(g).contains(p) <==> (live_neighbor_count(g, p.0, p.1) == 2
            || live_neighbor_count(g, p.0, p.1) == 3),
{
}

/// A dead cell is in the next generation exactly when it has 3 live
/// neighbors.
pub proof fn lemma_birth_rule(g: Set<(int, int)>, p: (int, int))
    requires
        !g.contains(p),
    ensures
        next_generation(g).contains(p) <==> live_neighbor_count(g, p.0, p.1) == 3,
{
}

/// A single live cell, having no live neighbor, leaves an empty next
/// generation, and nothing else is born from it.
pub proof fn lemma_isolated_cell_dies(x: int, y: int)
    ensures
        next_generation(set![(x, y)]) == Set::<(int, int)>::empty(),
{
    let g: Set<(int, int)> = set![(x, y)];
    assert forall|p: (int, int)| !(#[trigger] next_generation(g).contains(p)) by {
        assert(live_neighbor_count(g, p.0, p.1) <= 1);
    }
    assert(next_generation(g) =~= Set::<(int, int)>::empty());
}

/// A 2x2 block of live cells is a still life: it is its own successor.
pub proof fn lemma_block_is_still_life(x: int, y: int)
    ensures
        next_generation(set![(x, y), (x + 1, y), (x, y + 1), (x + 1, y + 1)]) == set![
            (x, y),
            (x + 1, y),
            (x, y + 1),
            (x + 1, y + 1),
        ],
{
    let g: Set<(int, int)> = set![(x, y), (x + 1, y), (x, y + 1), (x + 1, y + 1)];
    assert forall|p: (int, int)| #[trigger] next_generation(g).contains(p) <==> g.contains(p) by {
        if g.contains(p) {
            assert(live_neighbor_count(g, p.0, p.1) == 3);
        } else {
            assert(live_neighbor_count(g, p.0, p.1) != 3);
        }
    }
    assert(next_generation(g) =~= g);
}

/// One step turns a horizontal three-cell row into the vertical row through
/// its center.
#[verifier::rlimit(100)]
#[verifier::spinoff_prover]
proof fn lemma_blinker_h_to_v(x: int, y: int)
    ensures
        next_generation(set![(x, y), (x + 1, y), (x + 2, y)]) == set![
            (x + 1, y - 1),
            (x + 1, y),
            (x + 1, y + 1),
        ],
{
    let h: Set<(int, int)> = set![(x, y), (x + 1, y), (x + 2, y)];
    let v: Set<(int, int)> = set![(x + 1, y - 1), (x + 1, y), (x + 1, y + 1)];
    assert forall|p: (int, int)| #[trigger] next_generation(h).contains(p) <==> v.contains(p) by {
        if v.contains(p) {
            assert(live_neighbor_count(h, p.0, p.1) == 3 || (h.contains(p)
                && live_neighbor_count(h, p.0, p.1) == 2));
        } else {
            if h.contains(p) {
                assert(live_neighbor_count(h, p.0, p.1) != 2 && live_neighbor_count(h, p.0, p.1)
                    != 3);
            } else {
                assert(live_neighbor_count(h, p.0, p.1) != 3);
            }
        }
    }
    assert(next_generation(h) =~= v);
}

/// One step turns a vertical three-cell row into the horizontal row through
/// its center.
#[verifier::rlimit(100)]
#[verifier::spinoff_prover]
proof fn lemma_blinker_v_to_h(x: int, y: int)
    ensures
        next_generation(set![(x + 1, y - 1), (x + 1, y), (x + 1, y + 1)]) == set![
            (x, y),
            (x + 1, y),
            (x + 2, y),
        ],
{
    let h: Set<(int, int)> = set![(x, y), (x + 1, y), (x + 2, y)];
    let v: Set<(int, int)> = set![(x + 1, y - 1), (x + 1, y), (x + 1, y + 1)];
    assert forall|p: (int, int)| #[trigger] next_generation(v).contains(p) <==> h.contains(p) by {
        if h.contains(p) {
            assert(live_neighbor_count(v, p.0, p.1) == 3 || (v.contains(p)
                && live_neighbor_count(v, p.0, p.1) == 2));
        } else {
            if v.contains(p) {
                assert(live_neighbor_count(v, p.0, p.1) != 2 && live_neighbor_count(v, p.0, p.1)
                    != 3);
            } else {
                assert(live_neighbor_count(v, p.0, p.1) != 3);
            }
        }
    }
    assert(next_generation(v) =~= h);
}

/// A horizontal three-cell row oscillates with period 2: one step turns it
/// into the vertical row through its center, and a second step turns it
/// back.
pub proof fn lemma_blinker_oscillates(x: int, y: int)
    ensures
        next_generation(set![(x, y), (x + 1, y), (x + 2, y)]) == set![
            (x + 1, y - 1),
            (x + 1, y),
            (x + 1, y + 1),
        ],
        next_generation(set![(x + 1, y - 1), (x + 1, y), (x + 1, y + 1)]) == set![
            (x, y),
            (x + 1, y),
            (x + 2, y),
        ],
{
    lemma_blinker_h_to_v(x, y);
    lemma_blinker_v_to_h(x, y);
}

} // verus!
