use crate::fixed::Fixed;
use crate::food::Food;
use crate::geometry::Geometry;
use crate::point::Point;
use crate::scalar::{minus, sub_spec, Scalar};
use vstd::prelude::*;

verus! {

/// Where a piece of food lies as seen from an eye: how far away it is, and
/// at which angle from the direction in which the eye looks, with the angle
/// brought into one turn around zero.
#[derive(Clone, Copy, Debug, PartialEq)]
pub struct Bearing<S> {
    pub distance: S,
    pub angle: S,
}

/// A sensor of a fixed geometry: it sees as far as `fov_range`, over an angle
/// of `fov_angle` centred on the direction in which it looks, and reports
/// what it sees in `cells` cells.
#[derive(Clone, Copy, Debug, PartialEq)]
pub struct Eye<S> {
    pub fov_range: S,
    pub fov_angle: S,
    pub cells: usize,
}

impl<S: Scalar> Eye<S> {
    /// Half of the angle that the eye sees.
    pub open spec fn half_angle(&self) -> S {
        self.fov_angle.div_count_spec(2)
    }

    /// Whether the eye sees what lies at `bearing`: its distance must not be
    /// below zero, it must be nearer than the range, and its angle must not
    /// be beyond half of the eye's angle on either side.
    pub open spec fn sees(&self, bearing: Bearing<S>) -> bool {
        &&& S::zero_spec().le_spec(bearing.distance)
        &&& !self.fov_range.le_spec(bearing.distance)
        &&& !self.half_angle().lt_spec(bearing.angle.abs_spec())
    }

    /// The cell in which the eye reports what lies at `bearing`: the angle,
    /// counted from the edge of what the eye sees, mapped in proportion onto
    /// the cells, and never beyond the last cell.
    pub open spec fn cell_of(&self, bearing: Bearing<S>) -> int {
        let across = bearing.angle.add_spec(self.half_angle());
        let cell = across.div_spec(self.fov_angle).mul_spec(
            S::from_count_spec(self.cells),
        ).to_index_spec();
        if cell < self.cells - 1 {
            cell as int
        } else {
            self.cells - 1
        }
    }

    /// How strongly the eye reports what lies at `bearing`: the nearer, the
    /// stronger.
    pub open spec fn energy_of(&self, bearing: Bearing<S>) -> S {
        sub_spec(self.fov_range, bearing.distance).div_spec(self.fov_range)
    }

    /// What the eye reports of the food at `bearings`: every cell starts at
    /// zero, and each piece of food that the eye sees, taken in order, sets
    /// its cell to its energy, so that the last one to reach a cell stays.
    pub open spec fn vision(&self, bearings: Seq<Bearing<S>>) -> Seq<S>
        decreases bearings.len(),
    {
        if bearings.len() == 0 {
            Seq::new(self.cells as nat, |i: int| S::zero_spec())
        } else {
            let before = self.vision(bearings.drop_last());
            if self.cells > 0 && self.sees(bearings.last()) {
                before.update(self.cell_of(bearings.last()), self.energy_of(bearings.last()))
            } else {
                before
            }
        }
    }

    pub fn new(fov_range: S, fov_angle: S, cells: usize) -> (eye: Self)
        ensures
            eye.fov_range == fov_range,
            eye.fov_angle == fov_angle,
            eye.cells == cells,
    {
        Self { fov_range, fov_angle, cells }
    }

    /// The number of cells.
    pub fn cells(&self) -> (cells: usize)
        ensures
            cells == self.cells,
    {
        self.cells
    }

    /// The number of the last of `bearings` that the eye sees in `cell`, or
    /// -1 where it sees none of them in that cell.
    pub open spec fn last_seen_in(&self, bearings: Seq<Bearing<S>>, cell: int) -> int
        decreases bearings.len(),
    {
        if bearings.len() == 0 {
            -1
        } else if self.sees(bearings.last()) && self.cell_of(bearings.last()) == cell {
            bearings.len() - 1
        } else {
            self.last_seen_in(bearings.drop_last(), cell)
        }
    }

    /// `last_seen_in` names a piece that the eye sees in the cell and after
    /// which it sees no other in it; where it names none, the eye sees none
    /// in the cell.
    pub proof fn lemma_last_seen_in(&self, bearings: Seq<Bearing<S>>, cell: int)
        ensures
            -1 <= self.last_seen_in(bearings, cell) < bearings.len(),
            self.last_seen_in(bearings, cell) >= 0 ==> self.sees(
                bearings[self.last_seen_in(bearings, cell)],
            ) && self.cell_of(bearings[self.last_seen_in(bearings, cell)]) == cell,
            forall|j: int|
                self.last_seen_in(bearings, cell) < j < bearings.len() ==> !(self.sees(
                    #[trigger] bearings[j],
                ) && self.cell_of(bearings[j]) == cell),
        decreases bearings.len(),
    {
        if bearings.len() > 0 {
            let front = bearings.drop_last();
            self.lemma_last_seen_in(front, cell);
            assert forall|j: int|
                self.last_seen_in(bearings, cell) < j < bearings.len() implies !(self.sees(
                #[trigger] bearings[j],
            ) && self.cell_of(bearings[j]) == cell) by {
                if j < front.len() {
                    assert(front[j] == bearings[j]);
                }
            }
            if self.last_seen_in(bearings, cell) >= 0 && self.last_seen_in(bearings, cell)
                < front.len() {
                assert(front[self.last_seen_in(bearings, cell)]
                    == bearings[self.last_seen_in(bearings, cell)]);
            }
        }
    }

    /// A cell of the report holds the energy of the last piece that the eye
    /// sees in it, and zero where the eye sees no piece in it.
    pub proof fn lemma_vision_cell(&self, bearings: Seq<Bearing<S>>, cell: int)
        requires
            0 <= cell < self.cells,
        ensures
            self.last_seen_in(bearings, cell) < 0 ==> self.vision(bearings)[cell]
                == S::zero_spec(),
            self.last_seen_in(bearings, cell) >= 0 ==> self.vision(bearings)[cell]
                == self.energy_of(bearings[self.last_seen_in(bearings, cell)]),
        decreases bearings.len(),
    {
        if bearings.len() > 0 {
            let front = bearings.drop_last();
            self.lemma_vision_cell(front, cell);
            self.lemma_vision_len(front);
            self.lemma_last_seen_in(front, cell);
            if self.sees(bearings.last()) {
                assert(0 <= self.cell_of(bearings.last()) < self.cells);
            }
            if self.last_seen_in(front, cell) >= 0 {
                assert(front[self.last_seen_in(front, cell)]
                    == bearings[self.last_seen_in(front, cell)]);
            }
        }
    }

    /// Whatever the eye is shown, its report has one entry for each cell.
    pub proof fn lemma_vision_len(&self, bearings: Seq<Bearing<S>>)
        ensures
            self.vision(bearings).len() == self.cells,
        decreases bearings.len(),
    {
        if bearings.len() > 0 {
            self.lemma_vision_len(bearings.drop_last());
            if self.cells > 0 {
                assert(0 <= self.cell_of(bearings.last()) < self.cells);
            }
        }
    }

    /// Reports what the eye sees of the food that lies at `bearings`.
    pub fn see(&self, bearings: &[Bearing<S>]) -> (cells: Vec<S>)
        ensures
            cells@ == self.vision(bearings@),
            cells.len() == self.cells,
    {
        let mut cells: Vec<S> = Vec::new();
        let mut c: usize = 0;
        while c < self.cells
            invariant
                c <= self.cells,
                cells.len() == c,
                forall|j: int| 0 <= j < c ==> #[trigger] cells[j] == S::zero_spec(),
            decreases self.cells - c,
        {
            cells.push(S::zero());
            c += 1;
        }
        let half = self.fov_angle.over_count(2);
        let mut i: usize = 0;
        proof {
            assert(bearings@.take(0) =~= Seq::<Bearing<S>>::empty());
            assert(cells@ =~= self.vision(bearings@.take(0)));
        }
        while i < bearings.len()
            invariant
                i <= bearings.len(),
                half == self.half_angle(),
                cells.len() == self.cells,
                cells@ == self.vision(bearings@.take(i as int)),
            decreases bearings.len() - i,
        {
            let bearing = bearings[i];
            proof {
                let grown = bearings@.take(i + 1);
                assert(grown.drop_last() == bearings@.take(i as int));
                assert(grown.last() == bearing);
            }
            i += 1;
            if self.cells == 0 || !S::zero().at_most(bearing.distance) {
                continue ;
            }
            if self.fov_range.at_most(bearing.distance) {
                continue ;
            }
            if half.less_than(bearing.angle.magnitude()) {
                continue ;
            }
            let across = bearing.angle.plus(half);
            let share = across.divided_by(self.fov_angle);
            let cell = share.times(S::from_count(self.cells)).to_index();
            let cell = if cell < self.cells - 1 {
                cell
            } else {
                self.cells - 1
            };
            let energy = minus(self.fov_range, bearing.distance).divided_by(self.fov_range);
            cells[cell] = energy;
        }
        proof {
            assert(bearings@.take(bearings.len() as int) == bearings@);
        }
        cells
    }

    /// `cells` is what the eye at `position` that looks along `rotation`
    /// reports of `foods`: what it sees at the bearings that the geometry
    /// answered for the pieces, one after the other.
    pub open spec fn reports<G: Geometry<S>>(
        &self,
        geometry: G,
        position: Point<S>,
        rotation: S,
        foods: Seq<Food<S>>,
        cells: Seq<S>,
    ) -> bool {
        exists|bearings: Seq<Bearing<S>>|
            #[trigger] bearings_of(geometry, position, rotation, foods, bearings) && cells
                == self.vision(bearings)
    }

    /// Reports what an eye at `position` that looks along `rotation` sees of
    /// `foods`: the geometry is asked for the bearing of every piece in
    /// turn, and the eye reports what it sees at those bearings.
    pub fn process_vision<G: Geometry<S>>(
        &self,
        geometry: &G,
        position: Point<S>,
        rotation: S,
        foods: &[Food<S>],
    ) -> (cells: Vec<S>)
        ensures
            cells.len() == self.cells,
            self.reports(*geometry, position, rotation, foods@, cells@),
    {
        let mut bearings: Vec<Bearing<S>> = Vec::new();
        let mut f: usize = 0;
        while f < foods.len()
            invariant
                f <= foods.len(),
                bearings.len() == f,
                forall|i: int|
                    0 <= i < f ==> call_ensures(
                        G::bearing,
                        (geometry, position, rotation, foods[i].position),
                        #[trigger] bearings[i],
                    ),
            decreases foods.len() - f,
        {
            let bearing = geometry.bearing(position, rotation, foods[f].position);
            bearings.push(bearing);
            f += 1;
        }
        proof {
            assert(bearings_of(*geometry, position, rotation, foods@, bearings@));
        }
        self.see(bearings.as_slice())
    }
}

/// `bearings` are what the geometry answered when it was asked, for each of
/// `foods` in turn, where the piece lies as seen from `position` when looking
/// along `rotation`.
pub open spec fn bearings_of<S: Scalar, G: Geometry<S>>(
    geometry: G,
    position: Point<S>,
    rotation: S,
    foods: Seq<Food<S>>,
    bearings: Seq<Bearing<S>>,
) -> bool {
    &&& bearings.len() == foods.len()
    &&& forall|i: int|
        0 <= i < foods.len() ==> call_ensures(
            G::bearing,
            (&geometry, position, rotation, foods[i].position),
            #[trigger] bearings[i],
        )
}

/// On fixed-point scalars, what an eye sees it reports with an energy from
/// zero to one.
pub proof fn lemma_energy_in_unit_range(eye: Eye<Fixed>, bearing: Bearing<Fixed>)
    requires
        eye.sees(bearing),
    ensures
        0 <= eye.energy_of(bearing).micros <= 1_000_000,
{
    let range = eye.fov_range.micros as int;
    let near = range - bearing.distance.micros;
    assert(0 < near <= range);
    assert(0 <= (near * 1_000_000) / range <= 1_000_000) by (nonlinear_arith)
        requires
            0 < near <= range,
    ;
}

/// On fixed-point scalars, every cell of a report lies between zero and one.
pub proof fn lemma_vision_in_unit_range(eye: Eye<Fixed>, bearings: Seq<Bearing<Fixed>>, cell: int)
    requires
        0 <= cell < eye.cells,
    ensures
        0 <= eye.vision(bearings)[cell].micros <= 1_000_000,
{
    eye.lemma_vision_cell(bearings, cell);
    eye.lemma_last_seen_in(bearings, cell);
    if eye.last_seen_in(bearings, cell) >= 0 {
        lemma_energy_in_unit_range(eye, bearings[eye.last_seen_in(bearings, cell)]);
    }
}

} // verus!
