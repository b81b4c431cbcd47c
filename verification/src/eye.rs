//! The angular vision sensor.
use vstd::prelude::*;
use crate::food::Food;
use crate::fx::{fx_add, fx_add_spec, isqrt_u64, sqrt_floor, FX_ONE};
use crate::geom::{
    atan2_fx, atan2_spec, closed_unit_point, sq_dist, unit_point, wrap_to_pi, wrap_to_pi_spec,
    Point2, PI_FX, QUARTER_PI_FX, TAU_FX,
};
use crate::rng::Prng;

verus! {

/// How far the default eye can see.
pub const FOV_RANGE_FX: i64 = 250_000;

/// How wide the default eye can see, in fixed-point radians.
pub const FOV_ANGLE_FX: i64 = PI_FX + QUARTER_PI_FX;

/// How many photoreceptor cells the default eye has; this is also the
/// input width of the brain's network.
pub const EYE_CELLS: usize = 9;

/// Largest supported cell count of an eye.
pub const EYE_CELLS_MAX: usize = 10_000;

/// A fixed-geometry angular sensor: everything within `fov_range` of the
/// bird and within `fov_angle` around its heading is binned into one of
/// `cells` angular cells.
pub struct Eye {
    pub fov_range: i64,
    pub fov_angle: i64,
    pub cells: usize,
}

/// Well-formedness of an eye: positive range, a viewing angle of at most a
/// full turn, and a bounded positive cell count.
pub open spec fn eye_wf(e: Eye) -> bool {
    &&& 1 <= e.fov_range
    &&& 1 <= e.fov_angle <= TAU_FX
    &&& 1 <= e.cells <= EYE_CELLS_MAX
}

/// Half the viewing angle, rounded down.
pub open spec fn half_fov_angle(e: Eye) -> int {
    (e.fov_angle as int) / 2
}

/// Whether a food lies strictly within the eye's range of a bird at
/// `position`: exactly the comparison of the squared distance against the
/// squared range.
pub open spec fn food_in_range(e: Eye, position: Point2, fp: Point2) -> bool {
    sq_dist(fp, position) < (e.fov_range as int) * (e.fov_range as int)
}

/// The bearing of a food relative to a bird's heading: the angle from the
/// forward axis to the food, minus the rotation, wrapped into `[-pi, pi]`.
pub open spec fn food_bearing(position: Point2, rotation: i64, fp: Point2) -> int {
    wrap_to_pi_spec(atan2_spec(-(fp.x - position.x), fp.y - position.y) - rotation)
}

/// Whether a food is visible: within range, and within half the viewing
/// angle of the heading on either side.
pub open spec fn food_in_view(e: Eye, position: Point2, rotation: i64, fp: Point2) -> bool {
    &&& food_in_range(e, position, fp)
    &&& -half_fov_angle(e) <= food_bearing(position, rotation, fp) <= half_fov_angle(e)
}

/// The cell a visible food is binned into: its bearing shifted into
/// `[0, fov_angle]`, scaled to the cell count, truncated, and clamped to
/// the last valid index for the exact-boundary case.
pub open spec fn food_cell(e: Eye, position: Point2, rotation: i64, fp: Point2) -> int {
    let shifted = food_bearing(position, rotation, fp) + half_fov_angle(e);
    let idx = (shifted * (e.cells as int)) / (e.fov_angle as int);
    if idx < e.cells as int - 1 {
        idx
    } else {
        e.cells as int - 1
    }
}

/// The activation a food adds to its cell: `(fov_range - distance) /
/// fov_range` in fixed point — one unit at distance zero, zero at the
/// range boundary, decaying linearly.
pub open spec fn food_energy(e: Eye, position: Point2, fp: Point2) -> int {
    let dist = sqrt_floor(sq_dist(fp, position));
    (((e.fov_range as int) - dist) * (FX_ONE as int)) / (e.fov_range as int)
}

/// The vision vector after the first `k` foods: all cells start at zero;
/// each visible food adds its energy to its cell, in food order, with
/// saturating addition; invisible foods add nothing.
pub open spec fn vision_spec(e: Eye, position: Point2, rotation: i64, foods: Seq<Food>, k: int) -> Seq<
    i64,
>
    decreases k,
{
    if k <= 0 {
        Seq::new(e.cells as nat, |i: int| 0i64)
    } else {
        let prev = vision_spec(e, position, rotation, foods, k - 1);
        let fp = foods[k - 1].position;
        if food_in_view(e, position, rotation, fp) {
            let c = food_cell(e, position, rotation, fp);
            prev.update(c, fx_add_spec(prev[c] as int, food_energy(e, position, fp)) as i64)
        } else {
            prev
        }
    }
}

/// A food out of range or out of the viewing angle contributes nothing:
/// the vision over the first `k` foods equals the vision over the first
/// `k - 1` when the `k`-th is invisible.
pub proof fn lemma_vision_skips_invisible(
    e: Eye,
    position: Point2,
    rotation: i64,
    foods: Seq<Food>,
    k: int,
)
    requires
        0 < k <= foods.len(),
        !food_in_view(e, position, rotation, foods[k - 1].position),
    ensures
        vision_spec(e, position, rotation, foods, k) == vision_spec(
            e,
            position,
            rotation,
            foods,
            k - 1,
        ),
{
}

/// The vision over the first `k` foods only reads those foods, so it
/// agrees on food lists that agree there.
proof fn lemma_vision_prefix(
    e: Eye,
    position: Point2,
    rotation: i64,
    f1: Seq<Food>,
    f2: Seq<Food>,
    k: int,
)
    requires
        k <= f1.len(),
        k <= f2.len(),
        forall|i: int| 0 <= i < k ==> f1[i] == f2[i],
    ensures
        vision_spec(e, position, rotation, f1, k) == vision_spec(e, position, rotation, f2, k),
    decreases k,
{
    if k > 0 {
        lemma_vision_prefix(e, position, rotation, f1, f2, k - 1);
    }
}

/// Removing an invisible food, wherever it stands in the list, leaves the
/// vision over the whole list unchanged: out-of-range and out-of-angle
/// foods contribute nothing individually.
pub proof fn lemma_vision_drops_invisible(
    e: Eye,
    position: Point2,
    rotation: i64,
    foods: Seq<Food>,
    p: int,
)
    requires
        0 <= p < foods.len(),
        !food_in_view(e, position, rotation, foods[p].position),
    ensures
        vision_spec(e, position, rotation, foods, foods.len() as int) == vision_spec(
            e,
            position,
            rotation,
            foods.remove(p),
            foods.len() as int - 1,
        ),
{
    lemma_vision_remove_step(e, position, rotation, foods, p, foods.len() as int);
}

/// Removing an invisible food at `p` preserves the vision over every
/// prefix that covers it.
proof fn lemma_vision_remove_step(
    e: Eye,
    position: Point2,
    rotation: i64,
    foods: Seq<Food>,
    p: int,
    k: int,
)
    requires
        0 <= p < foods.len(),
        p < k <= foods.len(),
        !food_in_view(e, position, rotation, foods[p].position),
    ensures
        vision_spec(e, position, rotation, foods, k) == vision_spec(
            e,
            position,
            rotation,
            foods.remove(p),
            k - 1,
        ),
    decreases k,
{
    let shorter = foods.remove(p);
    if k == p + 1 {
        lemma_vision_skips_invisible(e, position, rotation, foods, k);
        lemma_vision_prefix(e, position, rotation, foods, shorter, p);
    } else {
        lemma_vision_remove_step(e, position, rotation, foods, p, k - 1);
        assert(shorter[k - 2] == foods[k - 1]);
    }
}

impl Eye {
    /// Build an eye from its three fixed parameters.
    pub fn new(fov_range: i64, fov_angle: i64, cells: usize) -> (r: Eye)
        requires
            1 <= fov_range,
            1 <= fov_angle <= TAU_FX,
            1 <= cells <= EYE_CELLS_MAX,
        ensures
            r.fov_range == fov_range,
            r.fov_angle == fov_angle,
            r.cells == cells,
            eye_wf(r),
    {
        Eye { fov_range, fov_angle, cells }
    }

    /// The cell count of the eye.
    pub fn cells(&self) -> (r: usize)
        ensures
            r == self.cells,
    {
        self.cells
    }

    /// The vision vector of a bird at `position` heading `rotation`:
    /// exactly [`vision_spec`] over the foods in order.  One non-negative
    /// activation per cell; each visible food adds
    /// `(fov_range - distance) / fov_range` to the cell its bearing falls
    /// into; food out of range or out of angle adds nothing, so with no
    /// food every cell reads zero.
    pub fn process_vision(&self, position: Point2, rotation: i64, foods: &Vec<Food>) -> (r: Vec<
        i64,
    >)
        requires
            eye_wf(*self),
            unit_point(position),
            0 <= rotation < TAU_FX,
            forall|k: int| 0 <= k < foods@.len() ==> closed_unit_point(
                (#[trigger] foods@[k]).position,
            ),
        ensures
            r@ == vision_spec(*self, position, rotation, foods@, foods@.len() as int),
            r@.len() == self.cells,
            forall|i: int| 0 <= i < r@.len() ==> 0 <= #[trigger] r@[i],
            forall|i: int| 0 <= i < r@.len() ==> #[trigger] r@[i] as int <= foods@.len() * (
            FX_ONE as int),
            (forall|k: int|
                0 <= k < foods@.len() ==> sq_dist((#[trigger] foods@[k]).position, position) >= (
                self.fov_range as int) * (self.fov_range as int)) ==> (forall|i: int|
                0 <= i < r@.len() ==> #[trigger] r@[i] == 0),
            foods@.len() == 0 ==> forall|i: int| 0 <= i < r@.len() ==> #[trigger] r@[i] == 0,
    {
        let mut cells_vec: Vec<i64> = Vec::new();
        let mut z: usize = 0;
        while z < self.cells
            invariant
                z <= self.cells,
                cells_vec@.len() == z,
                forall|i: int| 0 <= i < z ==> #[trigger] cells_vec@[i] == 0,
            decreases self.cells - z,
        {
            cells_vec.push(0);
            z = z + 1;
        }
        proof {
            assert(cells_vec@ =~= vision_spec(*self, position, rotation, foods@, 0));
        }
        let mut f: usize = 0;
        while f < foods.len()
            invariant
                f <= foods@.len(),
                eye_wf(*self),
                unit_point(position),
                0 <= rotation < TAU_FX,
                forall|k: int| 0 <= k < foods@.len() ==> closed_unit_point(
                    (#[trigger] foods@[k]).position,
                ),
                cells_vec@.len() == self.cells,
                cells_vec@ == vision_spec(*self, position, rotation, foods@, f as int),
                forall|i: int| 0 <= i < cells_vec@.len() ==> 0 <= #[trigger] cells_vec@[i],
                forall|i: int| 0 <= i < cells_vec@.len() ==> #[trigger] cells_vec@[i] as int <= (
                f as int) * (FX_ONE as int),
                (forall|k: int|
                    0 <= k < foods@.len() ==> sq_dist((#[trigger] foods@[k]).position, position)
                        >= (self.fov_range as int) * (self.fov_range as int)) ==> (forall|i: int|
                    0 <= i < cells_vec@.len() ==> #[trigger] cells_vec@[i] == 0),
            decreases foods@.len() - f,
        {
            let fp = foods[f].position();
            let dx: i64 = fp.x - position.x;
            let dy: i64 = fp.y - position.y;
            proof {
                assert((dx as int) * (dx as int) <= 1_000_000_000_000int) by (nonlinear_arith)
                    requires
                        -1_000_000int <= dx as int <= 1_000_000int,
                ;
                assert((dy as int) * (dy as int) <= 1_000_000_000_000int) by (nonlinear_arith)
                    requires
                        -1_000_000int <= dy as int <= 1_000_000int,
                ;
                assert((dx as int) * (dx as int) >= 0) by (nonlinear_arith);
                assert((dy as int) * (dy as int) >= 0) by (nonlinear_arith);
            }
            let d2: u64 = ((dx as i128) * (dx as i128) + (dy as i128) * (dy as i128)) as u64;
            proof {
                assert(d2 as int == sq_dist(fp, position));
            }
            let dist: i64 = isqrt_u64(d2) as i64;
            proof {
                assert(dist as int <= 2_000_000int) by (nonlinear_arith)
                    requires
                        (dist as int) * (dist as int) <= 2_000_000_000_000int,
                        dist as int >= 0,
                ;
            }
            if dist < self.fov_range {
                proof {
                    assert(((dist as int) + 1) * ((dist as int) + 1) <= (self.fov_range as int) * (
                    self.fov_range as int)) by (nonlinear_arith)
                        requires
                            0 <= (dist as int) + 1 <= self.fov_range as int,
                    ;
                    assert(food_in_range(*self, position, fp));
                }
                let bearing = atan2_fx(-dx, dy);
                let a = wrap_to_pi(bearing - rotation);
                proof {
                    assert(a as int == food_bearing(position, rotation, fp));
                }
                let half: i64 = ((self.fov_angle as u64) / 2) as i64;
                if -half <= a && a <= half {
                    proof {
                        assert(food_in_view(*self, position, rotation, fp));
                    }
                    let shifted: i64 = a + half;
                    proof {
                        assert((shifted as int) * (self.cells as int) <= (self.fov_angle as int)
                            * (self.cells as int)) by (nonlinear_arith)
                            requires
                                0 <= shifted as int <= self.fov_angle as int,
                                0 <= self.cells as int,
                        ;
                        assert((self.fov_angle as int) * (self.cells as int) <= TAU_FX as int
                            * 10_000int) by (nonlinear_arith)
                            requires
                                0 <= self.fov_angle as int <= TAU_FX as int,
                                0 <= self.cells as int <= 10_000int,
                        ;
                        assert((self.fov_angle as int) * (self.cells as int) == (
                        self.cells as int) * (self.fov_angle as int)) by (nonlinear_arith);
                        crate::geom::lemma_div_le(
                            (shifted as int) * (self.cells as int),
                            self.cells as int,
                            self.fov_angle as int,
                        );
                        assert((shifted as int) * (self.cells as int) >= 0) by (nonlinear_arith)
                            requires
                                shifted as int >= 0,
                                self.cells as int >= 0,
                        ;
                    }
                    let idx: u64 = (((shifted as u128) * (self.cells as u128)) / (
                    self.fov_angle as u128)) as u64;
                    let cell: usize = if (idx as usize) < self.cells - 1 {
                        idx as usize
                    } else {
                        self.cells - 1
                    };
                    proof {
                        assert(cell as int == food_cell(*self, position, rotation, fp));
                        assert(((self.fov_range - dist) as int) * (FX_ONE as int) <= (
                        self.fov_range as int) * (FX_ONE as int)) by (nonlinear_arith)
                            requires
                                0 <= (self.fov_range - dist) as int <= self.fov_range as int,
                        ;
                        assert((self.fov_range as int) * (FX_ONE as int) == (FX_ONE as int) * (
                        self.fov_range as int)) by (nonlinear_arith);
                        crate::geom::lemma_div_le(
                            ((self.fov_range - dist) as int) * (FX_ONE as int),
                            FX_ONE as int,
                            self.fov_range as int,
                        );
                        assert(((self.fov_range - dist) as int) * (FX_ONE as int) >= 0)
                            by (nonlinear_arith)
                            requires
                                (self.fov_range - dist) as int >= 0,
                        ;
                    }
                    let energy: i64 = ((((self.fov_range - dist) as u128) * (FX_ONE as u128)) / (
                    self.fov_range as u128)) as i64;
                    proof {
                        assert(energy as int == food_energy(*self, position, fp));
                    }
                    let updated = fx_add(cells_vec[cell], energy);
                    let ghost prev = cells_vec@;
                    cells_vec.set(cell, updated);
                    proof {
                        assert(cells_vec@ =~= prev.update(
                            cell as int,
                            fx_add_spec(prev[cell as int] as int, energy as int) as i64,
                        ));
                        assert(cells_vec@ =~= vision_spec(
                            *self,
                            position,
                            rotation,
                            foods@,
                            f as int + 1,
                        ));
                    }
                } else {
                    proof {
                        assert(!food_in_view(*self, position, rotation, fp));
                    }
                }
            } else {
                proof {
                    assert((dist as int) * (dist as int) <= sq_dist(fp, position));
                    assert((self.fov_range as int) * (self.fov_range as int) <= (dist as int) * (
                    dist as int)) by (nonlinear_arith)
                        requires
                            0 <= self.fov_range as int <= dist as int,
                    ;
                    assert(!food_in_range(*self, position, fp));
                }
            }
            f = f + 1;
        }
        cells_vec
    }
}

impl Default for Eye {
    /// The default eye of the simulation's birds.
    fn default() -> (r: Eye)
        ensures
            r.fov_range == FOV_RANGE_FX,
            r.fov_angle == FOV_ANGLE_FX,
            r.cells == EYE_CELLS,
            eye_wf(r),
    {
        Eye::new(FOV_RANGE_FX, FOV_ANGLE_FX, EYE_CELLS)
    }
}

} // verus!
