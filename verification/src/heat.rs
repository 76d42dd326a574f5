//! The heat field: a fixed-size two-dimensional grid of intensity values in
//! [0, 255], stored row-major and addressed with wraparound on both axes
//! (toroidal topology). Each frame the bottom row is reseeded from a
//! pseudo-random source and a diffusion kernel sweeps the grid in place.

use vstd::prelude::*;
use vstd::arithmetic::div_mod::lemma_fundamental_div_mod_converse;

verus! {

/// Upper bound on each grid dimension, so that every index computation
/// (`y * width + x` and its neighbors) fits comfortably in a `usize` on
/// every machine the crate compiles for.
pub const MAX_DIM: usize = 32768;

/// The diffusion kernel: the intensity written at `(y, x)`, read off the
/// current grid `g` — an average-with-decay of the three neighbors in the
/// row below and the cell two rows below, all indices wrapped toroidally.
/// The four samples sum to at most `4 * 255 = 1020`, and
/// `(1020 * 32) / 129 == 253`, so the kernel never exceeds an 8-bit cell.
pub open spec fn kernel_value(g: Seq<u8>, w: int, h: int, y: int, x: int) -> int {
    let below = ((y + 1) % h) * w;
    let two_below = ((y + 2) % h) * w;
    let below_left = g[below + ((x + w - 1) % w)] as int;
    let below_center = g[below + x] as int;
    let below_right = g[below + ((x + 1) % w)] as int;
    let two_below_center = g[two_below + x] as int;
    ((below_left + below_center + below_right + two_below_center) * 32) / 129
}

/// The grid after the kernel has been applied, in place, to the first `n`
/// cells in row-major order. Each application reads the grid as already
/// partially overwritten by the earlier ones: the sweep is deliberately
/// single-buffered, and that coupling of write order and read pattern is
/// part of the effect's visible shape.
pub open spec fn sweep_prefix(g: Seq<u8>, w: int, h: int, n: int) -> Seq<u8>
    decreases n,
{
    if n <= 0 {
        g
    } else {
        let g1 = sweep_prefix(g, w, h, n - 1);
        g1.update(n - 1, kernel_value(g1, w, h, (n - 1) / w, (n - 1) % w) as u8)
    }
}

/// The grid after one full in-place diffusion sweep.
pub open spec fn diffused(g: Seq<u8>, w: int, h: int) -> Seq<u8> {
    sweep_prefix(g, w, h, w * h)
}

/// The grid with the bottom row overwritten: column `x` of the last row
/// takes `seeds[x]` reduced modulo 256, every other cell is kept. (The
/// effect's classic formulation adds 32768 to the sample before
/// reducing; that offset is a multiple of 256 and cannot change the
/// result, so it is left out.)
pub open spec fn reseeded(g: Seq<u8>, w: int, h: int, seeds: Seq<u64>) -> Seq<u8> {
    Seq::new(
        g.len(),
        |k: int|
            if k >= (h - 1) * w {
                ((seeds[k - (h - 1) * w] as int) % 256) as u8
            } else {
                g[k]
            },
    )
}

/// A toroidal grid of heat intensities. `cells` is row-major: the cell at
/// row `y`, column `x` lives at index `y * width + x`.
pub struct HeatField {
    pub width: usize,
    pub height: usize,
    pub cells: Vec<u8>,
}

impl HeatField {
    /// Well-formedness: both dimensions are positive, small enough for
    /// index arithmetic, and the backing vector holds exactly one cell
    /// per grid position.
    pub open spec fn wf(self) -> bool {
        &&& 0 < self.width <= MAX_DIM
        &&& 0 < self.height <= MAX_DIM
        &&& self.cells@.len() == self.width * self.height
    }

    /// The intensity at row `y`, column `x` (in range, no wraparound).
    pub open spec fn cell(self, y: int, x: int) -> u8 {
        self.cells@[y * self.width + x]
    }

    /// A fresh all-zero (cold) field.
    pub fn new(width: usize, height: usize) -> (field: HeatField)
        requires
            0 < width <= MAX_DIM,
            0 < height <= MAX_DIM,
        ensures
            field.wf(),
            field.width == width,
            field.height == height,
            forall|k: int| 0 <= k < field.cells@.len() ==> field.cells@[k] == 0u8,
    {
        proof {
            assert(width * height <= MAX_DIM * MAX_DIM) by (nonlinear_arith)
                requires
                    0 < width <= MAX_DIM,
                    0 < height <= MAX_DIM,
            ;
        }
        let n: usize = width * height;
        let cells: Vec<u8> = vec![0u8; n];
        HeatField { width, height, cells }
    }

    pub fn width(&self) -> (w: usize)
        ensures
            w == self.width,
    {
        self.width
    }

    pub fn height(&self) -> (h: usize)
        ensures
            h == self.height,
    {
        self.height
    }

    /// Read one cell; the indices are taken as given (already in range).
    pub fn cell_at(&self, y: usize, x: usize) -> (v: u8)
        requires
            self.wf(),
            y < self.height,
            x < self.width,
        ensures
            v == self.cell(y as int, x as int),
    {
        proof {
            assert(y * self.width + x < self.width * self.height
                && y * self.width + x < 0x4000_0000) by (nonlinear_arith)
                requires
                    y < self.height,
                    x < self.width,
                    self.width <= MAX_DIM,
                    self.height <= MAX_DIM,
            ;
        }
        self.cells[y * self.width + x]
    }

    /// One full diffusion sweep, updating the grid in place in row-major
    /// order; later cells read neighbor values already overwritten earlier
    /// in the same pass.
    pub fn diffuse(&mut self)
        requires
            old(self).wf(),
        ensures
            final(self).wf(),
            final(self).width == old(self).width,
            final(self).height == old(self).height,
            final(self).cells@ == diffused(
                old(self).cells@,
                old(self).width as int,
                old(self).height as int,
            ),
    {
        let w = self.width;
        let h = self.height;
        let ghost g0 = self.cells@;
        proof {
            assert(w * h <= 0x4000_0000) by (nonlinear_arith)
                requires
                    0 < w <= MAX_DIM,
                    0 < h <= MAX_DIM,
            ;
        }
        let mut y: usize = 0;
        while y < h
            invariant
                0 < w <= MAX_DIM,
                0 < h <= MAX_DIM,
                w * h <= 0x4000_0000,
                self.width == w,
                self.height == h,
                y <= h,
                self.cells@.len() == w * h,
                g0.len() == w * h,
                self.cells@ == sweep_prefix(g0, w as int, h as int, (y * w) as int),
            decreases h - y,
        {
            proof {
                assert(y * w + w <= w * h) by (nonlinear_arith)
                    requires
                        y < h,
                ;
            }
            let mut x: usize = 0;
            while x < w
                invariant
                    0 < w <= MAX_DIM,
                    0 < h <= MAX_DIM,
                    w * h <= 0x4000_0000,
                    self.width == w,
                    self.height == h,
                    y < h,
                    x <= w,
                    y * w + w <= w * h,
                    self.cells@.len() == w * h,
                    g0.len() == w * h,
                    self.cells@ == sweep_prefix(g0, w as int, h as int, (y * w + x) as int),
                decreases w - x,
            {
                let idx = y * w + x;
                let yp1 = (y + 1) % h;
                let yp2 = (y + 2) % h;
                let xl = (x + w - 1) % w;
                let xr = (x + 1) % w;
                proof {
                    assert(yp1 * w + xl < w * h && yp1 * w + x < w * h && yp1 * w + xr < w * h
                        && yp2 * w + x < w * h) by (nonlinear_arith)
                        requires
                            yp1 < h,
                            yp2 < h,
                            xl < w,
                            xr < w,
                            x < w,
                            0 < w,
                            0 < h,
                    ;
                }
                let ghost g1 = self.cells@;
                let below_left = self.cells[yp1 * w + xl] as u32;
                let below_center = self.cells[yp1 * w + x] as u32;
                let below_right = self.cells[yp1 * w + xr] as u32;
                let two_below_center = self.cells[yp2 * w + x] as u32;
                let v = (((below_left + below_center + below_right + two_below_center) * 32)
                    / 129) as u8;
                self.cells[idx] = v;
                proof {
                    lemma_fundamental_div_mod_converse(idx as int, w as int, y as int, x as int);
                    assert(kernel_value(g1, w as int, h as int, y as int, x as int) == v as int);
                    assert(self.cells@ == sweep_prefix(g0, w as int, h as int, idx as int + 1));
                }
                x = x + 1;
            }
            proof {
                assert((y + 1) * w == y * w + w) by (nonlinear_arith);
            }
            y = y + 1;
        }
        proof {
            assert(h * w == w * h) by (nonlinear_arith);
        }
    }

    /// Overwrite the bottom row from the given samples, one per column,
    /// each reduced modulo 256; every other cell is kept.
    pub fn reseed_bottom_row_with(&mut self, seeds: &Vec<u64>)
        requires
            old(self).wf(),
            seeds@.len() == old(self).width,
        ensures
            final(self).wf(),
            final(self).width == old(self).width,
            final(self).height == old(self).height,
            final(self).cells@ == reseeded(
                old(self).cells@,
                old(self).width as int,
                old(self).height as int,
                seeds@,
            ),
    {
        let w = self.width;
        let h = self.height;
        let ghost g0 = self.cells@;
        proof {
            assert((h - 1) * w + w == w * h && w * h <= 0x4000_0000) by (nonlinear_arith)
                requires
                    0 < w <= MAX_DIM,
                    0 < h <= MAX_DIM,
            ;
        }
        let base = (h - 1) * w;
        let mut x: usize = 0;
        while x < w
            invariant
                0 < w <= MAX_DIM,
                0 < h <= MAX_DIM,
                self.width == w,
                self.height == h,
                x <= w,
                base == (h - 1) * w,
                base + w == w * h,
                w * h <= 0x4000_0000,
                seeds@.len() == w,
                self.cells@.len() == w * h,
                g0.len() == w * h,
                forall|k: int|
                    0 <= k < base + x ==> self.cells@[k] == reseeded(
                        g0,
                        w as int,
                        h as int,
                        seeds@,
                    )[k],
                forall|k: int| base + x <= k < w * h ==> self.cells@[k] == g0[k],
            decreases w - x,
        {
            let v = (seeds[x] % 256) as u8;
            self.cells[base + x] = v;
            x = x + 1;
        }
        proof {
            assert(self.cells@ =~= reseeded(g0, w as int, h as int, seeds@));
        }
    }

    /// Overwrite the bottom row with freshly drawn pseudo-random samples,
    /// one per column, each reduced modulo 256. Which samples come back is
    /// up to the generator; whatever they are, the result is the grid with
    /// exactly the bottom row reseeded from them.
    pub fn reseed_bottom_row(&mut self)
        requires
            old(self).wf(),
        ensures
            final(self).wf(),
            final(self).width == old(self).width,
            final(self).height == old(self).height,
            exists|seeds: Seq<u64>|
                seeds.len() == old(self).width && final(self).cells@ == reseeded(
                    old(self).cells@,
                    old(self).width as int,
                    old(self).height as int,
                    seeds,
                ),
    {
        let w = self.width;
        let mut seeds: Vec<u64> = Vec::new();
        while seeds.len() < w
            invariant
                seeds@.len() <= w,
            decreases w - seeds@.len(),
        {
            seeds.push(random_u64());
        }
        self.reseed_bottom_row_with(&seeds);
        proof {
            assert(seeds@.len() == w);
        }
    }

    /// One full frame step of the simulation: reseed the bottom row from
    /// the given samples, then run the in-place diffusion sweep.
    pub fn step_with(&mut self, seeds: &Vec<u64>)
        requires
            old(self).wf(),
            seeds@.len() == old(self).width,
        ensures
            final(self).wf(),
            final(self).width == old(self).width,
            final(self).height == old(self).height,
            final(self).cells@ == diffused(
                reseeded(
                    old(self).cells@,
                    old(self).width as int,
                    old(self).height as int,
                    seeds@,
                ),
                old(self).width as int,
                old(self).height as int,
            ),
    {
        self.reseed_bottom_row_with(seeds);
        self.diffuse();
    }

    /// One full frame step with pseudo-random reseeding: for some drawn
    /// row of samples, the result is reseed-then-diffuse of that row.
    pub fn step(&mut self)
        requires
            old(self).wf(),
        ensures
            final(self).wf(),
            final(self).width == old(self).width,
            final(self).height == old(self).height,
            exists|seeds: Seq<u64>|
                seeds.len() == old(self).width && final(self).cells@ == diffused(
                    reseeded(
                        old(self).cells@,
                        old(self).width as int,
                        old(self).height as int,
                        seeds,
                    ),
                    old(self).width as int,
                    old(self).height as int,
                ),
    {
        self.reseed_bottom_row();
        self.diffuse();
    }
}

/// Law: the diffusion kernel value always lies in [0, 255] — in fact at
/// most 253 — so every intensity it writes fits an 8-bit cell with no
/// clamping lost.
pub proof fn lemma_kernel_in_range(g: Seq<u8>, w: int, h: int, y: int, x: int)
    ensures
        0 <= kernel_value(g, w, h, y, x) <= 253,
{
    let below = ((y + 1) % h) * w;
    let two_below = ((y + 2) % h) * w;
    let s = g[below + ((x + w - 1) % w)] as int + g[below + x] as int + g[below + ((x + 1) % w)]
        as int + g[two_below + x] as int;
    assert(0 <= s <= 1020);
    assert(0 <= (s * 32) / 129 <= 253);
}

/// Law: after any diffusion sweep, every cell of the resulting grid is a
/// valid intensity in [0, 255].
pub proof fn lemma_diffused_in_range(g: Seq<u8>, w: int, h: int)
    ensures
        forall|k: int|
            0 <= k < diffused(g, w, h).len() ==> 0 <= #[trigger] diffused(g, w, h)[k] <= 255,
{
}

/// A sweep leaves the grid's length unchanged.
proof fn lemma_sweep_prefix_len(g: Seq<u8>, w: int, h: int, n: int)
    requires
        n <= g.len(),
    ensures
        sweep_prefix(g, w, h, n).len() == g.len(),
    decreases n,
{
    if n > 0 {
        lemma_sweep_prefix_len(g, w, h, n - 1);
    }
}

/// Once the sweep has written a cell, the later kernel applications of
/// the same sweep leave it alone.
proof fn lemma_sweep_prefix_stable(g: Seq<u8>, w: int, h: int, k: int, n: int)
    requires
        0 <= k,
        k + 1 <= n,
        n <= g.len(),
    ensures
        sweep_prefix(g, w, h, n)[k] == sweep_prefix(g, w, h, k + 1)[k],
    decreases n,
{
    lemma_sweep_prefix_len(g, w, h, n - 1);
    if n > k + 1 {
        lemma_sweep_prefix_stable(g, w, h, k, n - 1);
    }
}

/// Law: a full sweep rewrites every cell, so each ends at the kernel's
/// maximum of 253 or below — strictly inside the valid intensity range.
pub proof fn lemma_diffused_bounded(g: Seq<u8>, w: int, h: int, k: int)
    requires
        g.len() == w * h,
        0 < w,
        0 < h,
        0 <= k < w * h,
    ensures
        diffused(g, w, h)[k] <= 253,
{
    lemma_sweep_prefix_stable(g, w, h, k, w * h);
    lemma_sweep_prefix_len(g, w, h, k);
    let gk = sweep_prefix(g, w, h, k);
    lemma_kernel_in_range(gk, w, h, k / w, k % w);
    assert(sweep_prefix(g, w, h, k + 1)[k] == kernel_value(gk, w, h, k / w, k % w) as u8);
}

/// Law: the kernel is a pure function of its wrapped four-neighbor
/// window — two grids that agree on those four cells yield the same value.
pub proof fn lemma_kernel_window(g1: Seq<u8>, g2: Seq<u8>, w: int, h: int, y: int, x: int)
    requires
        g1[((y + 1) % h) * w + ((x + w - 1) % w)] == g2[((y + 1) % h) * w + ((x + w - 1) % w)],
        g1[((y + 1) % h) * w + x] == g2[((y + 1) % h) * w + x],
        g1[((y + 1) % h) * w + ((x + 1) % w)] == g2[((y + 1) % h) * w + ((x + 1) % w)],
        g1[((y + 2) % h) * w + x] == g2[((y + 2) % h) * w + x],
    ensures
        kernel_value(g1, w, h, y, x) == kernel_value(g2, w, h, y, x),
{
}

/// Law: diffusion is deterministic — sweeping two equal snapshots yields
/// equal grids. Randomness enters the simulation only at the reseed stage,
/// never in the diffusion formula.
pub proof fn lemma_diffusion_deterministic(g1: Seq<u8>, g2: Seq<u8>, w: int, h: int)
    requires
        g1 == g2,
    ensures
        diffused(g1, w, h) == diffused(g2, w, h),
{
}

/// Relies on `rand::random`: draws one machine word from the thread-local
/// generator. The value depends on hidden generator state, so nothing is
/// promised of it.
#[verifier::external_body]
fn random_u64() -> u64 {
    rand::random::<u64>()
}

} // verus!
