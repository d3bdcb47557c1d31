//! A Gaussian convolution kernel: a sigma, a window radius, and the packed
//! table of truncated-window weights, each weight carried both as the exact
//! source literal the generated kernel will embed and as a fixed-point value
//! in nano units (billionths) for the construction-time normalization check.

use vstd::prelude::*;

use crate::error::ConfigError;
use crate::feature_extractor_pipeline::kernel::CenterOffset;
use crate::textfmt::{dec_u32, spec_dec_nat};

verus! {

/// One weight of 1.0, in nano units.
pub const NANO_ONE: u64 = 1_000_000_000;

/// The normalization tolerance: one thousandth of one, in nano units.
pub const NANO_TOLERANCE: u64 = 1_000_000;

/// The largest supported window radius; keeps every size computation of a
/// weight table inside `u32`.
pub const MAX_RADIUS: u32 = 8191;

/// One convolution weight: the fixed-precision literal the generated source
/// embeds, and its value in nano units for the normalization check.
pub struct KernelWeight {
    pub text: String,
    pub nano: u64,
}

/// The nano-unit sum of the first `n` weights.
pub open spec fn spec_sum_nano(ws: Seq<KernelWeight>, n: int) -> int
    decreases n,
{
    if n <= 0 {
        0
    } else {
        spec_sum_nano(ws, n - 1) + ws[n - 1].nano
    }
}

/// Whether a whole weight table reaches one within the tolerance. Truncation
/// at a finite radius under-counts, so only the undershoot direction signals
/// a radius too small for the sigma; sampling a sharply peaked density can
/// overshoot one, which is not a truncation defect.
pub open spec fn spec_normalized(ws: Seq<KernelWeight>) -> bool {
    spec_sum_nano(ws, ws.len() as int) >= NANO_ONE - NANO_TOLERANCE
}

/// The nano value of the weight at window offset `(x, y)`.
pub open spec fn spec_nano_at(ws: Seq<KernelWeight>, radius: int, x: int, y: int) -> int {
    ws[(y + radius) * (2 * radius + 1) + (x + radius)].nano as int
}

/// Whether a weight table has the symmetries of a Gaussian: the weight at
/// `(x, y)` equals the weights at `(-x, -y)` and at `(y, x)`.
pub open spec fn spec_symmetric(ws: Seq<KernelWeight>, radius: int) -> bool {
    forall|x: int, y: int|
        -radius <= x <= radius && -radius <= y <= radius ==> #[trigger] spec_nano_at(
            ws,
            radius,
            x,
            y,
        ) == spec_nano_at(ws, radius, -x, -y) && spec_nano_at(ws, radius, x, y) == spec_nano_at(
            ws,
            radius,
            y,
            x,
        )
}

/// A Gaussian kernel over a truncated square window.
pub struct GaussianBlur {
    /// Sigma in micro units (millionths); always positive.
    pub sigma_micro: u32,
    /// Half-width of the square sampling window, excluding the center.
    pub radius: u32,
    /// Row-major packed weights, one per offset of the window.
    pub weights: Vec<KernelWeight>,
}

impl GaussianBlur {
    /// The window side length, as a spec value.
    pub open spec fn spec_side(&self) -> int {
        2 * self.radius as int + 1
    }

    /// A well-formed kernel: positive sigma, bounded radius, one weight per
    /// window offset, and a weight sum reaching one within the tolerance.
    pub open spec fn wf(&self) -> bool {
        &&& self.sigma_micro > 0
        &&& self.radius <= MAX_RADIUS
        &&& self.weights.len() == self.spec_side() * self.spec_side()
        &&& spec_normalized(self.weights@)
        &&& spec_symmetric(self.weights@, self.radius as int)
    }

    /// Build a kernel, failing the construction when the weight table does
    /// not match the window, falls short of summing to one within the
    /// tolerance -- that signals a radius too small for the sigma -- or
    /// lacks the point and transpose symmetries a Gaussian table must have.
    pub fn new(sigma_micro: u32, radius: u32, weights: Vec<KernelWeight>) -> (r: Result<
        GaussianBlur,
        ConfigError,
    >)
        ensures
            r is Ok <==> {
                &&& sigma_micro > 0
                &&& radius <= MAX_RADIUS
                &&& weights@.len() == (2 * radius as int + 1) * (2 * radius as int + 1)
                &&& spec_normalized(weights@)
                &&& spec_symmetric(weights@, radius as int)
            },
            r matches Ok(g) ==> g == (GaussianBlur { sigma_micro, radius, weights }),
            !(sigma_micro > 0 && radius <= MAX_RADIUS) ==> r == Err::<GaussianBlur, ConfigError>(
                ConfigError::BadKernelShape,
            ),
            sigma_micro > 0 && radius <= MAX_RADIUS && weights@.len() != (2 * radius as int + 1) * (
            2 * radius as int + 1) ==> r == Err::<GaussianBlur, ConfigError>(
                ConfigError::WrongWeightCount,
            ),
            sigma_micro > 0 && radius <= MAX_RADIUS && weights@.len() == (2 * radius as int + 1) * (
            2 * radius as int + 1) && !spec_normalized(weights@) ==> r == Err::<
                GaussianBlur,
                ConfigError,
            >(ConfigError::KernelNotNormalized),
            sigma_micro > 0 && radius <= MAX_RADIUS && weights@.len() == (2 * radius as int + 1) * (
            2 * radius as int + 1) && spec_normalized(weights@) && !spec_symmetric(
                weights@,
                radius as int,
            ) ==> r == Err::<GaussianBlur, ConfigError>(ConfigError::AsymmetricKernel),
    {
        if sigma_micro == 0 || radius > MAX_RADIUS {
            return Err(ConfigError::BadKernelShape);
        }
        let side: u64 = 2 * radius as u64 + 1;
        proof {
            assert(side * side <= 16383 * 16383) by (nonlinear_arith)
                requires
                    0 < side <= 16383,
            ;
        }
        let expected_len: u64 = side * side;
        if weights.len() as u64 != expected_len {
            return Err(ConfigError::WrongWeightCount);
        }
        let mut total: u128 = 0;
        let mut i: usize = 0;
        while i < weights.len()
            invariant
                i <= weights.len(),
                weights@.len() <= 16383 * 16383,
                total == spec_sum_nano(weights@, i as int),
                total <= i as int * u64::MAX,
            decreases weights.len() - i,
        {
            proof {
                assert(i as int * u64::MAX + u64::MAX <= 16383 * 16383 * (u64::MAX as int))
                    by (nonlinear_arith)
                    requires
                        0 <= i as int,
                        i as int + 1 <= 16383 * 16383,
                ;
            }
            total = total + weights[i].nano as u128;
            i += 1;
        }
        if total < (NANO_ONE - NANO_TOLERANCE) as u128 {
            return Err(ConfigError::KernelNotNormalized);
        }
        if !is_symmetric(&weights, radius) {
            return Err(ConfigError::AsymmetricKernel);
        }
        Ok(GaussianBlur { sigma_micro, radius, weights })
    }

    /// The side length of the square window: `2 * radius + 1`.
    pub fn kernel_side_len(&self) -> (r: u32)
        requires
            self.radius <= MAX_RADIUS,
        ensures
            r == self.spec_side(),
    {
        2 * self.radius + 1
    }

    /// The window radius.
    pub fn radius(&self) -> (r: u32)
        ensures
            r == self.radius,
    {
        self.radius
    }

    /// Bytes needed to store the packed weight table as 4-byte values.
    pub fn required_size_in_bytes(&self) -> (r: u64)
        requires
            self.radius <= MAX_RADIUS,
        ensures
            r == self.spec_side() * self.spec_side() * 4,
    {
        let side: u64 = 2 * self.radius as u64 + 1;
        proof {
            assert(side * side <= 16383 * 16383) by (nonlinear_arith)
                requires
                    0 < side <= 16383,
            ;
        }
        side * side * 4
    }

    /// Index of an offset in the packed row-major weight table.
    pub fn linear_idx_from_yx_offset(&self, offset: &CenterOffset) -> (r: usize)
        requires
            self.radius <= MAX_RADIUS,
            -(self.radius as int) <= offset.x as int <= self.radius as int,
            -(self.radius as int) <= offset.y as int <= self.radius as int,
        ensures
            r == (offset.y as int + self.radius as int) * self.spec_side() + (offset.x as int
                + self.radius as int),
            r < self.spec_side() * self.spec_side(),
    {
        let side: i64 = 2 * self.radius as i64 + 1;
        let y: i64 = offset.y as i64 + self.radius as i64;
        let x: i64 = offset.x as i64 + self.radius as i64;
        proof {
            lemma_window_index_in_range(self.radius as int, offset.x as int, offset.y as int);
            assert(side * side <= 16383 * 16383) by (nonlinear_arith)
                requires
                    0 < side <= 16383,
            ;
        }
        let idx: i64 = y * side + x;
        idx as usize
    }

    /// The weight at a window offset; defined only inside the window.
    pub fn kernel_at<'a>(&'a self, center_offset: &CenterOffset) -> (r: &'a KernelWeight)
        requires
            self.wf(),
            -(self.radius as int) <= center_offset.x as int <= self.radius as int,
            -(self.radius as int) <= center_offset.y as int <= self.radius as int,
        ensures
            r == self.weights[(center_offset.y as int + self.radius as int) * self.spec_side() + (
            center_offset.x as int + self.radius as int)],
    {
        let idx = self.linear_idx_from_yx_offset(center_offset);
        &self.weights[idx]
    }

    /// The WGSL index expression for an offset variable into the packed
    /// row-major weight table.
    pub fn wgsl_linear_idx_from_yx_offset(&self, offset_var: &str) -> (r: String)
        requires
            self.radius <= MAX_RADIUS,
        ensures
            r@ == spec_wgsl_linear_idx(self.radius as nat, offset_var@),
    {
        let radius = dec_u32(self.radius);
        let side = dec_u32(2 * self.radius + 1);
        let mut r = String::new();
        r.append("( (");
        r.append(offset_var);
        r.append(".y + ");
        r.append(radius.as_str());
        r.append(") * ");
        r.append(side.as_str());
        r.append("  + (");
        r.append(offset_var);
        r.append(".x + ");
        r.append(radius.as_str());
        r.append(") )");
        proof {
            assert(r@ =~= spec_wgsl_linear_idx(self.radius as nat, offset_var@));
        }
        r
    }
}

/// Text of the packed-table index computation for an offset variable.
pub open spec fn spec_wgsl_linear_idx(radius: nat, offset_var: Seq<char>) -> Seq<char> {
    "( ("@ + offset_var + ".y + "@ + spec_dec_nat(radius) + ") * "@ + spec_dec_nat(2 * radius + 1)
        + "  + ("@ + offset_var + ".x + "@ + spec_dec_nat(radius) + ") )"@
}

proof fn lemma_window_index_in_range(radius: int, x: int, y: int)
    requires
        0 <= radius,
        -radius <= x <= radius,
        -radius <= y <= radius,
    ensures
        0 <= (y + radius) * (2 * radius + 1) + (x + radius) < (2 * radius + 1) * (2 * radius + 1),
{
    let side = 2 * radius + 1;
    assert(0 <= (y + radius) * side + (x + radius) < side * side) by (nonlinear_arith)
        requires
            0 <= radius,
            -radius <= x <= radius,
            -radius <= y <= radius,
            side == 2 * radius + 1,
    ;
}


/// Check the Gaussian symmetries of a full weight table.
fn is_symmetric(weights: &Vec<KernelWeight>, radius: u32) -> (r: bool)
    requires
        radius <= MAX_RADIUS,
        weights@.len() == (2 * radius as int + 1) * (2 * radius as int + 1),
    ensures
        r == spec_symmetric(weights@, radius as int),
{
    let side: usize = 2 * radius as usize + 1;
    let mut yy: usize = 0;
    while yy < side
        invariant
            yy <= side,
            side == 2 * radius as int + 1,
            radius <= MAX_RADIUS,
            weights@.len() == side * side,
            forall|x: int, y: int|
                -(radius as int) <= x <= radius as int && -(radius as int) <= y <= radius as int
                    && y + radius < yy ==> #[trigger] spec_nano_at(weights@, radius as int, x, y)
                    == spec_nano_at(weights@, radius as int, -x, -y) && spec_nano_at(
                    weights@,
                    radius as int,
                    x,
                    y,
                ) == spec_nano_at(weights@, radius as int, y, x),
        decreases side - yy,
    {
        let mut xx: usize = 0;
        while xx < side
            invariant
                xx <= side,
                yy < side,
                side == 2 * radius as int + 1,
                radius <= MAX_RADIUS,
                weights@.len() == side * side,
                forall|x: int, y: int|
                    -(radius as int) <= x <= radius as int && -(radius as int) <= y
                        <= radius as int && y + radius < yy ==> #[trigger] spec_nano_at(
                        weights@,
                        radius as int,
                        x,
                        y,
                    ) == spec_nano_at(weights@, radius as int, -x, -y) && spec_nano_at(
                        weights@,
                        radius as int,
                        x,
                        y,
                    ) == spec_nano_at(weights@, radius as int, y, x),
                forall|x: int|
                    -(radius as int) <= x <= radius as int && x + radius < xx
                        ==> #[trigger] spec_nano_at(weights@, radius as int, x, yy - radius)
                        == spec_nano_at(weights@, radius as int, -x, radius - yy) && spec_nano_at(
                        weights@,
                        radius as int,
                        x,
                        yy - radius,
                    ) == spec_nano_at(weights@, radius as int, yy - radius, x),
            decreases side - xx,
        {
            proof {
                assert(yy * side + xx < side * side && (side - 1 - yy) * side + (side - 1 - xx)
                    < side * side && xx * side + yy < side * side && side * side
                    <= 16383 * 16383) by (nonlinear_arith)
                    requires
                        yy < side,
                        xx < side,
                        0 < side <= 16383,
                ;
            }
            let here = yy * side + xx;
            let mirrored = (side - 1 - yy) * side + (side - 1 - xx);
            let transposed = xx * side + yy;
            let ghost x = xx - radius as int;
            let ghost y = yy - radius as int;
            proof {
                assert(spec_nano_at(weights@, radius as int, x, y) == weights@[here as int].nano
                    as int);
                assert(spec_nano_at(weights@, radius as int, -x, -y) == weights@[
                    mirrored as int].nano as int);
                assert(spec_nano_at(weights@, radius as int, y, x) == weights@[
                    transposed as int].nano as int);
            }
            if weights[here].nano != weights[mirrored].nano || weights[here].nano
                != weights[transposed].nano {
                proof {
                    assert(!spec_symmetric(weights@, radius as int));
                }
                return false;
            }
            xx += 1;
        }
        proof {
            assert forall|x: int, y: int|
                -(radius as int) <= x <= radius as int && -(radius as int) <= y <= radius as int
                    && y + radius < yy + 1 implies #[trigger] spec_nano_at(
                weights@,
                radius as int,
                x,
                y,
            ) == spec_nano_at(weights@, radius as int, -x, -y) && spec_nano_at(
                weights@,
                radius as int,
                x,
                y,
            ) == spec_nano_at(weights@, radius as int, y, x) by {
                if y + radius == yy {
                    assert(y == yy - radius as int);
                    assert(spec_nano_at(weights@, radius as int, x, yy - radius) == spec_nano_at(
                        weights@,
                        radius as int,
                        -x,
                        radius - yy,
                    ));
                }
            }
        }
        yy += 1;
    }
    proof {
        assert forall|x: int, y: int|
            -(radius as int) <= x <= radius as int && -(radius as int) <= y <= radius as int
                implies #[trigger] spec_nano_at(weights@, radius as int, x, y) == spec_nano_at(
            weights@,
            radius as int,
            -x,
            -y,
        ) && spec_nano_at(weights@, radius as int, x, y) == spec_nano_at(
            weights@,
            radius as int,
            y,
            x,
        ) by {
            assert(y + radius < side);
        }
    }
    true
}

} // verus!
