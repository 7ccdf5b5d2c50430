use vstd::prelude::*;

use crate::convolution::{conv_pixel, naive_convolution};
use crate::edge::{edge_pixel, naive_edge_detection_sobel};
use crate::grayscale::{
    avg_gray_pixel, luminance_gray_scale, lum_gray_pixel, naive_gray_scale,
};
use crate::kernel::Kernel;
use crate::pixel::PixelGrid;

verus! {

/// The two grayscale reduction policies.
#[derive(Clone, Copy, PartialEq, Eq, Structural, Debug)]
pub enum GrayPolicy {
    /// Unweighted mean of red, green and blue.
    Unweighted,
    /// Luminance-weighted mean of red, green and blue.
    Luminance,
}

/// One named stage of a pipeline configuration.
pub enum Stage {
    /// Grayscale reduction under the given policy.
    Grayscale(GrayPolicy),
    /// Normalized convolution with the given kernel.
    Convolve(Kernel),
    /// Gradient-magnitude edge detection with the fixed masks and
    /// threshold.
    EdgeDetect,
}

impl Stage {
    /// A stage is runnable when any kernel it carries is well formed.
    pub open spec fn wf(self) -> bool {
        match self {
            Stage::Convolve(k) => k.wf(),
            _ => true,
        }
    }
}

/// What one stage does: `out` is `inp` transformed pixel by pixel by the
/// stage's component.
pub open spec fn stage_rel(inp: PixelGrid, s: Stage, out: PixelGrid) -> bool {
    &&& out.wf()
    &&& out.width == inp.width
    &&& out.height == inp.height
    &&& forall|x: int, y: int|
        0 <= x < inp.width && 0 <= y < inp.height ==> #[trigger] out.at(x, y) == (match s {
            Stage::Grayscale(GrayPolicy::Unweighted) => avg_gray_pixel(inp.at(x, y)),
            Stage::Grayscale(GrayPolicy::Luminance) => lum_gray_pixel(inp.at(x, y)),
            Stage::Convolve(k) => conv_pixel(inp, k, x, y),
            Stage::EdgeDetect => edge_pixel(inp, x, y),
        })
}

/// The stages, applied in order, turn `inp` into `out`.
pub open spec fn pipeline_rel(inp: PixelGrid, stages: Seq<Stage>, out: PixelGrid) -> bool
    decreases stages.len(),
{
    if stages.len() == 0 {
        out == inp
    } else {
        exists|mid: PixelGrid|
            #[trigger] stage_rel(inp, stages[0], mid)
                && pipeline_rel(mid, stages.drop_first(), out)
    }
}

/// Appending a stage to a pipeline extends the relation by one step.
proof fn lemma_pipeline_snoc(
    inp: PixelGrid, prefix: Seq<Stage>, cur: PixelGrid, s: Stage, next: PixelGrid,
)
    requires
        pipeline_rel(inp, prefix, cur),
        stage_rel(cur, s, next),
    ensures
        pipeline_rel(inp, prefix.push(s), next),
    decreases prefix.len(),
{
    let whole = prefix.push(s);
    if prefix.len() == 0 {
        assert(cur == inp);
        assert(whole[0] == s);
        assert(whole.drop_first() =~= Seq::<Stage>::empty());
        assert(stage_rel(inp, whole[0], next));
        assert(pipeline_rel(next, whole.drop_first(), next));
    } else {
        let mid = choose|mid: PixelGrid|
            #[trigger] stage_rel(inp, prefix[0], mid)
                && pipeline_rel(mid, prefix.drop_first(), cur);
        lemma_pipeline_snoc(mid, prefix.drop_first(), cur, s, next);
        assert(whole.drop_first() =~= prefix.drop_first().push(s));
        assert(whole[0] == prefix[0]);
        assert(stage_rel(inp, whole[0], mid) && pipeline_rel(mid, whole.drop_first(), next));
    }
}

/// Runs a pipeline configuration: each stage in order, each consuming the
/// previous stage's output. The result is related to the input by every
/// stage's pixel-by-pixel contract, and keeps the input's shape.
pub fn run_pipeline(input: PixelGrid, stages: &Vec<Stage>) -> (out: PixelGrid)
    requires
        input.wf(),
        forall|i: int| 0 <= i < stages@.len() ==> (#[trigger] stages@[i]).wf(),
    ensures
        out.wf(),
        out.width == input.width,
        out.height == input.height,
        pipeline_rel(input, stages@, out),
{
    let ghost orig = input;
    let mut current = input;
    let n = stages.len();
    let mut i: usize = 0;
    while i < n
        invariant
            n == stages@.len(),
            i <= n,
            forall|j: int| 0 <= j < n ==> (#[trigger] stages@[j]).wf(),
            current.wf(),
            current.width == orig.width,
            current.height == orig.height,
            pipeline_rel(orig, stages@.take(i as int), current),
        decreases n - i,
    {
        let s = &stages[i];
        let next = match s {
            Stage::Grayscale(GrayPolicy::Unweighted) => naive_gray_scale(&current),
            Stage::Grayscale(GrayPolicy::Luminance) => luminance_gray_scale(&current),
            Stage::Convolve(k) => naive_convolution(&current, k),
            Stage::EdgeDetect => naive_edge_detection_sobel(&current),
        };
        proof {
            assert(stage_rel(current, stages@[i as int], next));
            lemma_pipeline_snoc(orig, stages@.take(i as int), current, stages@[i as int], next);
            assert(stages@.take(i as int).push(stages@[i as int]) =~= stages@.take(i + 1));
        }
        current = next;
        i = i + 1;
    }
    proof {
        assert(stages@.take(n as int) =~= stages@);
    }
    current
}

} // verus!
