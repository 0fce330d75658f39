//! The frame driver: how the pixels of one frame are handed to the workers,
//! and what happens when a frame is complete.
//!
//! A frame visits every pixel of the back buffer once. The buffer is cut into
//! consecutive ranges, one per worker, so that no two workers ever write the
//! same pixel. When all of them are done the accumulation index advances by
//! one; it is the weight of the running average that each pixel holds.

use vstd::prelude::*;

verus! {

/// Completed frames between two progress reports.
pub const PROGRESS_INTERVAL: u32 = 25;

/// The options of a render.
#[derive(Clone, Copy, Debug)]
pub struct RenderConfig {
    /// Number of workers that share a frame.
    pub num_threads: u32,
    /// Longest path, in segments.
    pub ray_depth: u32,
    /// Average over successive frames instead of showing the latest one.
    pub accumulate: bool,
    /// Move each primary ray by a random offset inside its pixel.
    pub jitter_aa: bool,
    /// Report the frames per second.
    pub show_fps: bool,
    /// Hand the image to the denoising filter once enough frames are in.
    pub denoise: bool,
    /// Number of frames that are accumulated before the image is denoised.
    pub samples_before_denoise: u32,
    /// Give the filter albedo and normal guide images.
    pub use_extended_denoising: bool,
    /// Number of samples per pixel in each guide image.
    pub gbuffer_samples: u32,
}

impl Default for RenderConfig {
    /// Eight workers, paths of three segments, accumulation and jitter on,
    /// and a denoised image after a hundred frames.
    fn default() -> (config: Self)
        ensures
            config == (RenderConfig {
                num_threads: 8,
                ray_depth: 3,
                accumulate: true,
                jitter_aa: true,
                show_fps: false,
                denoise: true,
                samples_before_denoise: 100,
                use_extended_denoising: true,
                gbuffer_samples: 300,
            }),
    {
        RenderConfig {
            num_threads: 8,
            ray_depth: 3,
            accumulate: true,
            jitter_aa: true,
            show_fps: false,
            denoise: true,
            samples_before_denoise: 100,
            use_extended_denoising: true,
            gbuffer_samples: 300,
        }
    }
}

/// A run of consecutive pixel indices, `start` included and `end` excluded.
#[derive(Clone, Copy, Debug, PartialEq, Eq, Structural)]
pub struct PixelRange {
    pub start: usize,
    pub end: usize,
}

impl PixelRange {
    /// The range holds pixel `index`.
    pub open spec fn contains(&self, index: int) -> bool {
        self.start <= index < self.end
    }
}

/// First pixel of worker `k` when `len` pixels are shared among `workers`
/// workers: every worker gets `len / workers` pixels, and the first
/// `len % workers` of them one more.
pub open spec fn range_start(len: nat, workers: nat, k: nat) -> nat {
    k * (len / workers) + if k < len % workers {
        k
    } else {
        len % workers
    }
}

/// The ranges lie end to end from pixel 0 to pixel `len`.
pub open spec fn is_chain(ranges: Seq<PixelRange>, len: nat) -> bool {
    &&& ranges.len() > 0
    &&& ranges[0].start == 0
    &&& ranges.last().end == len
    &&& forall|k: int| 0 <= k < ranges.len() ==> (#[trigger] ranges[k]).start <= ranges[k].end
    &&& forall|k: int|
        0 <= k < ranges.len() - 1 ==> (#[trigger] ranges[k]).end == ranges[k + 1].start
}

/// Range `k` holds pixel `index`, and no other range does.
pub open spec fn is_owner(ranges: Seq<PixelRange>, index: int, k: int) -> bool {
    &&& 0 <= k < ranges.len()
    &&& ranges[k].contains(index)
    &&& forall|j: int| 0 <= j < ranges.len() && (#[trigger] ranges[j]).contains(index) ==> j == k
}

/// Exactly one of the ranges holds pixel `index`.
pub open spec fn owned_once(ranges: Seq<PixelRange>, index: int) -> bool {
    exists|k: int| is_owner(ranges, index, k)
}

/// Every pixel index below `len` lies in exactly one of the ranges, and no
/// range reaches beyond `len`.
pub open spec fn covers_once(ranges: Seq<PixelRange>, len: nat) -> bool {
    &&& forall|k: int| 0 <= k < ranges.len() ==> (#[trigger] ranges[k]).end <= len
    &&& forall|i: int| 0 <= i < len ==> #[trigger] owned_once(ranges, i)
}

/// In a chain, the ranges start and end in ascending order.
proof fn lemma_chain_ordered(ranges: Seq<PixelRange>, len: nat, j: int, k: int)
    requires
        is_chain(ranges, len),
        0 <= j <= k < ranges.len(),
    ensures
        ranges[j].start <= ranges[k].start,
        ranges[j].end <= ranges[k].end,
        j < k ==> ranges[j].end <= ranges[k].start,
    decreases k - j,
{
    if j < k {
        lemma_chain_ordered(ranges, len, j + 1, k);
        assert(ranges[j].end == ranges[j + 1].start);
    }
}

/// In a chain, a pixel at or after the start of range `k` lies in range `k`
/// or in a later one.
proof fn lemma_chain_finds(ranges: Seq<PixelRange>, len: nat, i: int, k: int)
    requires
        is_chain(ranges, len),
        0 <= k < ranges.len(),
        ranges[k].start <= i < len,
    ensures
        exists|m: int| 0 <= m < ranges.len() && (#[trigger] ranges[m]).contains(i),
    decreases ranges.len() - k,
{
    if i < ranges[k].end {
        assert(ranges[k].contains(i));
    } else {
        assert(k < ranges.len() - 1);
        assert(ranges[k].end == ranges[k + 1].start);
        lemma_chain_finds(ranges, len, i, k + 1);
    }
}

/// Ranges that lie end to end from 0 to `len` hold every pixel index below
/// `len` exactly once, however many ranges there are.
pub proof fn lemma_chain_covers_once(ranges: Seq<PixelRange>, len: nat)
    requires
        is_chain(ranges, len),
    ensures
        covers_once(ranges, len),
{
    assert forall|k: int| 0 <= k < ranges.len() implies (#[trigger] ranges[k]).end <= len by {
        lemma_chain_ordered(ranges, len, k, ranges.len() - 1);
    }
    assert forall|i: int| 0 <= i < len implies #[trigger] owned_once(ranges, i) by {
        lemma_chain_finds(ranges, len, i, 0);
        let k = choose|k: int| 0 <= k < ranges.len() && (#[trigger] ranges[k]).contains(i);
        assert forall|j: int| 0 <= j < ranges.len() && (#[trigger] ranges[j]).contains(
            i,
        ) implies j == k by {
            if j < k {
                lemma_chain_ordered(ranges, len, j, k);
            } else if k < j {
                lemma_chain_ordered(ranges, len, k, j);
            }
        }
        assert(is_owner(ranges, i, k));
    }
}

/// The starts of the workers' ranges ascend from 0 to `len`.
proof fn lemma_range_start(len: nat, workers: nat, k: nat)
    requires
        workers > 0,
        k < workers,
    ensures
        range_start(len, workers, 0) == 0,
        range_start(len, workers, workers) == len,
        range_start(len, workers, k + 1) == range_start(len, workers, k) + len / workers + if k
            < len % workers {
            1nat
        } else {
            0nat
        },
        range_start(len, workers, k + 1) <= len,
{
    let base = len / workers;
    let rest = len % workers;
    assert(len == workers * base + rest) by (nonlinear_arith)
        requires
            workers > 0,
            base == len / workers,
            rest == len % workers,
    ;
    assert(rest < workers) by (nonlinear_arith)
        requires
            workers > 0,
            rest == len % workers,
    ;
    assert((k + 1) * base == k * base + base) by (nonlinear_arith);
    assert((k + 1) * base <= workers * base) by (nonlinear_arith)
        requires
            k + 1 <= workers,
            base >= 0,
    ;
    assert(0 * base == 0) by (nonlinear_arith);
}

/// Cuts the pixel indices `0 .. len` into one range for each of `workers`
/// workers. The ranges lie end to end, so every pixel belongs to exactly one
/// worker, and their lengths differ by at most one.
pub fn partition(len: usize, workers: usize) -> (ranges: Vec<PixelRange>)
    requires
        workers > 0,
    ensures
        ranges@.len() == workers,
        forall|k: int|
            0 <= k < workers ==> (#[trigger] ranges@[k]) == (PixelRange {
                start: range_start(len as nat, workers as nat, k as nat) as usize,
                end: range_start(len as nat, workers as nat, (k + 1) as nat) as usize,
            }),
        is_chain(ranges@, len as nat),
        covers_once(ranges@, len as nat),
{
    let base: usize = len / workers;
    let rest: usize = len % workers;
    let mut ranges: Vec<PixelRange> = Vec::new();
    let mut start: usize = 0;
    let mut k: usize = 0;
    proof {
        lemma_range_start(len as nat, workers as nat, 0);
    }
    while k < workers
        invariant
            workers > 0,
            k <= workers,
            base == len / workers,
            rest == len % workers,
            ranges@.len() == k,
            start == range_start(len as nat, workers as nat, k as nat),
            start <= len,
            forall|j: int|
                0 <= j < k ==> (#[trigger] ranges@[j]) == (PixelRange {
                    start: range_start(len as nat, workers as nat, j as nat) as usize,
                    end: range_start(len as nat, workers as nat, (j + 1) as nat) as usize,
                }),
        decreases workers - k,
    {
        proof {
            lemma_range_start(len as nat, workers as nat, k as nat);
        }
        let end: usize = if k < rest {
            start + base + 1
        } else {
            start + base
        };
        ranges.push(PixelRange { start, end });
        start = end;
        k += 1;
    }
    proof {
        lemma_range_start(len as nat, workers as nat, 0);
        assert forall|j: int| 0 <= j < workers implies (#[trigger] ranges@[j]).start
            <= ranges@[j].end by {
            lemma_range_start(len as nat, workers as nat, j as nat);
        }
        assert forall|j: int| 0 <= j < workers - 1 implies (#[trigger] ranges@[j]).end
            == ranges@[j + 1].start by {
            lemma_range_start(len as nat, workers as nat, j as nat);
        }
        lemma_chain_covers_once(ranges@, len as nat);
    }
    ranges
}

/// Column and row of pixel `index` in a buffer that is `width` pixels wide
/// and stored row after row.
pub open spec fn position_of(index: int, width: int) -> (int, int) {
    (index % width, index / width)
}

/// Column and row of pixel `index` in a buffer that is `width` pixels wide.
pub fn pixel_position(index: u32, width: u32) -> (position: (u32, u32))
    requires
        width > 0,
    ensures
        (position.0 as int, position.1 as int) == position_of(index as int, width as int),
        position.0 < width,
        position.1 * width + position.0 == index,
{
    proof {
        lemma_position(index as int, width as int, u32::MAX as int + 1);
    }
    (index % width, index / width)
}

/// The position of a pixel lies inside a buffer that holds the pixel, and
/// leads back to the pixel's index.
pub proof fn lemma_position(index: int, width: int, height: int)
    requires
        width > 0,
        0 <= index < width * height,
    ensures
        0 <= position_of(index, width).0 < width,
        0 <= position_of(index, width).1 < height,
        position_of(index, width).1 * width + position_of(index, width).0 == index,
{
    let column = index % width;
    let row = index / width;
    assert(index == width * row + column && 0 <= column < width) by (nonlinear_arith)
        requires
            width > 0,
            column == index % width,
            row == index / width,
    ;
    assert(0 <= row < height) by (nonlinear_arith)
        requires
            width > 0,
            0 <= column < width,
            0 <= width * row + column < width * height,
    ;
    assert(row * width == width * row) by (nonlinear_arith);
}

/// Every position of a buffer belongs to exactly one pixel index: the pixel
/// at column `column` of row `row` is pixel `row * width + column`, and no
/// other index has that position.
pub proof fn lemma_position_unique(column: int, row: int, width: int, height: int)
    requires
        0 <= column < width,
        0 <= row < height,
    ensures
        0 <= row * width + column < width * height,
        position_of(row * width + column, width) == (column, row),
        forall|index: int|
            position_of(index, width) == (column, row) ==> index == row * width + column,
{
    let at = row * width + column;
    assert(0 <= at < width * height) by (nonlinear_arith)
        requires
            at == row * width + column,
            0 <= column < width,
            0 <= row < height,
    ;
    assert(at / width == row && at % width == column) by (nonlinear_arith)
        requires
            at == row * width + column,
            0 <= column < width,
    ;
    assert forall|index: int| position_of(index, width) == (column, row) implies index == at by {
        assert(index == width * (index / width) + index % width) by (nonlinear_arith)
            requires
                width > 0,
        ;
        assert(row * width == width * row) by (nonlinear_arith);
    }
}

/// What is due once a frame is complete.
#[derive(Clone, Copy, Debug, PartialEq, Eq, Structural)]
pub struct FrameOutcome {
    /// A progress report is due.
    pub report_progress: bool,
    /// The accumulated image is ready for the denoising filter.
    pub denoise: bool,
}

/// The options of a render and the number of frames accumulated so far.
pub struct FrameDriver {
    config: RenderConfig,
    accumulation_idx: u32,
}

impl FrameDriver {
    /// The options of this render.
    pub closed spec fn options(&self) -> RenderConfig {
        self.config
    }

    /// Number of completed frames that the pixel averages hold.
    pub closed spec fn frames(&self) -> u32 {
        self.accumulation_idx
    }

    /// Whether another frame can be counted.
    pub open spec fn can_advance(&self) -> bool {
        self.options().accumulate ==> self.frames() < u32::MAX
    }

    /// The accumulation index after one more frame.
    pub open spec fn next_frames(&self) -> int {
        if self.options().accumulate {
            self.frames() + 1
        } else {
            self.frames() as int
        }
    }

    /// A driver that has accumulated nothing yet.
    pub fn new(config: RenderConfig) -> (driver: Self)
        ensures
            driver.options() == config,
            driver.frames() == 0,
    {
        FrameDriver { config, accumulation_idx: 0 }
    }

    /// The options of this render.
    pub fn config(&self) -> (config: RenderConfig)
        ensures
            config == self.options(),
    {
        self.config
    }

    /// Number of completed frames that the pixel averages hold: the weight of
    /// the old average when the next frame is folded in.
    pub fn accumulation_idx(&self) -> (n: u32)
        ensures
            n == self.frames(),
    {
        self.accumulation_idx
    }

    /// Counts a completed frame and tells what is due after it. The index
    /// advances by one where frames are accumulated and stays otherwise. A
    /// progress report is due at every `PROGRESS_INTERVAL`-th frame up to the
    /// denoising threshold, the denoised image exactly at the threshold,
    /// both only where denoising is switched on.
    pub fn end_frame(&mut self) -> (outcome: FrameOutcome)
        requires
            old(self).can_advance(),
        ensures
            final(self).options() == old(self).options(),
            final(self).frames() == old(self).next_frames(),
            outcome.report_progress == (old(self).options().denoise && final(self).frames()
                % PROGRESS_INTERVAL == 0 && final(self).frames()
                <= old(self).options().samples_before_denoise),
            outcome.denoise == (old(self).options().denoise && final(self).frames() == old(self).options().samples_before_denoise),
    {
        if self.config.accumulate {
            self.accumulation_idx += 1;
        }
        let n: u32 = self.accumulation_idx;
        FrameOutcome {
            report_progress: self.config.denoise && n % PROGRESS_INTERVAL == 0 && n
                <= self.config.samples_before_denoise,
            denoise: self.config.denoise && n == self.config.samples_before_denoise,
        }
    }

    /// Starts the accumulation anew, as after a change of camera or scene.
    pub fn reset(&mut self)
        ensures
            final(self).options() == old(self).options(),
            final(self).frames() == 0,
    {
        self.accumulation_idx = 0;
    }

    /// The ranges of `len` pixels for the workers that the options name; a
    /// single range where they name none.
    pub fn ranges(&self, len: usize) -> (ranges: Vec<PixelRange>)
        ensures
            is_chain(ranges@, len as nat),
            covers_once(ranges@, len as nat),
            ranges@.len() == if self.options().num_threads == 0 {
                1
            } else {
                self.options().num_threads as int
            },
    {
        if self.config.num_threads == 0 {
            partition(len, 1)
        } else {
            partition(len, self.config.num_threads as usize)
        }
    }
}

} // verus!
