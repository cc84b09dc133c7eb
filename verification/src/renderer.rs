//! Row-chunked parallel rendering strategy.
//!
//! A render partitions the image's rows into contiguous chunks of size
//! `ceil(height / workers)`, hands each chunk out to be computed
//! independently, and reassembles the returned row-major buffers into
//! one image. The plan, the reassembly, and the proof that the
//! assembled image does not depend on the worker count live here; the
//! per-pixel computation is the caller's, fed back in as finished pixel
//! buffers.

use vstd::arithmetic::div_mod::{lemma_fundamental_div_mod, lemma_mod_bound};
use vstd::prelude::*;
use vstd::seq_lib::lemma_flatten_concat;

use crate::color::Rgb;
use crate::state::{RenderError, ViewportState};

verus! {

/// Rows per chunk: the height divided by the worker count, rounded up.
pub open spec fn chunk_size_spec(height: int, workers: int) -> int
    recommends
        height >= 1,
        workers >= 1,
{
    if height % workers == 0 {
        height / workers
    } else {
        height / workers + 1
    }
}

/// How many chunks of `size` rows cover `height` rows: the quotient,
/// rounded up.
pub open spec fn chunk_count_spec(height: int, size: int) -> int
    recommends
        height >= 1,
        size >= 1,
{
    if height % size == 0 {
        height / size
    } else {
        height / size + 1
    }
}

/// The half-open row range `[k * size, min((k + 1) * size, height))`
/// that chunk `k` covers.
pub open spec fn chunk_span(k: int, size: int, height: int) -> (u32, u32) {
    (
        (k * size) as u32,
        if (k + 1) * size <= height {
            ((k + 1) * size) as u32
        } else {
            height as u32
        },
    )
}

/// The full render plan: the row range of every chunk, in row order.
pub open spec fn plan_seq(height: int, workers: int) -> Seq<(u32, u32)> {
    Seq::new(
        chunk_count_spec(height, chunk_size_spec(height, workers)) as nat,
        |k: int| chunk_span(k, chunk_size_spec(height, workers), height),
    )
}

/// The chunk size is at least one row and at most the whole image.
proof fn lemma_chunk_size_bounds(height: int, workers: int)
    requires
        height >= 1,
        workers >= 1,
    ensures
        1 <= chunk_size_spec(height, workers) <= height,
{
    lemma_fundamental_div_mod(height, workers);
    lemma_mod_bound(height, workers);
    let q = height / workers;
    let r = height % workers;
    if r == 0 {
        assert(1 <= q <= height) by (nonlinear_arith)
            requires
                height == workers * q,
                height >= 1,
                workers >= 1,
        ;
    } else {
        assert(1 <= q + 1 <= height) by (nonlinear_arith)
            requires
                height == workers * q + r,
                height >= 1,
                workers >= 1,
                1 <= r < workers,
        ;
    }
}

/// A chunk count `n` with `(n - 1) * size < height <= n * size` is the
/// rounded-up quotient.
proof fn lemma_ceil_div_unique(height: int, size: int, n: int)
    requires
        height >= 1,
        size >= 1,
        n >= 0,
        (n - 1) * size < height,
        height <= n * size,
    ensures
        n == chunk_count_spec(height, size),
{
    lemma_fundamental_div_mod(height, size);
    lemma_mod_bound(height, size);
    let q = height / size;
    let r = height % size;
    if r == 0 {
        assert(n == q) by (nonlinear_arith)
            requires
                height == size * q,
                height >= 1,
                size >= 1,
                (n - 1) * size < height,
                height <= n * size,
        ;
    } else {
        assert(n == q + 1) by (nonlinear_arith)
            requires
                height == size * q + r,
                height >= 1,
                size >= 1,
                1 <= r < size,
                (n - 1) * size < height,
                height <= n * size,
        ;
    }
}

/// The number of rows each chunk of the plan covers (the last one may
/// cover fewer).
pub fn chunk_size(height: u32, workers: u32) -> (s: u32)
    requires
        height >= 1,
        workers >= 1,
    ensures
        s as int == chunk_size_spec(height as int, workers as int),
        1 <= s <= height,
{
    proof {
        lemma_chunk_size_bounds(height as int, workers as int);
    }
    let q = height / workers;
    let r = height % workers;
    if r == 0 {
        q
    } else {
        q + 1
    }
}

/// Partitions the rows `0..height` into the plan's contiguous chunks:
/// each covers `chunk_size` rows except possibly the last.
pub fn row_chunks(height: u32, workers: u32) -> (chunks: Vec<(u32, u32)>)
    requires
        height >= 1,
        workers >= 1,
    ensures
        chunks@ == plan_seq(height as int, workers as int),
{
    let size = chunk_size(height, workers);
    let ghost s = size as int;
    let ghost h = height as int;
    let mut chunks: Vec<(u32, u32)> = Vec::new();
    let mut start: u32 = 0;
    proof {
        assert(chunks@.len() * s == 0) by (nonlinear_arith)
            requires
                chunks@.len() == 0,
        ;
    }
    while start < height
        invariant
            1 <= size <= height,
            s == size as int,
            h == height as int,
            s == chunk_size_spec(h, workers as int),
            start <= height,
            start as int == if chunks@.len() * s <= h {
                chunks@.len() * s
            } else {
                h
            },
            chunks@.len() >= 1 ==> (chunks@.len() - 1) * s < h,
            forall|k: int| 0 <= k < chunks@.len() ==> chunks@[k] == chunk_span(k, s, h),
        decreases height - start,
    {
        let ghost i = chunks@.len() as int;
        proof {
            assert(i * s <= h) by {
                if i * s > h {
                    assert(start == height);
                }
            }
            assert((i + 1) * s == i * s + s) by (nonlinear_arith);
        }
        let end = if height - start > size {
            start + size
        } else {
            height
        };
        assert(end as int == if (i + 1) * s <= h {
            (i + 1) * s
        } else {
            h
        });
        chunks.push((start, end));
        assert(chunks@[i] == chunk_span(i, s, h));
        start = end;
    }
    proof {
        let n = chunks@.len() as int;
        assert(n * s >= h) by {
            if n * s < h {
                assert(start as int == n * s);
            }
        }
        assert(n >= 1) by {
            if n == 0 {
                assert(n * s == 0) by (nonlinear_arith)
                    requires
                        n == 0,
                ;
            }
        }
        lemma_ceil_div_unique(h, s, n);
        assert(chunks@ =~= plan_seq(h, workers as int));
    }
    chunks
}

/// A sequence of row ranges that together tile `0..height`: the first
/// starts at row zero, each is nonempty, each begins where the one
/// before it ended, and the last ends at `height`.
pub open spec fn is_row_partition(chunks: Seq<(u32, u32)>, height: int) -> bool {
    &&& chunks.len() >= 1
    &&& chunks[0].0 == 0
    &&& chunks[chunks.len() - 1].1 == height
    &&& forall|k: int| 0 <= k < chunks.len() ==> (chunks[k].0 as int) < (chunks[k].1 as int)
    &&& forall|k: int| 0 <= k < chunks.len() - 1 ==> chunks[k].1 == chunks[k + 1].0
}

/// The plan for any worker count is a partition of the image's rows.
pub proof fn lemma_plan_is_partition(height: int, workers: int)
    requires
        1 <= height <= u32::MAX,
        workers >= 1,
    ensures
        is_row_partition(plan_seq(height, workers), height),
{
    lemma_chunk_size_bounds(height, workers);
    let s = chunk_size_spec(height, workers);
    let c = chunk_count_spec(height, s);
    let plan = plan_seq(height, workers);
    lemma_fundamental_div_mod(height, s);
    lemma_mod_bound(height, s);
    let q = height / s;
    let r = height % s;
    assert(c >= 1 && (c - 1) * s < height && height <= c * s) by (nonlinear_arith)
        requires
            height == s * q + r,
            0 <= r < s,
            1 <= s <= height,
            c == if r == 0 {
                q
            } else {
                q + 1
            },
    ;
    assert forall|k: int| 0 <= k < c implies {
        &&& (#[trigger] plan[k].0 as int) == k * s
        &&& (plan[k].1 as int) == (if (k + 1) * s <= height {
            (k + 1) * s
        } else {
            height
        })
        &&& (plan[k].0 as int) < (plan[k].1 as int)
    } by {
        assert(0 <= k * s && k * s < height && k * s + s == (k + 1) * s) by (nonlinear_arith)
            requires
                0 <= k <= c - 1,
                (c - 1) * s < height,
                s >= 1,
        ;
    }
    assert(plan[0].0 as int == 0 * s) by {
        assert(0 * s == 0) by (nonlinear_arith);
    }
    assert(plan[c - 1].1 as int == height) by {
        assert((c - 1) * s + s == c * s) by (nonlinear_arith);
    }
    assert forall|k: int| 0 <= k < c - 1 implies #[trigger] plan[k].1 == plan[k + 1].0 by {
        assert((k + 1) * s <= (c - 1) * s) by (nonlinear_arith)
            requires
                k + 1 <= c - 1,
                s >= 1,
                0 <= k,
        ;
        assert(k * s + s == (k + 1) * s) by (nonlinear_arith);
    }
}

/// Validates the snapshot's dimensions and lays out the row chunks a
/// render of it fans out to. Rejects a zero width or height with
/// `InvalidConfiguration`; any other snapshot gets a plan.
pub fn render_plan(state: &ViewportState, workers: u32) -> (r: Result<Vec<(u32, u32)>, RenderError>)
    requires
        workers >= 1,
    ensures
        r is Ok <==> state.dims_valid(),
        r is Err ==> r->Err_0 == RenderError::InvalidConfiguration,
        r is Ok ==> r->Ok_0@ == plan_seq(state.height as int, workers as int) && is_row_partition(
            r->Ok_0@,
            state.height as int,
        ),
{
    match state.validate() {
        Err(e) => Err(e),
        Ok(()) => {
            let chunks = row_chunks(state.height, workers);
            proof {
                lemma_plan_is_partition(state.height as int, workers as int);
            }
            Ok(chunks)
        },
    }
}

/// A finished render: a row-major grid of colors, `width * height`
/// pixels, owned by the caller.
pub struct RenderedImage {
    pub width: u32,
    pub height: u32,
    pub pixels: Vec<Rgb>,
}

impl RenderedImage {
    /// The buffer holds exactly one color per pixel.
    pub open spec fn wf(self) -> bool {
        self.pixels@.len() == self.width as int * self.height as int
    }

    /// The color at pixel `(x, y)` in the row-major buffer.
    pub open spec fn spec_pixel(self, x: int, y: int) -> Rgb {
        self.pixels@[y * self.width as int + x]
    }

    /// Reads the color of pixel `(x, y)`.
    pub fn pixel(&self, x: u32, y: u32) -> (c: Rgb)
        requires
            self.wf(),
            x < self.width,
            y < self.height,
        ensures
            c == self.spec_pixel(x as int, y as int),
    {
        let n = self.pixels.len();
        proof {
            assert(0 <= (y as int) * (self.width as int) && (y as int) * (self.width as int) + (x
                as int) < (self.height as int) * (self.width as int)) by (nonlinear_arith)
                requires
                    0 <= (x as int) && (x as int) < (self.width as int),
                    0 <= (y as int) && (y as int) < (self.height as int),
            ;
            assert((self.width as int) * (self.height as int) == (self.height as int) * (self.width
                as int)) by (nonlinear_arith);
        }
        let idx = (y as usize) * (self.width as usize) + (x as usize);
        self.pixels[idx]
    }
}

/// The abstract contents of a list of pixel buffers.
pub open spec fn part_views(parts: Seq<Vec<Rgb>>) -> Seq<Seq<Rgb>> {
    parts.map_values(|p: Vec<Rgb>| p@)
}

/// The per-chunk slices a row partition cuts a row-major pixel sequence
/// into.
pub open spec fn chunk_slices(colors: Seq<Rgb>, chunks: Seq<(u32, u32)>, width: int) -> Seq<
    Seq<Rgb>,
> {
    Seq::new(
        chunks.len(),
        |k: int| colors.subrange(chunks[k].0 as int * width, chunks[k].1 as int * width),
    )
}

/// Concatenating buffers whose lengths follow a consecutive row layout
/// yields one buffer per pixel of the covered rows.
proof fn lemma_flatten_len_of_layout(parts: Seq<Seq<Rgb>>, chunks: Seq<(u32, u32)>, width: int)
    requires
        width >= 0,
        parts.len() == chunks.len(),
        chunks.len() >= 1,
        forall|k: int| 0 <= k < chunks.len() ==> chunks[k].0 <= chunks[k].1,
        forall|k: int|
            0 <= k < chunks.len() ==> (#[trigger] parts[k].len()) == (chunks[k].1 - chunks[k].0)
                * width,
        forall|k: int| 0 <= k < chunks.len() - 1 ==> (#[trigger] chunks[k].1) == chunks[k + 1].0,
    ensures
        parts.flatten().len() == (chunks[chunks.len() - 1].1 - chunks[0].0) * width,
    decreases parts.len(),
{
    if parts.len() == 1 {
        parts.lemma_flatten_one_element();
    } else {
        let prest = parts.drop_first();
        let crest = chunks.drop_first();
        lemma_flatten_len_of_layout(prest, crest, width);
        assert(parts.flatten() == parts.first() + prest.flatten());
        let a = chunks[0].0 as int;
        let b = chunks[0].1 as int;
        let c = chunks[chunks.len() - 1].1 as int;
        assert(crest[0] == chunks[1]);
        assert((b - a) * width + (c - b) * width == (c - a) * width) by (nonlinear_arith);
    }
}

/// Cutting a pixel sequence along a consecutive chunk layout and
/// flattening the pieces restores the covered span.
proof fn lemma_slices_reassemble(colors: Seq<Rgb>, chunks: Seq<(u32, u32)>, width: int)
    requires
        width >= 1,
        chunks.len() >= 1,
        forall|k: int| 0 <= k < chunks.len() ==> chunks[k].0 <= chunks[k].1,
        forall|k: int| 0 <= k < chunks.len() - 1 ==> (#[trigger] chunks[k].1) == chunks[k + 1].0,
        chunks[chunks.len() - 1].1 as int * width <= colors.len(),
    ensures
        chunks[0].0 <= chunks[chunks.len() - 1].1,
        chunk_slices(colors, chunks, width).flatten() == colors.subrange(
            chunks[0].0 as int * width,
            chunks[chunks.len() - 1].1 as int * width,
        ),
    decreases chunks.len(),
{
    let slices = chunk_slices(colors, chunks, width);
    if chunks.len() == 1 {
        slices.lemma_flatten_one_element();
    } else {
        let crest = chunks.drop_first();
        lemma_slices_reassemble(colors, crest, width);
        assert(chunk_slices(colors, crest, width) =~= slices.drop_first());
        assert(slices.flatten() == slices.first() + slices.drop_first().flatten());
        let a = chunks[0].0 as int * width;
        let b = chunks[0].1 as int * width;
        let c = chunks[chunks.len() - 1].1 as int * width;
        assert(crest[0] == chunks[1] && crest[crest.len() - 1] == chunks[chunks.len() - 1]);
        assert(0 <= a <= b <= c) by (nonlinear_arith)
            requires
                width >= 1,
                a == chunks[0].0 as int * width,
                b == chunks[0].1 as int * width,
                c == chunks[chunks.len() - 1].1 as int * width,
                0 <= chunks[0].0 <= chunks[0].1 <= chunks[chunks.len() - 1].1,
        ;
        assert(colors.subrange(a, b) + colors.subrange(b, c) =~= colors.subrange(a, c));
    }
}

/// Scattering a render into per-chunk buffers and reassembling them
/// restores the row-major pixel sequence, for every row partition.
pub proof fn lemma_partition_reassembles(
    colors: Seq<Rgb>,
    chunks: Seq<(u32, u32)>,
    width: int,
    height: int,
)
    requires
        width >= 1,
        height >= 1,
        is_row_partition(chunks, height),
        colors.len() == height * width,
    ensures
        chunk_slices(colors, chunks, width).flatten() == colors,
{
    lemma_slices_reassemble(colors, chunks, width);
    assert(chunks[0].0 as int * width == 0) by (nonlinear_arith)
        requires
            chunks[0].0 as int == 0,
    ;
    assert(colors.subrange(0, colors.len() as int) =~= colors);
}

/// Rendering is deterministic: two renders of one snapshot lay out the
/// same plan (the plan is a function of the height and the worker
/// count), and on the same per-pixel colors both reassemble to exactly
/// that pixel sequence.
pub proof fn lemma_render_deterministic(
    colors: Seq<Rgb>,
    chunks1: Seq<(u32, u32)>,
    chunks2: Seq<(u32, u32)>,
    width: int,
    height: int,
    workers: int,
)
    requires
        width >= 1,
        1 <= height <= u32::MAX,
        workers >= 1,
        colors.len() == height * width,
        chunks1 == plan_seq(height, workers),
        chunks2 == plan_seq(height, workers),
    ensures
        chunks1 == chunks2,
        chunk_slices(colors, chunks1, width).flatten() == chunk_slices(
            colors,
            chunks2,
            width,
        ).flatten(),
        chunk_slices(colors, chunks1, width).flatten() == colors,
{
    lemma_plan_is_partition(height, workers);
    lemma_partition_reassembles(colors, chunks1, width, height);
}

/// The assembled image is the same whichever of two worker counts the
/// render fanned out to: both plans cut the same row-major pixel
/// sequence, and both reassemble to exactly it.
pub proof fn lemma_parallel_invariance(
    colors: Seq<Rgb>,
    width: int,
    height: int,
    workers1: int,
    workers2: int,
)
    requires
        width >= 1,
        1 <= height <= u32::MAX,
        workers1 >= 1,
        workers2 >= 1,
        colors.len() == height * width,
    ensures
        chunk_slices(colors, plan_seq(height, workers1), width).flatten() == chunk_slices(
            colors,
            plan_seq(height, workers2),
            width,
        ).flatten(),
        chunk_slices(colors, plan_seq(height, workers1), width).flatten() == colors,
{
    lemma_plan_is_partition(height, workers1);
    lemma_plan_is_partition(height, workers2);
    lemma_partition_reassembles(colors, plan_seq(height, workers1), width, height);
    lemma_partition_reassembles(colors, plan_seq(height, workers2), width, height);
}

/// Each pixel coordinate is filled exactly once, by the one chunk whose
/// row range covers it: at pixel `(x, y)` with `y` in chunk `k`, the
/// assembled row-major buffer reads chunk `k`'s own entry for it.
pub proof fn lemma_assembly_places_pixels(
    parts: Seq<Seq<Rgb>>,
    chunks: Seq<(u32, u32)>,
    width: int,
    height: int,
    k: int,
    x: int,
    y: int,
)
    requires
        width >= 1,
        is_row_partition(chunks, height),
        parts.len() == chunks.len(),
        forall|j: int|
            0 <= j < chunks.len() ==> (#[trigger] parts[j].len()) == (chunks[j].1 - chunks[j].0)
                * width,
        0 <= k < chunks.len(),
        chunks[k].0 <= y < chunks[k].1,
        0 <= x < width,
    ensures
        parts.flatten()[y * width + x] == parts[k][(y - chunks[k].0) * width + x],
{
    let prefix = parts.subrange(0, k);
    let suffix = parts.subrange(k, parts.len() as int);
    assert(prefix + suffix =~= parts);
    lemma_flatten_concat(prefix, suffix);
    let base = chunks[k].0 as int * width;
    assert(prefix.flatten().len() == base) by {
        if k == 0 {
            assert(0 * width == 0) by (nonlinear_arith);
        } else {
            let cpre = chunks.subrange(0, k);
            lemma_flatten_len_of_layout(prefix, cpre, width);
            assert(cpre[k - 1] == chunks[k - 1] && chunks[k - 1].1 == chunks[k].0);
        }
    }
    assert(suffix.flatten() == suffix.first() + suffix.drop_first().flatten());
    let o = (y - chunks[k].0) * width + x;
    assert(y * width + x == base + o && 0 <= o && o < (chunks[k].1 - chunks[k].0) * width)
        by (nonlinear_arith)
        requires
            base == chunks[k].0 as int * width,
            o == (y - chunks[k].0) * width + x,
            chunks[k].0 <= y < chunks[k].1,
            0 <= x < width,
    ;
    assert(parts.flatten()[base + o] == suffix.flatten()[o]);
    assert(suffix.flatten()[o] == parts[k][o]);
}

/// Joins the chunks' finished buffers into the output image, in chunk
/// order: the assembled buffer is their concatenation, and (by
/// `lemma_assembly_places_pixels`) chunk `k`'s buffer fills exactly the
/// rows its plan entry covers.
pub fn assemble_image(
    width: u32,
    height: u32,
    chunks: &Vec<(u32, u32)>,
    parts: &Vec<Vec<Rgb>>,
) -> (img: RenderedImage)
    requires
        width >= 1,
        height >= 1,
        is_row_partition(chunks@, height as int),
        parts@.len() == chunks@.len(),
        forall|k: int|
            0 <= k < chunks@.len() ==> (#[trigger] parts@[k]@.len()) == (chunks@[k].1
                - chunks@[k].0) * width,
    ensures
        img.width == width,
        img.height == height,
        img.pixels@ == part_views(parts@).flatten(),
        img.wf(),
{
    let mut pixels: Vec<Rgb> = Vec::new();
    let mut k: usize = 0;
    while k < parts.len()
        invariant
            parts@.len() == chunks@.len(),
            k <= parts@.len(),
            pixels@ == part_views(parts@.subrange(0, k as int)).flatten(),
        decreases parts@.len() - k,
    {
        let part = &parts[k];
        let mut j: usize = 0;
        while j < part.len()
            invariant
                j <= part@.len(),
                part == &parts[k as int],
                k < parts@.len(),
                pixels@ == part_views(parts@.subrange(0, k as int)).flatten() + part@.subrange(
                    0,
                    j as int,
                ),
            decreases part@.len() - j,
        {
            pixels.push(part[j]);
            proof {
                assert(part@.subrange(0, j as int).push(part@[j as int]) =~= part@.subrange(
                    0,
                    j as int + 1,
                ));
            }
            j = j + 1;
        }
        proof {
            let prefix = part_views(parts@.subrange(0, k as int));
            let single = seq![parts@[k as int]@];
            lemma_flatten_concat(prefix, single);
            single.lemma_flatten_one_element();
            assert(part@.subrange(0, part@.len() as int) =~= part@);
            assert(part_views(parts@.subrange(0, k as int + 1)) =~= prefix + single);
        }
        k = k + 1;
    }
    proof {
        assert(parts@.subrange(0, parts@.len() as int) =~= parts@);
        lemma_flatten_len_of_layout(part_views(parts@), chunks@, width as int);
        assert((chunks@[chunks@.len() - 1].1 - chunks@[0].0) * width == width as int * height
            as int) by (nonlinear_arith)
            requires
                chunks@[chunks@.len() - 1].1 == height,
                chunks@[0].0 == 0,
        ;
    }
    RenderedImage { width, height, pixels }
}

/// Relies on num_cpus::get: the number of logical CPUs the process
/// sees. Nothing is assumed of the value; callers clamp it themselves.
#[verifier::external_body]
fn cpu_count() -> usize {
    num_cpus::get()
}

/// The worker count a render fans out to: the logical CPU count, read
/// once at process start, clamped to at least one worker.
pub fn effective_worker_count() -> (n: u32)
    ensures
        n >= 1,
{
    let c = cpu_count();
    if c == 0 {
        1
    } else if c >= u32::MAX as usize {
        u32::MAX
    } else {
        c as u32
    }
}

} // verus!
