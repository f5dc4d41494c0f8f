use vstd::prelude::*;

use crate::canvas::{apply_resize, CanvasState};
use crate::color::Color;
use crate::function::{models, total, FunctionCanvasPivot, FunctionValueProvider};

verus! {

/// The background color's packed bytes: opaque white.
pub open spec fn background() -> Seq<u8> {
    seq![255u8, 255u8, 255u8, 255u8]
}

/// The foreground color's packed bytes: opaque red.
pub open spec fn foreground() -> Seq<u8> {
    seq![255u8, 0u8, 0u8, 255u8]
}

/// The 4 framebuffer bytes of the pixel in column `i`, row `y`, for a
/// row-major RGBA buffer of pixel width `w`.
pub open spec fn pixel_at(frame: Seq<u8>, w: u32, i: int, y: int) -> Seq<u8> {
    frame.subrange(4 * (y * (w as int) + i), 4 * (y * (w as int) + i) + 4)
}

/// The screen row that column `i` maps to under the plotted function `g` and
/// pivot `(px, py)`: the domain value is `i - px`, and the row is the
/// function's value minus `py`, with the standard top-left origin (rows grow
/// downward). A row outside `[0, height)` is clipped, never drawn.
pub open spec fn lit_row(g: spec_fn(i64) -> i64, px: i32, py: i32, i: int) -> int {
    g((i - px) as i64) - py
}

/// Whether the sweep lights the pixel at column `i`, row `y`. The sweep runs
/// over the half-open column range `[0, w - 1)`, deliberately excluding the
/// last column.
pub open spec fn is_lit(g: spec_fn(i64) -> i64, px: i32, py: i32, w: u32, i: int, y: int) -> bool {
    &&& i + 1 < w
    &&& lit_row(g, px, py, i) == y
}

/// What one full draw leaves in the framebuffer, for a function modeled by
/// `g`: every lit pixel holds the foreground bytes, every other pixel the
/// background bytes.
pub open spec fn draw_result(
    frame: Seq<u8>,
    g: spec_fn(i64) -> i64,
    px: i32,
    py: i32,
    w: u32,
    h: u32,
) -> bool {
    &&& frame.len() == 4 * (w as int) * (h as int)
    &&& forall|i: int, y: int|
        0 <= i < w && 0 <= y < h ==> #[trigger] pixel_at(frame, w, i, y) == (if is_lit(
            g,
            px,
            py,
            w,
            i,
            y,
        ) {
            foreground()
        } else {
            background()
        })
}

/// A buffer whose bytes repeat a 4-byte pattern holds that pattern at every
/// pixel position.
proof fn lemma_pattern_pixels(frame: Seq<u8>, w: u32, h: u32, pat: Seq<u8>)
    requires
        pat.len() == 4,
        frame.len() == 4 * (w as int) * (h as int),
        forall|k: int| 0 <= k < frame.len() ==> frame[k] == pat[k % 4],
    ensures
        forall|i: int, y: int|
            0 <= i < w && 0 <= y < h ==> #[trigger] pixel_at(frame, w, i, y) == pat,
{
    assert forall|i: int, y: int|
        0 <= i < w && 0 <= y < h implies #[trigger] pixel_at(frame, w, i, y) == pat by {
        lemma_pixel_bounds(w, h, i, y);
        let base = 4 * (y * (w as int) + i);
        assert forall|j: int| 0 <= j < 4 implies frame[base + j] == pat[j] by {
            assert((base + j) % 4 == j) by (nonlinear_arith)
                requires
                    base == 4 * (y * (w as int) + i),
                    0 <= j < 4,
            ;
        }
        assert(pixel_at(frame, w, i, y) =~= pat);
    }
}

/// The byte range of the pixel at column `i`, row `y` lies inside the buffer.
proof fn lemma_pixel_bounds(w: u32, h: u32, i: int, y: int)
    requires
        0 <= i < w,
        0 <= y < h,
    ensures
        0 <= 4 * (y * (w as int) + i),
        4 * (y * (w as int) + i) + 4 <= 4 * (w as int) * (h as int),
{
    assert(0 <= 4 * (y * (w as int) + i) && 4 * (y * (w as int) + i) + 4 <= 4 * (w as int) * (h
        as int)) by (nonlinear_arith)
        requires
            0 <= i < w,
            0 <= y < h,
    ;
}

/// Distinct pixel positions occupy disjoint byte ranges: a change confined to
/// one pixel's 4 bytes leaves every other pixel's bytes as they were.
proof fn lemma_pixel_framing(f1: Seq<u8>, f2: Seq<u8>, w: u32, h: u32, i: int, y: int)
    requires
        f1.len() == 4 * (w as int) * (h as int),
        f2.len() == f1.len(),
        0 <= i < w,
        0 <= y < h,
        forall|k: int|
            0 <= k < f2.len() && !(4 * (y * (w as int) + i) <= k < 4 * (y * (w as int) + i) + 4)
                ==> f2[k] == f1[k],
    ensures
        forall|c: int, z: int|
            0 <= c < w && 0 <= z < h && (c != i || z != y) ==> #[trigger] pixel_at(f2, w, c, z)
                == pixel_at(f1, w, c, z),
{
    let p = y * (w as int) + i;
    assert forall|c: int, z: int|
        0 <= c < w && 0 <= z < h && (c != i || z != y) implies #[trigger] pixel_at(f2, w, c, z)
        == pixel_at(f1, w, c, z) by {
        lemma_pixel_bounds(w, h, c, z);
        lemma_pixel_bounds(w, h, i, y);
        let q = z * (w as int) + c;
        assert(q != p) by (nonlinear_arith)
            requires
                p == y * (w as int) + i,
                q == z * (w as int) + c,
                0 <= i < w,
                0 <= y < h,
                0 <= c < w,
                0 <= z < h,
                c != i || z != y,
        ;
        assert(4 * q + 4 <= 4 * p || 4 * p + 4 <= 4 * q);
        assert(pixel_at(f2, w, c, z) =~= pixel_at(f1, w, c, z));
    }
}

/// Fills the whole framebuffer with the packed bytes of `color`, repeated
/// byte-for-byte over the buffer in one pass.
pub fn clear(frame: &mut Vec<u8>, color: Color)
    ensures
        final(frame)@.len() == old(frame)@.len(),
        forall|k: int| 0 <= k < final(frame)@.len() ==> final(frame)@[k] == color.bytes()[k % 4],
{
    let pat = color.to_u8_slice();
    let n = frame.len();
    let mut k: usize = 0;
    while k < n
        invariant
            n == frame@.len(),
            k <= n,
            pat@ == color.bytes(),
            forall|j: int| 0 <= j < k ==> frame@[j] == color.bytes()[j % 4],
        decreases n - k,
    {
        frame.set(k, pat[k % 4]);
        k = k + 1;
    }
}

/// Overwrites the 4 bytes of the pixel at column `x`, row `y` with the packed
/// bytes of `color`; no other byte of the framebuffer changes.
pub fn draw_pixel(x: u32, y: u32, color: Color, frame: &mut Vec<u8>, state: &CanvasState)
    requires
        old(frame)@.len() == 4 * (state.width as int) * (state.height as int),
        x < state.width,
        y < state.height,
    ensures
        final(frame)@.len() == old(frame)@.len(),
        pixel_at(final(frame)@, state.width, x as int, y as int) == color.bytes(),
        forall|k: int|
            0 <= k < final(frame)@.len() && !(4 * ((y as int) * (state.width as int) + (x as int))
                <= k < 4 * ((y as int) * (state.width as int) + (x as int)) + 4) ==> final(frame)@[k]
                == old(frame)@[k],
{
    let n = frame.len();
    proof {
        lemma_pixel_bounds(state.width, state.height, x as int, y as int);
        assert((y as int) * (state.width as int) >= 0 && (state.width as int) * (state.height
            as int) >= 0) by (nonlinear_arith);
    }
    let pat = color.to_u8_slice();
    let pixel: usize = (x as usize) + (y as usize) * (state.width as usize);
    let idx: usize = 4 * pixel;
    frame.set(idx, pat[0]);
    frame.set(idx + 1, pat[1]);
    frame.set(idx + 2, pat[2]);
    frame.set(idx + 3, pat[3]);
    proof {
        assert(pixel_at(frame@, state.width, x as int, y as int) =~= color.bytes());
    }
}

/// The framebuffer after the sweep has handled the first `n` columns: a pixel
/// in a handled column is foreground exactly when it is lit, and every other
/// pixel still holds the background.
spec fn render_upto(
    frame: Seq<u8>,
    g: spec_fn(i64) -> i64,
    px: i32,
    py: i32,
    w: u32,
    h: u32,
    n: int,
) -> bool {
    forall|c: int, y: int|
        0 <= c < w && 0 <= y < h ==> #[trigger] pixel_at(frame, w, c, y) == (if c < n && is_lit(
            g,
            px,
            py,
            w,
            c,
            y,
        ) {
            foreground()
        } else {
            background()
        })
}

/// One full frame: clears the framebuffer to opaque white, then sweeps the
/// columns `[0, width - 1)`, evaluating the provider at `i - pivot.x` per
/// column `i` and lighting the pixel at row `value - pivot.y` in opaque red
/// whenever that row lies inside `[0, height)`; out-of-range rows are clipped,
/// never written. For every mathematical model `g` of the provider the
/// resulting framebuffer is pinned down pixel for pixel.
pub fn draw<T: Fn(i64) -> i64>(
    provider: &FunctionValueProvider<T>,
    state: &CanvasState,
    pivot: &FunctionCanvasPivot,
    frame: &mut Vec<u8>,
)
    requires
        old(frame)@.len() == 4 * (state.width as int) * (state.height as int),
        total(provider.wrapped()),
    ensures
        final(frame)@.len() == old(frame)@.len(),
        forall|g: spec_fn(i64) -> i64| #[trigger] models(provider.wrapped(), g) ==> draw_result(
            final(frame)@,
            g,
            pivot.x,
            pivot.y,
            state.width,
            state.height,
        ),
{
    let w = state.width;
    let h = state.height;
    let bg = Color::rgb(255, 255, 255);
    clear(frame, bg);
    proof {
        assert(bg.bytes() =~= background());
        lemma_pattern_pixels(frame@, w, h, background());
    }
    if w == 0 {
        return;
    }
    let py64: i64 = pivot.y as i64;
    let hi: i64 = py64 + (h as i64);
    let mut i: u32 = 0;
    while i < w - 1
        invariant
            1 <= w,
            i <= w - 1,
            w == state.width,
            h == state.height,
            py64 == pivot.y as i64,
            hi == py64 + h as i64,
            frame@.len() == 4 * (w as int) * (h as int),
            total(provider.wrapped()),
            forall|g: spec_fn(i64) -> i64| #[trigger] models(provider.wrapped(), g)
                ==> render_upto(frame@, g, pivot.x, pivot.y, w, h, i as int),
        decreases w - 1 - i,
    {
        let x: i64 = (i as i64) - (pivot.x as i64);
        let v: i64 = provider.get(x);
        let ghost pre = frame@;
        if py64 <= v && v < hi {
            let row: u32 = (v - py64) as u32;
            let fg = Color::rgb(255, 0, 0);
            draw_pixel(i, row, fg, frame, state);
            proof {
                assert(fg.bytes() =~= foreground());
                lemma_pixel_framing(pre, frame@, w, h, i as int, row as int);
                assert forall|g: spec_fn(i64) -> i64| #[trigger] models(
                    provider.wrapped(),
                    g,
                ) implies render_upto(frame@, g, pivot.x, pivot.y, w, h, i as int + 1) by {
                    assert(v == g(x));
                    assert(lit_row(g, pivot.x, pivot.y, i as int) == row as int);
                    assert forall|c: int, y: int| 0 <= c < w && 0 <= y < h implies #[trigger]
                    pixel_at(frame@, w, c, y) == (if c < i as int + 1 && is_lit(
                        g,
                        pivot.x,
                        pivot.y,
                        w,
                        c,
                        y,
                    ) {
                        foreground()
                    } else {
                        background()
                    }) by {
                        if c == i as int && y == row as int {
                        } else {
                            assert(pixel_at(frame@, w, c, y) == pixel_at(pre, w, c, y));
                        }
                    }
                }
            }
        } else {
            proof {
                assert forall|g: spec_fn(i64) -> i64| #[trigger] models(
                    provider.wrapped(),
                    g,
                ) implies render_upto(frame@, g, pivot.x, pivot.y, w, h, i as int + 1) by {
                    assert(v == g(x));
                    assert(lit_row(g, pivot.x, pivot.y, i as int) == v - pivot.y);
                }
            }
        }
        i = i + 1;
    }
    proof {
        assert forall|g: spec_fn(i64) -> i64| #[trigger] models(
            provider.wrapped(),
            g,
        ) implies draw_result(frame@, g, pivot.x, pivot.y, state.width, state.height) by {
            assert(render_upto(frame@, g, pivot.x, pivot.y, w, h, i as int));
            assert forall|c: int, y: int| 0 <= c < w && 0 <= y < h implies #[trigger] pixel_at(
                frame@,
                w,
                c,
                y,
            ) == (if is_lit(g, pivot.x, pivot.y, w, c, y) {
                foreground()
            } else {
                background()
            }) by {
                assert(pixel_at(frame@, w, c, y) == (if c < i as int && is_lit(
                    g,
                    pivot.x,
                    pivot.y,
                    w,
                    c,
                    y,
                ) {
                    foreground()
                } else {
                    background()
                }));
            }
        }
    }
}

/// One host tick: the latest resize notification (if any) is applied to the
/// canvas state and the framebuffer first, and only then is the frame drawn,
/// so the sweep runs with exactly the freshly applied dimensions, never stale
/// ones.
pub fn tick<T: Fn(i64) -> i64>(
    provider: &FunctionValueProvider<T>,
    state: &mut CanvasState,
    pivot: &FunctionCanvasPivot,
    frame: &mut Vec<u8>,
    notifications: &Vec<(u32, u32)>,
)
    requires
        old(frame)@.len() == 4 * (old(state).width as int) * (old(state).height as int),
        total(provider.wrapped()),
        notifications@.len() > 0 ==> 4 * (notifications@.last().0 as int) * (
        notifications@.last().1 as int) <= usize::MAX,
    ensures
        notifications@.len() > 0 ==> final(state).width == notifications@.last().0
            && final(state).height == notifications@.last().1,
        notifications@.len() == 0 ==> final(state).width == old(state).width && final(state).height
            == old(state).height,
        final(frame)@.len() == 4 * (final(state).width as int) * (final(state).height as int),
        forall|g: spec_fn(i64) -> i64| #[trigger] models(provider.wrapped(), g) ==> draw_result(
            final(frame)@,
            g,
            pivot.x,
            pivot.y,
            final(state).width,
            final(state).height,
        ),
{
    apply_resize(state, frame, notifications);
    draw(provider, state, pivot, frame);
}

/// Clearing is idempotent under the sweep: a function whose value never lands
/// inside the canvas leaves every pixel of the drawn frame equal to the
/// background color.
pub proof fn lemma_draw_all_background(
    frame: Seq<u8>,
    g: spec_fn(i64) -> i64,
    px: i32,
    py: i32,
    w: u32,
    h: u32,
)
    requires
        draw_result(frame, g, px, py, w, h),
        forall|i: int| 0 <= i < w ==> !(0 <= #[trigger] lit_row(g, px, py, i) < h),
    ensures
        forall|i: int, y: int|
            0 <= i < w && 0 <= y < h ==> #[trigger] pixel_at(frame, w, i, y) == background(),
        forall|k: int| 0 <= k < frame.len() ==> frame[k] == background()[k % 4],
{
    assert forall|i: int, y: int|
        0 <= i < w && 0 <= y < h implies #[trigger] pixel_at(frame, w, i, y) == background() by {
        assert(!(0 <= lit_row(g, px, py, i) < h));
        assert(!is_lit(g, px, py, w, i, y));
    }
    assert forall|k: int| 0 <= k < frame.len() implies frame[k] == background()[k % 4] by {
        let p = k / 4;
        let c = k % 4;
        let y = p / (w as int);
        let i = p % (w as int);
        assert(w > 0 && h > 0 && 0 <= i < w && 0 <= y < h && k == 4 * (y * (w as int) + i) + c && 0
            <= c < 4) by (nonlinear_arith)
            requires
                0 <= k < 4 * (w as int) * (h as int),
                p == k / 4,
                c == k % 4,
                y == p / (w as int),
                i == p % (w as int),
        ;
        lemma_pixel_bounds(w, h, i, y);
        assert(frame[k] == pixel_at(frame, w, i, y)[c]);
    }
}

/// Shifting the pivot by `dx` along the x-axis translates the plot by `dx`
/// columns: on an unbounded canvas, the row lit in column `i` after the shift
/// is the row that was lit in column `i - dx` before it, for every plotted
/// function.
pub proof fn lemma_pivot_shift(g: spec_fn(i64) -> i64, px: i32, py: i32, dx: int, i: int)
    requires
        i32::MIN <= px + dx <= i32::MAX,
    ensures
        lit_row(g, (px + dx) as i32, py, i) == lit_row(g, px, py, i - dx),
{
    assert(i - ((px + dx) as i32) == (i - dx) - px);
}

} // verus!
