use vstd::prelude::*;

verus! {

/// Wraps any capability "evaluate one integer-valued function of one integer
/// argument" behind a uniform interface, so the rasterizer is decoupled from
/// the particular function being plotted.
pub struct FunctionValueProvider<T> where T: Fn(i64) -> i64 {
    function: T,
}

impl<T> FunctionValueProvider<T> where T: Fn(i64) -> i64 {
    /// The wrapped callable.
    pub closed spec fn wrapped(self) -> T {
        self.function
    }

    pub fn new(function: T) -> (p: FunctionValueProvider<T>)
        ensures
            p.wrapped() == function,
    {
        FunctionValueProvider { function }
    }

    /// Evaluates the wrapped function at `x`. The provider adds nothing of its
    /// own: the result is exactly one the wrapped callable can return for `x`.
    pub fn get(&self, x: i64) -> (r: i64)
        requires
            call_requires(self.wrapped(), (x,)),
        ensures
            call_ensures(self.wrapped(), (x,), r),
    {
        (self.function)(x)
    }
}

/// The wrapped callable accepts every `i64` input.
pub open spec fn total<T: Fn(i64) -> i64>(f: T) -> bool {
    forall|x: i64| #[trigger] call_requires(f, (x,))
}

/// Every result the callable can return for `x` is `g(x)`: `g` is a full
/// mathematical model of the callable.
pub open spec fn models<T: Fn(i64) -> i64>(f: T, g: spec_fn(i64) -> i64) -> bool {
    forall|x: i64, r: i64| #[trigger] call_ensures(f, (x,), r) ==> r == g(x)
}

/// `x + d` clamped to the `i32` range.
pub open spec fn step_i32(x: int, d: int) -> int {
    if x + d > i32::MAX {
        i32::MAX as int
    } else if x + d < i32::MIN {
        i32::MIN as int
    } else {
        x + d
    }
}

/// The canvas-space point treated as the function's coordinate origin.
pub struct FunctionCanvasPivot {
    pub x: i32,
    pub y: i32,
}

impl FunctionCanvasPivot {
    pub fn new(x: i32, y: i32) -> (p: Self)
        ensures
            p.x == x,
            p.y == y,
    {
        FunctionCanvasPivot { x, y }
    }

    /// Replaces the x-coordinate, leaving y untouched.
    pub fn x(&mut self, x: i32)
        ensures
            final(self).x == x,
            final(self).y == old(self).y,
    {
        self.x = x;
    }

    /// Replaces the y-coordinate, leaving x untouched.
    pub fn y(&mut self, y: i32)
        ensures
            final(self).x == old(self).x,
            final(self).y == y,
    {
        self.y = y;
    }
}

/// `v + 5`, clamping at the top of the `i32` range instead of overflowing.
fn step_up(v: i32) -> (r: i32)
    ensures
        r as int == step_i32(v as int, 5),
{
    if v <= i32::MAX - 5 {
        v + 5
    } else {
        i32::MAX
    }
}

/// `v - 5`, clamping at the bottom of the `i32` range instead of overflowing.
fn step_down(v: i32) -> (r: i32)
    ensures
        r as int == step_i32(v as int, -5),
{
    if v >= i32::MIN + 5 {
        v - 5
    } else {
        i32::MIN
    }
}

/// Applies one tick of directional key input to the pivot. At most one axis
/// moves per tick, by a fixed 5-unit step that clamps at the `i32` bounds: the
/// A key wins over D, D over W, W over S, matching the host's key handling
/// order.
pub fn apply_input(
    pivot: &mut FunctionCanvasPivot,
    key_a: bool,
    key_d: bool,
    key_w: bool,
    key_s: bool,
)
    ensures
        key_a ==> final(pivot).x == step_i32(old(pivot).x as int, 5) && final(pivot).y == old(pivot).y,
        !key_a && key_d ==> final(pivot).x == step_i32(old(pivot).x as int, -5) && final(pivot).y
            == old(pivot).y,
        !key_a && !key_d && key_w ==> final(pivot).y == step_i32(old(pivot).y as int, -5)
            && final(pivot).x == old(pivot).x,
        !key_a && !key_d && !key_w && key_s ==> final(pivot).y == step_i32(old(pivot).y as int, 5)
            && final(pivot).x == old(pivot).x,
        !key_a && !key_d && !key_w && !key_s ==> final(pivot).x == old(pivot).x && final(pivot).y
            == old(pivot).y,
{
    if key_a {
        let x = step_up(pivot.x);
        pivot.x(x);
    } else if key_d {
        let x = step_down(pivot.x);
        pivot.x(x);
    } else if key_w {
        let y = step_down(pivot.y);
        pivot.y(y);
    } else if key_s {
        let y = step_up(pivot.y);
        pivot.y(y);
    }
}

} // verus!
