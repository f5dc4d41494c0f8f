use vstd::prelude::*;

verus! {

/// The current drawable surface size in pixels. Updated only when a host
/// resize notification is applied, and read by the rasterizer; it must match
/// the allocated framebuffer before a draw runs.
pub struct CanvasState {
    pub width: u32,
    pub height: u32,
}

impl CanvasState {
    pub fn new(width: u32, height: u32) -> (s: Self)
        ensures
            s.width == width,
            s.height == height,
    {
        CanvasState { width, height }
    }

    pub fn set_width(&mut self, width: u32)
        ensures
            final(self).width == width,
            final(self).height == old(self).height,
    {
        self.width = width;
    }

    pub fn set_height(&mut self, height: u32)
        ensures
            final(self).width == old(self).width,
            final(self).height == height,
    {
        self.height = height;
    }
}

/// Replaces the framebuffer with a fresh, zeroed allocation sized for a
/// `width` x `height` canvas at 4 bytes per pixel.
pub fn resize_frame(frame: &mut Vec<u8>, width: u32, height: u32)
    requires
        4 * (width as int) * (height as int) <= usize::MAX,
    ensures
        final(frame)@.len() == 4 * (width as int) * (height as int),
        forall|k: int| 0 <= k < final(frame)@.len() ==> final(frame)@[k] == 0u8,
{
    proof {
        assert((width as int) * (height as int) >= 0 && 4 * ((width as int) * (height as int)) == 4
            * (width as int) * (height as int)) by (nonlinear_arith);
    }
    let wh: usize = (width as usize) * (height as usize);
    let n: usize = 4 * wh;
    let mut fresh: Vec<u8> = Vec::new();
    while fresh.len() < n
        invariant
            fresh@.len() <= n,
            forall|k: int| 0 <= k < fresh@.len() ==> fresh@[k] == 0u8,
        decreases n - fresh@.len(),
    {
        fresh.push(0u8);
    }
    *frame = fresh;
}

/// Consumes the resize notifications gathered during one tick. Only the most
/// recent one is applied: the backing framebuffer is reallocated for the new
/// dimensions and the canvas state is updated to them. With no notification,
/// state and framebuffer are left untouched.
pub fn apply_resize(state: &mut CanvasState, frame: &mut Vec<u8>, notifications: &Vec<(u32, u32)>)
    requires
        notifications@.len() > 0 ==> 4 * (notifications@.last().0 as int) * (
        notifications@.last().1 as int) <= usize::MAX,
    ensures
        notifications@.len() == 0 ==> final(state).width == old(state).width && final(state).height
            == old(state).height && final(frame)@ == old(frame)@,
        notifications@.len() > 0 ==> {
            &&& final(state).width == notifications@.last().0
            &&& final(state).height == notifications@.last().1
            &&& final(frame)@.len() == 4 * (final(state).width as int) * (final(state).height
                as int)
            &&& forall|k: int| 0 <= k < final(frame)@.len() ==> final(frame)@[k] == 0u8
        },
{
    if notifications.len() > 0 {
        let (width, height) = notifications[notifications.len() - 1];
        resize_frame(frame, width, height);
        state.set_width(width);
        state.set_height(height);
    }
}

} // verus!
