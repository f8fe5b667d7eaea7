use vstd::prelude::*;

use crate::color::Rgb;
use crate::constants::{NUM_PALETTE_ENTRIES, NUM_SCREEN_PIXELS};
use crate::engine::{pixel_offset, Vfc};

verus! {

broadcast use vstd::array::group_array_axioms;

/// The packed ARGB values of a framebuffer, pixel by pixel.
pub fn as_argb_u32(framebuffer: &[Rgb; NUM_SCREEN_PIXELS]) -> (r: Vec<u32>)
    ensures
        r@.len() == NUM_SCREEN_PIXELS,
        forall|i: int| 0 <= i < NUM_SCREEN_PIXELS ==> #[trigger] r@[i] == framebuffer@[i].argb(),
{
    let mut r: Vec<u32> = Vec::new();
    let mut i: usize = 0;
    while i < NUM_SCREEN_PIXELS
        invariant
            i <= NUM_SCREEN_PIXELS,
            r@.len() == i,
            forall|k: int| 0 <= k < i ==> #[trigger] r@[k] == framebuffer@[k].argb(),
        decreases NUM_SCREEN_PIXELS - i,
    {
        r.push(framebuffer[i].as_argb_u32());
        i += 1;
    }
    r
}

/// Writes the packed ARGB values of a framebuffer into the front of
/// `target_buffer`, which must hold at least a screen's worth.
pub fn render_to_argb_u32(framebuffer: &[Rgb; NUM_SCREEN_PIXELS], target_buffer: &mut [u32])
    requires
        old(target_buffer)@.len() >= NUM_SCREEN_PIXELS,
    ensures
        final(target_buffer)@.len() == old(target_buffer)@.len(),
        forall|i: int| 0 <= i < NUM_SCREEN_PIXELS ==> #[trigger] final(target_buffer)@[i] == framebuffer@[i].argb(),
        forall|i: int|
            NUM_SCREEN_PIXELS <= i < old(target_buffer)@.len() ==> #[trigger] final(target_buffer)@[i]
                == old(target_buffer)@[i],
{
    let mut index: usize = 0;
    while index < NUM_SCREEN_PIXELS
        invariant
            index <= NUM_SCREEN_PIXELS,
            old(target_buffer)@.len() >= NUM_SCREEN_PIXELS,
            target_buffer@.len() == old(target_buffer)@.len(),
            forall|k: int| 0 <= k < index ==> #[trigger] target_buffer@[k] == framebuffer@[k].argb(),
            forall|k: int|
                index <= k < old(target_buffer)@.len() ==> #[trigger] target_buffer@[k] == old(
                    target_buffer,
                )@[k],
        decreases NUM_SCREEN_PIXELS - index,
    {
        target_buffer[index] = framebuffer[index].as_argb_u32();
        index += 1;
    }
}

/// Renders a frame and returns it as packed ARGB values.
pub fn next_frame(fc: &mut Vfc) -> (r: Vec<u32>)
    requires
        old(fc).background_color.0 < NUM_PALETTE_ENTRIES,
    ensures
        final(fc).same_scene(*old(fc)),
        r@.len() == NUM_SCREEN_PIXELS,
        forall|x: int, y: int|
            0 <= x < 192 && 0 <= y < 160 ==> #[trigger] r@[pixel_offset(x, y)] == old(fc).frame_color(
                x as u8,
                y as u8,
            ).argb(),
{
    fc.render_frame();
    let r = as_argb_u32(&fc.framebuffer);
    assert forall|x: int, y: int| 0 <= x < 192 && 0 <= y < 160 implies #[trigger] r@[pixel_offset(x, y)]
        == old(fc).frame_color(x as u8, y as u8).argb() by {
        assert(fc.framebuffer@[pixel_offset(x, y)] == old(fc).frame_color(x as u8, y as u8));
    }
    r
}

} // verus!
