//! An RGBA byte image derived from the boolean pixel grid, ready for a
//! renderer to upload as a texture.

use vstd::prelude::*;

verus! {

use crate::display_buffer::DISPLAY_HEIGHT;
use crate::display_buffer::DISPLAY_WIDTH;
use crate::display_buffer::cell_index;

/// Bytes per pixel: R, G, B, A.
pub const PITCH_BYTES: usize = 4;

/// Byte offset of pixel (x, y) in the row-major RGBA image.
pub open spec fn byte_offset(x: int, y: int) -> int {
    x * (PITCH_BYTES as int) + y * ((DISPLAY_WIDTH * PITCH_BYTES) as int)
}

pub struct FrameBuffer {
    /// The RGBA image, one `PITCH_BYTES` group per pixel, rows of
    /// `DISPLAY_WIDTH` pixels.
    pub frame_buffer: Vec<u8>,
    /// The boolean grid the image is derived from, laid out as
    /// `cell_index` of the display buffer.
    pub toggle_buffer: Vec<bool>,
    /// RGBA bytes of an unlit pixel.
    pub off_color: [u8; 4],
    /// RGBA bytes of a lit pixel.
    pub on_color: [u8; 4],
}

impl FrameBuffer {
    pub open spec fn wf(&self) -> bool {
        &&& self.frame_buffer@.len() == DISPLAY_WIDTH * DISPLAY_HEIGHT * PITCH_BYTES
        &&& self.toggle_buffer@.len() == DISPLAY_WIDTH * DISPLAY_HEIGHT
    }

    /// A zeroed image over an all-false grid, with opaque black as the off
    /// color and opaque white as the on color.
    pub fn new() -> (r: FrameBuffer)
        ensures
            r.wf(),
            r.frame_buffer@ == Seq::new(
                (DISPLAY_WIDTH * DISPLAY_HEIGHT * PITCH_BYTES) as nat,
                |b: int| 0u8,
            ),
            r.toggle_buffer@ == Seq::new((DISPLAY_WIDTH * DISPLAY_HEIGHT) as nat, |c: int| false),
            r.off_color@ == seq![0u8, 0u8, 0u8, 255u8],
            r.on_color@ == seq![255u8, 255u8, 255u8, 255u8],
    {
        let mut frame_buffer: Vec<u8> = Vec::new();
        while frame_buffer.len() < DISPLAY_WIDTH * DISPLAY_HEIGHT * PITCH_BYTES
            invariant
                frame_buffer@ == Seq::new(frame_buffer@.len(), |b: int| 0u8),
                frame_buffer@.len() <= DISPLAY_WIDTH * DISPLAY_HEIGHT * PITCH_BYTES,
            decreases DISPLAY_WIDTH * DISPLAY_HEIGHT * PITCH_BYTES - frame_buffer@.len(),
        {
            frame_buffer.push(0u8);
            proof {
                assert(frame_buffer@ =~= Seq::new(frame_buffer@.len(), |b: int| 0u8));
            }
        }
        let mut toggle_buffer: Vec<bool> = Vec::new();
        while toggle_buffer.len() < DISPLAY_WIDTH * DISPLAY_HEIGHT
            invariant
                toggle_buffer@ == Seq::new(toggle_buffer@.len(), |c: int| false),
                toggle_buffer@.len() <= DISPLAY_WIDTH * DISPLAY_HEIGHT,
            decreases DISPLAY_WIDTH * DISPLAY_HEIGHT - toggle_buffer@.len(),
        {
            toggle_buffer.push(false);
            proof {
                assert(toggle_buffer@ =~= Seq::new(toggle_buffer@.len(), |c: int| false));
            }
        }
        FrameBuffer {
            frame_buffer,
            toggle_buffer,
            off_color: [0u8, 0u8, 0u8, 255u8],
            on_color: [255u8, 255u8, 255u8, 255u8],
        }
    }

    /// Blanks the grid and paints every pixel of the image with the off
    /// color.
    pub fn clear(&mut self)
        requires
            old(self).wf(),
        ensures
            final(self).wf(),
            final(self).toggle_buffer@ == Seq::new(
                (DISPLAY_WIDTH * DISPLAY_HEIGHT) as nat,
                |c: int| false,
            ),
            forall|b: int|
                0 <= b < DISPLAY_WIDTH * DISPLAY_HEIGHT * PITCH_BYTES
                    ==> final(self).frame_buffer@[b] == old(self).off_color@[b % (
                    PITCH_BYTES as int)],
            final(self).off_color == old(self).off_color,
            final(self).on_color == old(self).on_color,
    {
        let mut b: usize = 0;
        while b < DISPLAY_WIDTH * DISPLAY_HEIGHT * PITCH_BYTES
            invariant
                self.wf(),
                0 <= b <= DISPLAY_WIDTH * DISPLAY_HEIGHT * PITCH_BYTES,
                forall|j: int|
                    0 <= j < b ==> self.frame_buffer@[j] == self.off_color@[j % (
                    PITCH_BYTES as int)],
                self.off_color == old(self).off_color,
                self.on_color == old(self).on_color,
                self.toggle_buffer == old(self).toggle_buffer,
            decreases DISPLAY_WIDTH * DISPLAY_HEIGHT * PITCH_BYTES - b,
        {
            let color_byte = self.off_color[b % PITCH_BYTES];
            self.frame_buffer[b] = color_byte;
            b = b + 1;
        }
        let mut c: usize = 0;
        while c < DISPLAY_WIDTH * DISPLAY_HEIGHT
            invariant
                self.wf(),
                0 <= c <= DISPLAY_WIDTH * DISPLAY_HEIGHT,
                forall|j: int| 0 <= j < c ==> self.toggle_buffer@[j] == false,
                forall|j: int|
                    0 <= j < DISPLAY_WIDTH * DISPLAY_HEIGHT * PITCH_BYTES
                        ==> self.frame_buffer@[j] == self.off_color@[j % (PITCH_BYTES as int)],
                self.off_color == old(self).off_color,
                self.on_color == old(self).on_color,
            decreases DISPLAY_WIDTH * DISPLAY_HEIGHT - c,
        {
            self.toggle_buffer[c] = false;
            c = c + 1;
        }
        proof {
            assert(self.toggle_buffer@ =~= Seq::new(
                (DISPLAY_WIDTH * DISPLAY_HEIGHT) as nat,
                |c: int| false,
            ));
        }
    }

    /// Repaints the image bytes of pixel (x, y) from its grid cell: the on
    /// color for a set cell, the off color otherwise.  No other byte
    /// changes.
    pub fn update_frame_buffer(&mut self, x: usize, y: usize)
        requires
            old(self).wf(),
            x < DISPLAY_WIDTH,
            y < DISPLAY_HEIGHT,
        ensures
            final(self).wf(),
            final(self).toggle_buffer == old(self).toggle_buffer,
            final(self).off_color == old(self).off_color,
            final(self).on_color == old(self).on_color,
            forall|j: int|
                0 <= j < PITCH_BYTES ==> final(self).frame_buffer@[byte_offset(
                    x as int,
                    y as int,
                ) + j] == if old(self).toggle_buffer@[cell_index(x as int, y as int)] {
                    old(self).on_color@[j]
                } else {
                    old(self).off_color@[j]
                },
            forall|b: int|
                0 <= b < DISPLAY_WIDTH * DISPLAY_HEIGHT * PITCH_BYTES
                    && !(byte_offset(x as int, y as int) <= b < byte_offset(x as int, y as int)
                    + PITCH_BYTES) ==> final(self).frame_buffer@[b] == old(self).frame_buffer@[b],
    {
        proof {
            assert(DISPLAY_WIDTH * PITCH_BYTES == 256);
            assert(DISPLAY_WIDTH * DISPLAY_HEIGHT * PITCH_BYTES == 8192);
            assert(DISPLAY_WIDTH * DISPLAY_HEIGHT == 2048);
        }
        let offset = x * 4 + y * 256;
        let lit = self.toggle_buffer[x * DISPLAY_HEIGHT + y];
        let mut j: usize = 0;
        while j < PITCH_BYTES
            invariant
                self.wf(),
                0 <= j <= PITCH_BYTES,
                x < DISPLAY_WIDTH,
                y < DISPLAY_HEIGHT,
                offset == byte_offset(x as int, y as int),
                offset + PITCH_BYTES <= DISPLAY_WIDTH * DISPLAY_HEIGHT * PITCH_BYTES,
                lit == old(self).toggle_buffer@[cell_index(x as int, y as int)],
                self.toggle_buffer == old(self).toggle_buffer,
                self.off_color == old(self).off_color,
                self.on_color == old(self).on_color,
                forall|k: int|
                    0 <= k < j ==> self.frame_buffer@[offset + k] == if lit {
                        old(self).on_color@[k]
                    } else {
                        old(self).off_color@[k]
                    },
                forall|b: int|
                    0 <= b < DISPLAY_WIDTH * DISPLAY_HEIGHT * PITCH_BYTES
                        && !(offset <= b < offset + j) ==> self.frame_buffer@[b] == old(
                        self,
                    ).frame_buffer@[b],
            decreases PITCH_BYTES - j,
        {
            let color_byte = if lit {
                self.on_color[j]
            } else {
                self.off_color[j]
            };
            self.frame_buffer[offset + j] = color_byte;
            j = j + 1;
        }
    }
}

} // verus!
