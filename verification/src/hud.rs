use vstd::prelude::*;

verus! {

/// Frames per second of the game loop.
pub const FRAMES_PER_SECOND: u32 = 60;

/// Whole seconds left in a countdown of `frames` frames, rounded up.
pub open spec fn seconds_left(frames: u32) -> int {
    (frames + FRAMES_PER_SECOND - 1) / (FRAMES_PER_SECOND as int)
}

/// The number shown during the countdown: the seconds left, rounded up.
pub fn countdown_seconds(frames: u32) -> (secs: u32)
    ensures
        secs == seconds_left(frames),
        secs * FRAMES_PER_SECOND >= frames,
        frames > 0 ==> (secs - 1) * FRAMES_PER_SECOND < frames,
{
    let q = frames / FRAMES_PER_SECOND;
    if frames % FRAMES_PER_SECOND == 0 {
        q
    } else {
        q + 1
    }
}

/// The 8-bit channel of `p` starting at bit `shift`.
pub open spec fn channel(p: u32, shift: u32) -> int {
    (p as int / pow2_of(shift)) % 256
}

pub open spec fn pow2_of(shift: u32) -> int {
    if shift == 16 {
        65536
    } else if shift == 8 {
        256
    } else {
        1
    }
}

/// A 0xRRGGBB pixel darkened to a third of its brightness: each colour
/// channel divided by three (rounded down), the top byte cleared.
pub open spec fn dimmed(p: u32) -> int {
    (channel(p, 16) / 3) * 65536 + (channel(p, 8) / 3) * 256 + channel(p, 0) / 3
}

/// Darkens one pixel behind the pause menu.
pub fn dim_pixel(p: u32) -> (d: u32)
    ensures
        d == dimmed(p),
        channel(d, 16) == channel(p, 16) / 3,
        channel(d, 8) == channel(p, 8) / 3,
        channel(d, 0) == channel(p, 0) / 3,
        d < 0x0100_0000,
{
    let r = (p >> 16u32) & 0xFFu32;
    let g = (p >> 8u32) & 0xFFu32;
    let b = p & 0xFFu32;
    let d = ((r / 3) << 16u32) | ((g / 3) << 8u32) | (b / 3);
    assert(d == ((((p >> 16u32) & 0xFFu32) / 3) << 16u32) | ((((p >> 8u32) & 0xFFu32) / 3) << 8u32) | ((p & 0xFFu32) / 3));
    assert(((((p >> 16u32) & 0xFFu32) / 3) << 16u32) | ((((p >> 8u32) & 0xFFu32) / 3) << 8u32) | ((p & 0xFFu32) / 3)
        == (((p / 65536) % 256) / 3) * 65536 + (((p / 256) % 256) / 3) * 256 + (p % 256) / 3) by (bit_vector);
    assert(((((p / 65536) % 256) / 3) * 65536 + (((p / 256) % 256) / 3) * 256 + (p % 256) / 3) < 0x0100_0000) by (bit_vector);
    assert((d / 65536) % 256 == ((p / 65536) % 256) / 3 && (d / 256) % 256 == ((p / 256) % 256) / 3
        && d % 256 == (p % 256) / 3) by (bit_vector)
        requires
            d == ((((p >> 16u32) & 0xFFu32) / 3) << 16u32) | ((((p >> 8u32) & 0xFFu32) / 3) << 8u32) | ((p & 0xFFu32) / 3);
    d
}

/// Darkens every pixel of the frame behind the pause menu.
pub fn dim_buffer(buffer: &mut Vec<u32>)
    ensures
        final(buffer)@.len() == old(buffer)@.len(),
        forall|i: int| 0 <= i < old(buffer)@.len() ==> #[trigger] final(buffer)@[i] == dimmed(old(buffer)@[i]),
{
    let n = buffer.len();
    let mut k: usize = 0;
    while k < n
        invariant
            0 <= k <= n,
            n == old(buffer)@.len(),
            buffer@.len() == n,
            forall|i: int| 0 <= i < k ==> #[trigger] buffer@[i] == dimmed(old(buffer)@[i]),
            forall|i: int| k <= i < n ==> #[trigger] buffer@[i] == old(buffer)@[i],
        decreases n - k,
    {
        let d = dim_pixel(buffer[k]);
        buffer.set(k, d);
        k = k + 1;
    }
}

} // verus!
