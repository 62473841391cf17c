use vstd::prelude::*;

verus! {

/// Bytes that encode one pixel: red, green, blue and alpha.
pub const BYTES_PER_PIXEL: usize = 4;

/// Row number that the first line of the frame stands for; each following
/// line is one row lower.
pub const TOP_ROW: i64 = 256;

/// Column and row of a pixel, as the camera reads them.
#[derive(Clone, Copy, Debug, PartialEq, Eq, Structural)]
pub struct PixelPos {
    pub x: u32,
    pub y: i64,
}

/// The position of the pixel with the given row-major index in a frame
/// `width` pixels wide.
pub open spec fn pixel_pos_of(index: int, width: int) -> PixelPos {
    PixelPos { x: (index % width) as u32, y: (TOP_ROW - index / width) as i64 }
}

/// Number of whole pixels that a frame of `len` bytes holds.
pub fn pixel_count(len: usize) -> (r: usize)
    ensures
        r == len / 4,
{
    len / BYTES_PER_PIXEL
}

/// Column `index mod width`, and row `TOP_ROW - index / width`, of the pixel
/// with the given row-major index.
pub fn pixel_position(index: usize, width: u32) -> (r: PixelPos)
    requires
        width > 0,
        (index as int) / (width as int) <= i64::MAX,
    ensures
        r == pixel_pos_of(index as int, width as int),
        r.x < width,
{
    let w = width as usize;
    let col = index % w;
    let row = index / w;
    PixelPos { x: col as u32, y: TOP_ROW - row as i64 }
}


/// The frame after pixel `i` has been given the color `c`: bytes
/// `4 * i .. 4 * i + 4` become `c`, every other byte stays.
pub open spec fn put_pixel(frame: Seq<u8>, i: int, c: [u8; 4]) -> Seq<u8> {
    Seq::new(frame.len(), |k: int| if 4 * i <= k < 4 * i + 4 { c@[k - 4 * i] } else { frame[k] })
}

/// The frame after every whole pixel `i` has been given `colors[i]`; trailing
/// bytes that make no whole pixel stay as they were.
pub open spec fn drawn(frame: Seq<u8>, colors: Seq<[u8; 4]>) -> Seq<u8> {
    Seq::new(
        frame.len(),
        |k: int| if k < 4 * (frame.len() / 4) as int { colors[k / 4]@[k % 4] } else { frame[k] },
    )
}

/// Writes `colors[i]` into pixel `i` of the frame, for every whole pixel in
/// row-major order.
pub fn draw(frame: &mut [u8], colors: &Vec<[u8; 4]>)
    requires
        colors@.len() == old(frame)@.len() / 4,
    ensures
        final(frame)@ == drawn(old(frame)@, colors@),
{
    let len = frame.len();
    let n = pixel_count(len);
    let mut i: usize = 0;
    assert(4 * n <= frame@.len());
    while i < n
        invariant
            n == old(frame)@.len() / 4,
            4 * n <= old(frame)@.len(),
            len == old(frame)@.len(),
            colors@.len() == n,
            i <= n,
            frame@.len() == old(frame)@.len(),
            forall|k: int| 0 <= k < 4 * i ==> #[trigger] frame@[k] == colors@[k / 4]@[k % 4],
            forall|k: int| 4 * i <= k < frame@.len() ==> #[trigger] frame@[k] == old(frame)@[k],
        decreases n - i,
    {
        let c = colors[i];
        assert(4 * i + 4 <= 4 * n);
        let base = BYTES_PER_PIXEL * i;
        let mut j: usize = 0;
        while j < BYTES_PER_PIXEL
            invariant
                n == old(frame)@.len() / 4,
                4 * n <= old(frame)@.len(),
                len == old(frame)@.len(),
                colors@.len() == n,
                i < n,
                c == colors@[i as int],
                base == 4 * i,
                j <= 4,
                frame@.len() == old(frame)@.len(),
                forall|k: int| 0 <= k < 4 * i + j ==> #[trigger] frame@[k] == colors@[k / 4]@[k % 4],
                forall|k: int| 4 * i + j <= k < frame@.len() ==> #[trigger] frame@[k] == old(frame)@[k],
            decreases 4 - j,
        {
            frame[base + j] = c[j];
            j = j + 1;
        }
        i = i + 1;
    }
    assert(frame@ =~= drawn(old(frame)@, colors@));
}

/// Drawing the same colors a second time leaves the frame as the first time
/// left it.
pub proof fn lemma_draw_idempotent(frame: Seq<u8>, colors: Seq<[u8; 4]>)
    requires
        colors.len() == frame.len() / 4,
    ensures
        drawn(drawn(frame, colors), colors) == drawn(frame, colors),
{
    assert(drawn(drawn(frame, colors), colors) =~= drawn(frame, colors));
}

/// Two frames of one length hold the same bytes once the same colors are
/// drawn into both, whenever the length is a whole number of pixels.
pub proof fn lemma_draw_forgets_old_frame(f1: Seq<u8>, f2: Seq<u8>, colors: Seq<[u8; 4]>)
    requires
        f1.len() == f2.len(),
        f1.len() % 4 == 0,
        colors.len() == f1.len() / 4,
    ensures
        drawn(f1, colors) == drawn(f2, colors),
{
    assert(drawn(f1, colors) =~= drawn(f2, colors));
}


/// The frame after the pixels listed in `order` have been written one after
/// another, pixel `order[j]` with its color `colors[order[j]]`.
pub open spec fn put_in_order(frame: Seq<u8>, colors: Seq<[u8; 4]>, order: Seq<int>) -> Seq<u8>
    decreases order.len(),
{
    if order.len() == 0 {
        frame
    } else {
        put_pixel(put_in_order(frame, colors, order.drop_last()), order.last(), colors[order.last()])
    }
}

proof fn lemma_put_in_order_len(frame: Seq<u8>, colors: Seq<[u8; 4]>, order: Seq<int>)
    ensures
        put_in_order(frame, colors, order).len() == frame.len(),
    decreases order.len(),
{
    if order.len() > 0 {
        lemma_put_in_order_len(frame, colors, order.drop_last());
    }
}

proof fn lemma_put_in_order_byte(frame: Seq<u8>, colors: Seq<[u8; 4]>, order: Seq<int>, k: int)
    requires
        0 <= k < frame.len(),
    ensures
        put_in_order(frame, colors, order)[k] == if order.contains(k / 4) {
            colors[k / 4]@[k % 4]
        } else {
            frame[k]
        },
    decreases order.len(),
{
    if order.len() > 0 {
        let rest = order.drop_last();
        lemma_put_in_order_byte(frame, colors, rest, k);
        lemma_put_in_order_len(frame, colors, rest);
        assert forall|x: int| order.contains(x) <==> (rest.contains(x) || x == order.last()) by {
            if order.contains(x) {
                let j = choose|j: int| 0 <= j < order.len() && order[j] == x;
                if j < order.len() - 1 {
                    assert(rest[j] == x);
                }
            }
            if rest.contains(x) {
                let j = choose|j: int| 0 <= j < rest.len() && rest[j] == x;
                assert(order[j] == x);
            }
            if x == order.last() {
                assert(order[order.len() - 1] == x);
            }
        }
    }
}

/// Pixels touch disjoint bytes, so the order in which they are written does
/// not matter: writing every pixel, in any order and any number of times,
/// gives the frame that `draw` gives.
pub proof fn lemma_draw_any_order(frame: Seq<u8>, colors: Seq<[u8; 4]>, order: Seq<int>)
    requires
        colors.len() == frame.len() / 4,
        forall|j: int| 0 <= j < order.len() ==> 0 <= #[trigger] order[j] < colors.len(),
        forall|i: int| 0 <= i < colors.len() ==> #[trigger] order.contains(i),
    ensures
        put_in_order(frame, colors, order) == drawn(frame, colors),
{
    let r = put_in_order(frame, colors, order);
    assert forall|k: int| 0 <= k < frame.len() implies #[trigger] r[k] == drawn(frame, colors)[k] by {
        lemma_put_in_order_byte(frame, colors, order, k);
        if k < 4 * (frame.len() / 4) as int {
            assert(order.contains(k / 4));
        } else {
            if order.contains(k / 4) {
                let j = choose|j: int| 0 <= j < order.len() && order[j] == k / 4;
                assert(0 <= order[j] < colors.len());
            }
        }
    }
    lemma_put_in_order_len(frame, colors, order);
    assert(r =~= drawn(frame, colors));
}

} // verus!
