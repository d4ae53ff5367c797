//! The packed pixel buffer: two 4-bit grayscale pixels per byte, laid out
//! row by row as the controller's display RAM is.

use vstd::prelude::*;

verus! {

/// Number of bytes needed to hold `width` x `height` pixels when every byte
/// packs two horizontally adjacent pixels. The count is exact for an even
/// width; for an odd one it leaves out the byte that the last pixel of each
/// row takes for itself.
#[must_use]
pub fn buffer_size(width: u8, height: u8) -> (size: usize)
    ensures
        size == (width as int / 2) * height as int,
{
    let halfwidth: usize = width as usize / 2;
    assert(halfwidth * (height as usize) <= 127 * 255) by (nonlinear_arith)
        requires
            halfwidth <= 127,
            height <= 255,
    ;
    halfwidth * height as usize
}

/// The pixel that `byte` holds in its high nibble when `high` is set, else
/// the one in its low nibble: a byte is sixteen times its high nibble plus
/// its low one.
pub open spec fn nibble(byte: u8, high: bool) -> u8 {
    if high {
        byte / 16
    } else {
        byte % 16
    }
}

/// `byte` with one of its two pixels replaced by the low four bits of
/// `value`: the high nibble when `high` is set, else the low nibble.
pub open spec fn with_nibble(byte: u8, high: bool, value: u8) -> u8 {
    if high {
        ((value % 16) * 16 + byte % 16) as u8
    } else {
        ((byte / 16) * 16 + value % 16) as u8
    }
}

/// A pixel for [`Framebuffer::draw`]: a position, which may lie off the
/// display, and a 4-bit gray level.
#[derive(Clone, Copy, Debug, PartialEq, Eq)]
pub struct GrayPixel {
    pub x: i32,
    pub y: i32,
    pub luma: u8,
}

/// What a [`Framebuffer`] stands for: the display's extent in pixels and the
/// packed bytes.
pub struct FrameView {
    pub width: nat,
    pub height: nat,
    pub bytes: Seq<u8>,
}

impl FrameView {
    /// Bytes per row: two pixels share a byte, and a last odd pixel takes
    /// one of its own.
    pub open spec fn row_bytes(self) -> nat {
        (self.width + 1) / 2
    }

    /// The extent fits the controller's 8-bit addressing and the buffer
    /// holds every row in full.
    pub open spec fn wf(self) -> bool {
        &&& 1 <= self.width <= 255
        &&& 1 <= self.height <= 255
        &&& self.bytes.len() == self.row_bytes() * self.height
    }

    /// The all-black buffer of a display of `width` x `height` pixels.
    pub open spec fn blank(width: nat, height: nat) -> FrameView {
        FrameView { width, height, bytes: Seq::new(((width + 1) / 2) * height, |i: int| 0u8) }
    }

    /// Index of the last byte-column of a row.
    pub open spec fn column_end(self) -> u8 {
        (self.row_bytes() - 1) as u8
    }

    /// Index of the last row.
    pub open spec fn row_end(self) -> u8 {
        (self.height - 1) as u8
    }

    /// Whether `(x, y)` names a pixel of the display.
    pub open spec fn contains(self, x: int, y: int) -> bool {
        0 <= x < self.width && 0 <= y < self.height
    }

    /// Index of the byte that holds pixel `(x, y)`.
    pub open spec fn index_of(self, x: int, y: int) -> int {
        x / 2 + y * self.row_bytes()
    }

    /// The gray level stored for pixel `(x, y)`. A pixel at even `x` lives
    /// in the high nibble of its byte, its right neighbour in the low one.
    pub open spec fn pixel(self, x: int, y: int) -> u8 {
        nibble(self.bytes[self.index_of(x, y)], x % 2 == 0)
    }

    /// The buffer after pixel `(x, y)` is set to the low four bits of
    /// `value`. A position off the display changes nothing.
    pub open spec fn set_pixel(self, x: int, y: int, value: u8) -> FrameView {
        if self.contains(x, y) {
            let index = self.index_of(x, y);
            FrameView {
                bytes: self.bytes.update(index, with_nibble(self.bytes[index], x % 2 == 0, value)),
                ..self
            }
        } else {
            self
        }
    }

    /// The buffer after `pixel` is drawn: set if it lies on the display,
    /// dropped if not.
    pub open spec fn draw(self, pixel: GrayPixel) -> FrameView {
        self.set_pixel(pixel.x as int, pixel.y as int, pixel.luma)
    }

    /// The buffer after `pixels` are drawn one after the other.
    pub open spec fn draw_all(self, pixels: Seq<GrayPixel>) -> FrameView
        decreases pixels.len(),
    {
        if pixels.len() == 0 {
            self
        } else {
            self.draw_all(pixels.drop_last()).draw(pixels.last())
        }
    }

    /// The bytes of byte-columns `8 * k .. 8 * k + 8`, counted through the
    /// buffer row by row: what one data transaction of a flush carries.
    pub open spec fn chunk(self, k: int) -> Seq<u8> {
        self.bytes.subrange(8 * k, 8 * k + 8)
    }
}

/// The index of a pixel on the display lies inside the buffer, and pixels
/// share a byte only with their horizontal neighbour in the same pair.
pub proof fn lemma_index_of(v: FrameView, x: int, y: int)
    requires
        v.wf(),
        v.contains(x, y),
    ensures
        0 <= v.index_of(x, y) < v.bytes.len(),
        x / 2 < v.row_bytes(),
        forall|x2: int, y2: int|
            v.contains(x2, y2) && #[trigger] v.index_of(x2, y2) == v.index_of(x, y) ==> y2 == y && x2
                / 2 == x / 2,
{
    let r = v.row_bytes() as int;
    assert(x / 2 < r);
    let h = v.height as int;
    assert(0 <= y * r && y * r + r <= r * h) by (nonlinear_arith)
        requires
            0 <= y < h,
            r >= 0,
    ;
    assert(v.bytes.len() == r * h);
    assert forall|x2: int, y2: int|
        v.contains(x2, y2) && #[trigger] v.index_of(x2, y2) == v.index_of(x, y) implies y2 == y && x2
        / 2 == x / 2 by {
        let a = x / 2;
        let b = x2 / 2;
        assert(b < r);
        assert(y2 == y) by (nonlinear_arith)
            requires
                0 <= a < r,
                0 <= b < r,
                b + y2 * r == a + y * r,
        ;
    }
}

/// The buffer of a new display is well formed and black, and for an even
/// width it has `buffer_size` bytes: half the width times the height.
pub proof fn lemma_blank(width: nat, height: nat)
    requires
        1 <= width <= 255,
        1 <= height <= 255,
    ensures
        FrameView::blank(width, height).wf(),
        forall|x: int, y: int|
            FrameView::blank(width, height).contains(x, y) ==> #[trigger] FrameView::blank(
                width,
                height,
            ).pixel(x, y) == 0,
        width % 2 == 0 ==> FrameView::blank(width, height).bytes.len() == (width / 2) * height,
{
    let v = FrameView::blank(width, height);
    assert forall|x: int, y: int| v.contains(x, y) implies #[trigger] v.pixel(x, y) == 0 by {
        lemma_index_of(v, x, y);
    }
    if width % 2 == 0 {
        assert((width + 1) / 2 == width / 2);
    }
}

/// Drawing changes neither the extent of the display nor the size of the
/// buffer.
pub proof fn lemma_draw_all_keeps_extent(v: FrameView, pixels: Seq<GrayPixel>)
    requires
        v.wf(),
    ensures
        v.draw_all(pixels).wf(),
        v.draw_all(pixels).width == v.width,
        v.draw_all(pixels).height == v.height,
        v.draw_all(pixels).bytes.len() == v.bytes.len(),
    decreases pixels.len(),
{
    if pixels.len() > 0 {
        lemma_draw_all_keeps_extent(v, pixels.drop_last());
        let before = v.draw_all(pixels.drop_last());
        let last = pixels.last();
        if before.contains(last.x as int, last.y as int) {
            lemma_index_of(before, last.x as int, last.y as int);
        }
    }
}

/// Where every row is a whole number of 8-byte chunks, the chunks tile the
/// buffer in row-major order: the chunk that starts at byte-column `column`
/// of row `row` is chunk `row * (row_bytes / 8) + column / 8` of the buffer,
/// and there are `(row_bytes / 8) * height` chunks in all.
pub proof fn lemma_chunk_position(v: FrameView, row: int, column: int)
    requires
        v.wf(),
        v.row_bytes() % 8 == 0,
        0 <= row < v.height,
        0 <= column < v.row_bytes(),
        column % 8 == 0,
    ensures
        ({
            let k = row * (v.row_bytes() / 8) + column / 8;
            &&& 0 <= k < v.bytes.len() / 8
            &&& 8 * k == column + row * v.row_bytes()
            &&& 8 * k + 8 <= v.bytes.len()
        }),
        v.bytes.len() / 8 == (v.row_bytes() / 8) * v.height,
        v.bytes.len() % 8 == 0,
{
    let r = v.row_bytes() as int;
    let h = v.height as int;
    let c = r / 8;
    let q = column / 8;
    assert(r == 8 * c);
    assert(column == 8 * q);
    assert(q < c);
    assert(v.bytes.len() == r * h);
    assert(r * h == 8 * (c * h)) by (nonlinear_arith)
        requires
            r == 8 * c,
    ;
    assert(row * r == 8 * (row * c)) by (nonlinear_arith)
        requires
            r == 8 * c,
    ;
    assert(0 <= row * c && row * c + c <= c * h) by (nonlinear_arith)
        requires
            0 <= row < h,
            0 <= c,
    ;
}

/// Replacing one nibble of a byte stores the low four bits of the value in
/// that half and keeps the other half, and two replacements, one per half,
/// give the same byte in either order.
pub proof fn lemma_with_nibble(byte: u8, high: u8, low: u8)
    ensures
        nibble(with_nibble(byte, true, high), true) == high % 16,
        nibble(with_nibble(byte, true, high), false) == nibble(byte, false),
        nibble(with_nibble(byte, false, low), false) == low % 16,
        nibble(with_nibble(byte, false, low), true) == nibble(byte, true),
        with_nibble(with_nibble(byte, true, high), false, low) == with_nibble(
            with_nibble(byte, false, low),
            true,
            high,
        ),
        with_nibble(with_nibble(byte, true, high), false, low) == (high % 16) * 16 + low % 16,
{
}

/// The masks and shifts that pack a pixel compute `with_nibble`.
proof fn lemma_pack(byte: u8, value: u8)
    ensures
        (byte & 0x0F) | (value << 4) == with_nibble(byte, true, value),
        (byte & 0xF0) | (value & 0x0F) == with_nibble(byte, false, value),
{
    assert((byte & 0x0F) | (value << 4) == (value % 16) * 16 + byte % 16) by (bit_vector);
    assert((byte & 0xF0) | (value & 0x0F) == (byte / 16) * 16 + value % 16) by (bit_vector);
}

/// Setting a pixel on the display keeps the buffer well formed, reads back
/// as the low four bits of the value, and leaves every other pixel, and the
/// other half of the byte that was written, as it was.
pub proof fn lemma_set_pixel_reads_back(v: FrameView, x: int, y: int, value: u8)
    requires
        v.wf(),
        v.contains(x, y),
    ensures
        v.set_pixel(x, y, value).wf(),
        v.set_pixel(x, y, value).pixel(x, y) == value % 16,
        forall|x2: int, y2: int|
            v.contains(x2, y2) && (x2 != x || y2 != y) ==> #[trigger] v.set_pixel(
                x,
                y,
                value,
            ).pixel(x2, y2) == v.pixel(x2, y2),
        nibble(v.set_pixel(x, y, value).bytes[v.index_of(x, y)], x % 2 != 0) == nibble(
            v.bytes[v.index_of(x, y)],
            x % 2 != 0,
        ),
{
    let after = v.set_pixel(x, y, value);
    let index = v.index_of(x, y);
    lemma_index_of(v, x, y);
    lemma_with_nibble(v.bytes[index], value, value);
    assert forall|x2: int, y2: int| v.contains(x2, y2) && (x2 != x || y2 != y) implies #[trigger] after.pixel(
        x2,
        y2,
    ) == v.pixel(x2, y2) by {
        lemma_index_of(v, x2, y2);
        if v.index_of(x2, y2) == index {
            assert(y2 == y && x2 / 2 == x / 2);
            assert((x2 % 2 == 0) != (x % 2 == 0));
        }
    }
}

/// Setting two different pixels gives the same buffer in either order, also
/// where the two share a byte.
pub proof fn lemma_set_pixel_commutes(
    v: FrameView,
    x1: int,
    y1: int,
    value1: u8,
    x2: int,
    y2: int,
    value2: u8,
)
    requires
        v.wf(),
        x1 != x2 || y1 != y2,
    ensures
        v.set_pixel(x1, y1, value1).set_pixel(x2, y2, value2) == v.set_pixel(x2, y2, value2).set_pixel(
            x1,
            y1,
            value1,
        ),
{
    let first = v.set_pixel(x1, y1, value1).set_pixel(x2, y2, value2);
    let second = v.set_pixel(x2, y2, value2).set_pixel(x1, y1, value1);
    if v.contains(x1, y1) && v.contains(x2, y2) {
        lemma_index_of(v, x1, y1);
        lemma_index_of(v, x2, y2);
        let i1 = v.index_of(x1, y1);
        let i2 = v.index_of(x2, y2);
        if i1 == i2 {
            assert(y1 == y2 && x1 / 2 == x2 / 2);
            assert((x1 % 2 == 0) != (x2 % 2 == 0));
            if x1 % 2 == 0 {
                lemma_with_nibble(v.bytes[i1], value1, value2);
            } else {
                lemma_with_nibble(v.bytes[i1], value2, value1);
            }
        }
        assert(first.bytes =~= second.bytes);
    }
}

/// Setting the two pixels of one byte, the even one to `high` and its right
/// neighbour to `low`, gives the same buffer in either order, and the byte
/// then holds `high` in its high nibble and `low` in its low one.
pub proof fn lemma_pair_composes(v: FrameView, x: int, y: int, high: u8, low: u8)
    requires
        v.wf(),
        v.contains(x, y),
        v.contains(x + 1, y),
        x % 2 == 0,
    ensures
        v.set_pixel(x, y, high).set_pixel(x + 1, y, low) == v.set_pixel(x + 1, y, low).set_pixel(
            x,
            y,
            high,
        ),
        v.index_of(x + 1, y) == v.index_of(x, y),
        v.set_pixel(x, y, high).set_pixel(x + 1, y, low).bytes[v.index_of(x, y)] == (high % 16) * 16
            + low % 16,
{
    lemma_set_pixel_commutes(v, x, y, high, x + 1, y, low);
    lemma_index_of(v, x, y);
    lemma_with_nibble(v.bytes[v.index_of(x, y)], high, low);
}

/// The display's extent and its packed pixels. The buffer is sized once,
/// when the display is described, and keeps that size.
pub struct Framebuffer {
    /// Index of the last byte-column of a row.
    halfwidth: u8,
    /// Index of the last pixel column.
    width: u8,
    /// Index of the last row.
    height: u8,
    bytes: Vec<u8>,
}

impl View for Framebuffer {
    type V = FrameView;

    closed spec fn view(&self) -> FrameView {
        FrameView {
            width: self.width as nat + 1,
            height: self.height as nat + 1,
            bytes: self.bytes@,
        }
    }
}

impl Framebuffer {
    #[verifier::type_invariant]
    spec fn inv(&self) -> bool {
        &&& self.halfwidth == self.width / 2
        &&& self@.wf()
    }

    /// An all-black buffer for a display of `width` x `height` pixels.
    pub fn new(width: u8, height: u8) -> (fb: Self)
        requires
            width >= 1,
            height >= 1,
        ensures
            fb@ == FrameView::blank(width as nat, height as nat),
            fb@.wf(),
    {
        let halfwidth: u8 = (width - 1) / 2;
        let rows: usize = height as usize;
        let row_bytes: usize = halfwidth as usize + 1;
        assert(row_bytes * rows <= 128 * 255) by (nonlinear_arith)
            requires
                row_bytes <= 128,
                rows <= 255,
        ;
        let bytes: Vec<u8> = vec![0u8; row_bytes * rows];
        let fb = Framebuffer { halfwidth, width: width - 1, height: height - 1, bytes };
        assert(fb@.bytes =~= FrameView::blank(width as nat, height as nat).bytes);
        fb
    }

    /// Sets pixel `(x, y)` to the low four bits of `value`. A position off
    /// the display is ignored.
    pub fn set_pixel(&mut self, x: usize, y: usize, value: u8)
        ensures
            final(self)@ == old(self)@.set_pixel(x as int, y as int, value),
            !old(self)@.contains(x as int, y as int) ==> final(self)@ == old(self)@,
            final(self)@.wf(),
    {
        proof {
            use_type_invariant(&*self);
            if self@.contains(x as int, y as int) {
                lemma_index_of(self@, x as int, y as int);
            }
        }
        if x <= self.width as usize && y <= self.height as usize {
            let row_bytes: usize = self.halfwidth as usize + 1;
            proof {
                assert(row_bytes == self@.row_bytes());
                assert(0 <= y * row_bytes <= 255 * 128) by (nonlinear_arith)
                    requires
                        y <= 255,
                        row_bytes <= 128,
                ;
                assert(self@.index_of(x as int, y as int) == x / 2 + y * row_bytes);
                lemma_pack(self.bytes@[x / 2 + y * row_bytes], value);
            }
            let index: usize = x / 2 + y * row_bytes;
            let byte: u8 = self.bytes[index];
            let packed: u8 = if x % 2 == 0 {
                (byte & 0x0F) | (value << 4)
            } else {
                (byte & 0xF0) | (value & 0x0F)
            };
            self.bytes[index] = packed;
        }
    }

    /// Draws `pixel`: sets it if it lies on the display, drops it if not.
    pub fn draw(&mut self, pixel: GrayPixel)
        ensures
            final(self)@ == old(self)@.draw(pixel),
            !old(self)@.contains(pixel.x as int, pixel.y as int) ==> final(self)@ == old(self)@,
            final(self)@.wf(),
    {
        proof {
            use_type_invariant(&*self);
        }
        if pixel.x >= 0 && pixel.y >= 0 {
            self.set_pixel(pixel.x as usize, pixel.y as usize, pixel.luma);
        }
    }

    /// Draws `pixels` one after the other, so that of two pixels at one
    /// position the later one stays.
    pub fn draw_iter(&mut self, pixels: &[GrayPixel])
        ensures
            final(self)@ == old(self)@.draw_all(pixels@),
            final(self)@.wf(),
    {
        proof {
            use_type_invariant(&*self);
        }
        let mut i: usize = 0;
        while i < pixels.len()
            invariant
                i <= pixels.len(),
                self@ == old(self)@.draw_all(pixels@.take(i as int)),
                self@.wf(),
            decreases pixels.len() - i,
        {
            proof {
                let next = pixels@.take(i + 1);
                assert(next.drop_last() == pixels@.take(i as int));
                assert(next.last() == pixels@[i as int]);
            }
            self.draw(pixels[i]);
            i += 1;
        }
        assert(pixels@.take(i as int) == pixels@);
    }

    /// The display's extent in pixels, width first.
    pub fn size(&self) -> (size: (u32, u32))
        ensures
            self@.wf(),
            size.0 == self@.width,
            size.1 == self@.height,
    {
        proof {
            use_type_invariant(self);
        }
        (self.width as u32 + 1, self.height as u32 + 1)
    }

    /// Index of the last byte-column of a row: where the controller's
    /// column window ends when it spans the display.
    pub fn column_end(&self) -> (end: u8)
        ensures
            self@.wf(),
            end == self@.column_end(),
    {
        proof {
            use_type_invariant(self);
        }
        self.halfwidth
    }

    /// Index of the last row: where the controller's row window ends when
    /// it spans the display.
    pub fn row_end(&self) -> (end: u8)
        ensures
            self@.wf(),
            end == self@.row_end(),
    {
        proof {
            use_type_invariant(self);
        }
        self.height
    }

    /// Whether every row is a whole number of 8-byte chunks, as a flush of
    /// the buffer needs it.
    pub fn has_whole_chunks(&self) -> (whole: bool)
        ensures
            self@.wf(),
            whole == (self@.row_bytes() % 8 == 0),
    {
        proof {
            use_type_invariant(self);
        }
        (self.halfwidth as usize + 1) % 8 == 0
    }

    /// The packed bytes, row by row.
    pub fn as_bytes(&self) -> (bytes: &[u8])
        ensures
            self@.wf(),
            bytes@ == self@.bytes,
    {
        proof {
            use_type_invariant(self);
        }
        self.bytes.as_slice()
    }
}

} // verus!
