//! RGBA bitmaps: an owned pixel grid with explicit dimensions, cropping, and
//! the filled-circle stamp that strokes are made of.

use vstd::prelude::*;

verus! {

/// Largest magnitude of a stamp centre coordinate.
///
/// Together with [`RADIUS_LIMIT`] it keeps every coordinate that the circle
/// rasteriser touches inside `i32`.
pub const COORD_LIMIT: i32 = 1_073_741_824;

/// Largest stamp radius.
pub const RADIUS_LIMIT: i32 = 536_870_912;

/// Mathematical model of a bitmap: its dimensions and its bytes, row by row,
/// four bytes per pixel.
pub struct BitmapView {
    pub width: nat,
    pub height: nat,
    pub data: Seq<u8>,
}

impl BitmapView {
    /// The buffer holds exactly `width * height` pixels.
    pub open spec fn wf(self) -> bool {
        self.data.len() == 4 * self.width * self.height
    }

    /// Whether `(x, y)` names a pixel of the bitmap.
    pub open spec fn in_bounds(self, x: int, y: int) -> bool {
        0 <= x < self.width && 0 <= y < self.height
    }

    /// Channel `c` of the pixel at `(x, y)`.
    pub open spec fn channel(self, x: int, y: int, c: int) -> u8 {
        self.data[4 * (y * self.width + x) + c]
    }

    /// The rectangle that a crop request covers once it is cut down to the
    /// bitmap: origin first, then extent.
    pub open spec fn crop_rect(self, x: int, y: int, width: int, height: int) -> (
        int,
        int,
        int,
        int,
    ) {
        let cx = if x < self.width { x } else { self.width as int };
        let cy = if y < self.height { y } else { self.height as int };
        let cw = if width < self.width - cx { width } else { self.width - cx };
        let ch = if height < self.height - cy { height } else { self.height - cy };
        (cx, cy, cw, ch)
    }

    /// The cut-out of the bitmap delimited by the requested rectangle, the
    /// rectangle first cut down to what lies inside the bitmap: byte `t` of
    /// the cut-out is channel `t % 4` of its pixel number `t / 4`, counted
    /// row by row, which is the bitmap's pixel at the same offset from the
    /// rectangle's corner.
    pub open spec fn cropped(self, x: int, y: int, width: int, height: int) -> BitmapView {
        let (cx, cy, cw, ch) = self.crop_rect(x, y, width, height);
        BitmapView {
            width: cw as nat,
            height: ch as nat,
            data: Seq::new(
                (4 * cw * ch) as nat,
                |t: int| self.channel(cx + (t / 4) % cw, cy + (t / 4) / cw, t % 4),
            ),
        }
    }
}

/// The bytes of an image after a filled circle of the given centre, radius
/// and colour has been drawn on it by the circle rasteriser.
pub uninterp spec fn filled_circle(
    data: Seq<u8>,
    width: int,
    height: int,
    cx: int,
    cy: int,
    radius: int,
    r: u8,
    g: u8,
    b: u8,
    a: u8,
) -> Seq<u8>;

/// Channel `c` of an RGBA colour.
pub open spec fn color_channel(color: [u8; 4], c: int) -> u8 {
    color@[c]
}

/// Every byte of `after` is the byte of `before` at the same place, or the
/// colour's byte for that channel: the image was only ever overwritten with
/// the colour.
pub open spec fn overwritten_with(before: Seq<u8>, after: Seq<u8>, color: [u8; 4]) -> bool {
    &&& after.len() == before.len()
    &&& forall|i: int|
        0 <= i < after.len() ==> #[trigger] after[i] == before[i] || after[i] == color_channel(
            color,
            i % 4,
        )
}

/// The four bytes of the pixel at `(x, y)` lie inside a buffer of
/// `width * height` pixels.
proof fn lemma_pixel_fits(width: int, height: int, x: int, y: int)
    requires
        0 <= x < width,
        0 <= y < height,
    ensures
        0 <= y * width + x,
        4 * (y * width + x) + 4 <= 4 * width * height,
{
    lemma_row_fits(width, height, y);
}

/// Row `y` lies inside a buffer of `width * height` pixels.
proof fn lemma_row_fits(width: int, height: int, y: int)
    requires
        0 <= width,
        0 <= y < height,
    ensures
        0 <= y * width,
        4 * (y * width + width) <= 4 * width * height,
{
    assert(0 <= y * width && y * width + width <= width * height) by (nonlinear_arith)
        requires
            0 <= width,
            0 <= y < height,
    ;
    assert(4 * width * height == 4 * (width * height)) by (nonlinear_arith);
}

/// Where byte `i` of row `j` stands in a buffer of rows of `cw` pixels: which
/// byte of the buffer it is, and of which pixel and channel.
proof fn lemma_byte_position(cw: int, ch: int, j: int, i: int)
    requires
        0 <= j < ch,
        0 <= i < 4 * cw,
    ensures
        0 <= 4 * cw * j + i < 4 * cw * ch,
        (4 * cw * j + i) % 4 == i % 4,
        ((4 * cw * j + i) / 4) % cw == i / 4,
        ((4 * cw * j + i) / 4) / cw == j,
        4 * (i / 4) + i % 4 == i,
{
    let t = 4 * cw * j + i;
    assert(0 <= t < 4 * cw * ch) by (nonlinear_arith)
        requires
            t == 4 * cw * j + i,
            0 <= i < 4 * cw,
            0 <= j < ch,
    ;
    vstd::arithmetic::div_mod::lemma_fundamental_div_mod(i, 4);
    vstd::arithmetic::div_mod::lemma_mod_bound(i, 4);
    let col = i / 4;
    assert(0 <= col < cw);
    assert(t == (j * cw + col) * 4 + i % 4) by (nonlinear_arith)
        requires
            t == 4 * cw * j + i,
            i == 4 * col + i % 4,
    ;
    vstd::arithmetic::div_mod::lemma_fundamental_div_mod_converse(t, 4, j * cw + col, i % 4);
    vstd::arithmetic::div_mod::lemma_fundamental_div_mod_converse(j * cw + col, cw, j, col);
}

/// A cut-out holds as many bytes as its dimensions ask for, is no larger than
/// what was asked for nor than what the bitmap holds beyond the corner, and
/// each of its pixels is the bitmap's pixel at the same offset from the
/// corner.
pub proof fn lemma_crop_pixels(
    v: BitmapView,
    x: int,
    y: int,
    width: int,
    height: int,
    i: int,
    j: int,
    c: int,
)
    requires
        v.wf(),
        0 <= x,
        0 <= y,
        0 <= width,
        0 <= height,
    ensures
        ({
            let (cx, cy, cw, ch) = v.crop_rect(x, y, width, height);
            let cut = v.cropped(x, y, width, height);
            &&& cut.wf()
            &&& cut.width == cw && cut.height == ch
            &&& 0 <= cw <= width && cx + cw <= v.width
            &&& 0 <= ch <= height && cy + ch <= v.height
            &&& (x + width <= v.width ==> cx == x && cw == width)
            &&& (y + height <= v.height ==> cy == y && ch == height)
            &&& (0 <= i < cw && 0 <= j < ch && 0 <= c < 4 ==> cut.channel(i, j, c) == v.channel(
                cx + i,
                cy + j,
                c,
            ))
        }),
{
    let (cx, cy, cw, ch) = v.crop_rect(x, y, width, height);
    let cut = v.cropped(x, y, width, height);
    assert(0 <= 4 * cw * ch) by (nonlinear_arith)
        requires
            0 <= cw,
            0 <= ch,
    ;
    if 0 <= i < cw && 0 <= j < ch && 0 <= c < 4 {
        let t = 4 * (j * cw + i) + c;
        lemma_byte_position(cw, ch, j, 4 * i + c);
        assert(t == 4 * cw * j + (4 * i + c)) by (nonlinear_arith)
            requires
                t == 4 * (j * cw + i) + c,
        ;
        assert((4 * i + c) / 4 == i && (4 * i + c) % 4 == c) by {
            vstd::arithmetic::div_mod::lemma_fundamental_div_mod_converse(4 * i + c, 4, i, c);
        }
    }
}

/// An RGBA image held as raw bytes.
pub struct Bitmap {
    width: u32,
    height: u32,
    data: Vec<u8>,
}

impl View for Bitmap {
    type V = BitmapView;

    closed spec fn view(&self) -> BitmapView {
        BitmapView { width: self.width as nat, height: self.height as nat, data: self.data@ }
    }
}

impl Clone for Bitmap {
    /// An independent copy with the same dimensions and bytes.
    fn clone(&self) -> (res: Self)
        ensures
            res@ == self@,
    {
        proof {
            use_type_invariant(self);
        }
        let data = self.data.clone();
        assert(data@ =~= self.data@);
        Bitmap { width: self.width, height: self.height, data }
    }
}

impl Bitmap {
    /// Every bitmap holds exactly `width * height` pixels.
    #[verifier::type_invariant]
    pub open spec fn inv(self) -> bool {
        self@.wf()
    }

    /// Wraps raw RGBA bytes as a bitmap.
    ///
    /// Succeeds exactly when the buffer holds `width * height` pixels; a
    /// buffer of any other length is refused.
    pub fn new(width: u32, height: u32, data: Vec<u8>) -> (res: Option<Bitmap>)
        ensures
            res is Some <==> data@.len() == 4 * width * height,
            res matches Some(b) ==> b@ == (BitmapView {
                width: width as nat,
                height: height as nat,
                data: data@,
            }),
    {
        assert(0 <= 4 * width * height <= 4 * 0xffff_ffff * 0xffff_ffff) by (nonlinear_arith)
            requires
                0 <= width <= 0xffff_ffff,
                0 <= height <= 0xffff_ffff,
        ;
        let need: u128 = 4u128 * (width as u128) * (height as u128);
        if data.len() as u128 == need {
            Some(Bitmap { width, height, data })
        } else {
            None
        }
    }

    /// Width in pixels.
    pub fn width(&self) -> (w: u32)
        ensures
            w == self@.width,
            self@.wf(),
    {
        proof {
            use_type_invariant(self);
        }
        self.width
    }

    /// Height in pixels.
    pub fn height(&self) -> (h: u32)
        ensures
            h == self@.height,
            self@.wf(),
    {
        proof {
            use_type_invariant(self);
        }
        self.height
    }

    /// Channels of the pixel at `(x, y)`, or nothing when the point lies
    /// outside the bitmap.
    pub fn get_pixel(&self, x: u32, y: u32) -> (res: Option<[u8; 4]>)
        ensures
            res is Some <==> self@.in_bounds(x as int, y as int),
            res matches Some(p) ==> forall|c: int|
                0 <= c < 4 ==> p@[c] == #[trigger] self@.channel(x as int, y as int, c),
    {
        proof {
            use_type_invariant(self);
        }
        if x >= self.width || y >= self.height {
            return None;
        }
        proof {
            lemma_pixel_fits(self.width as int, self.height as int, x as int, y as int);
            assert(self.data.len() <= usize::MAX);
        }
        let at: usize = 4 * (y as usize * self.width as usize + x as usize);
        Some([self.data[at], self.data[at + 1], self.data[at + 2], self.data[at + 3]])
    }

    /// Returns the cut-out delimited by the rectangle with top-left corner
    /// `(x, y)` and the given extent.
    ///
    /// A rectangle that reaches past the bitmap is cut down to the part inside
    /// it, so the result may be smaller than asked for, and empty.
    pub fn crop_imm(&self, x: u32, y: u32, width: u32, height: u32) -> (res: Bitmap)
        ensures
            res@ == self@.cropped(x as int, y as int, width as int, height as int),
    {
        proof {
            use_type_invariant(self);
        }
        let cx: u32 = if x < self.width { x } else { self.width };
        let cy: u32 = if y < self.height { y } else { self.height };
        let cw: u32 = if width < self.width - cx { width } else { self.width - cx };
        let ch: u32 = if height < self.height - cy { height } else { self.height - cy };
        let ghost model = self@.cropped(x as int, y as int, width as int, height as int);

        let ghost len = self.data.len();
        let mut data: Vec<u8> = Vec::new();
        let mut j: u32 = 0;
        while j < ch
            invariant
                self.inv(),
                len == self.data@.len(),
                cx + cw <= self.width,
                cy + ch <= self.height,
                j <= ch,
                model == self@.cropped(x as int, y as int, width as int, height as int),
                self@.crop_rect(x as int, y as int, width as int, height as int) == (
                    cx as int,
                    cy as int,
                    cw as int,
                    ch as int,
                ),
                data@.len() == 4 * cw * j,
                forall|t: int| 0 <= t < data@.len() ==> data@[t] == #[trigger] model.data[t],
            decreases ch - j,
        {
            proof {
                lemma_row_fits(self.width as int, self.height as int, cy as int + j as int);
            }
            let start: usize = 4 * ((cy as usize + j as usize) * self.width as usize + cx as usize);
            let row_bytes: usize = 4 * cw as usize;
            let mut i: usize = 0;
            while i < row_bytes
                invariant
                    self.inv(),
                    len == self.data@.len(),
                    cx + cw <= self.width,
                    cy + ch <= self.height,
                    j < ch,
                    i <= row_bytes,
                    row_bytes == 4 * cw,
                    start == 4 * ((cy + j) * self.width + cx),
                    start + row_bytes <= self.data@.len(),
                    model == self@.cropped(x as int, y as int, width as int, height as int),
                    self@.crop_rect(x as int, y as int, width as int, height as int) == (
                        cx as int,
                        cy as int,
                        cw as int,
                        ch as int,
                    ),
                    data@.len() == 4 * cw * j + i,
                    forall|t: int| 0 <= t < data@.len() ==> data@[t] == #[trigger] model.data[t],
                decreases row_bytes - i,
            {
                proof {
                    let t = 4 * cw * j + i;
                    lemma_byte_position(cw as int, ch as int, j as int, i as int);
                    assert(4 * ((cy + j) * self.width + (cx + i / 4)) + i % 4 == start + i);
                    assert(model.data[t] == self.data@[start + i]);
                }
                data.push(self.data[start + i]);
                i = i + 1;
            }
            proof {
                assert(4 * cw * (j + 1) == 4 * cw * j + 4 * cw) by (nonlinear_arith);
            }
            j = j + 1;
        }
        proof {
            assert(data@ =~= model.data);
        }
        Bitmap { width: cw, height: ch, data }
    }

    /// The raw RGBA bytes, row by row.
    pub fn as_bytes(&self) -> (bytes: &Vec<u8>)
        ensures
            bytes@ == self@.data,
            self@.wf(),
    {
        proof {
            use_type_invariant(self);
        }
        &self.data
    }
}

/// Draws a filled circle on the bitmap in place with
/// `imageproc::drawing::draw_filled_circle_mut`, on an `image::ImageBuffer`
/// laid over the bitmap's own bytes.
///
/// Trusted: the dimensions stay, the bytes afterwards are the named result of
/// that rasteriser for these arguments, and it only ever writes the given
/// colour over pixels inside the image. The bounds keep the rasteriser's
/// `i32` arithmetic from overflowing.
#[verifier::external_body]
pub(crate) fn draw_filled_circle(img: &mut Bitmap, center: (i32, i32), radius: i32, color: [u8; 4])
    requires
        -COORD_LIMIT <= center.0 <= COORD_LIMIT,
        -COORD_LIMIT <= center.1 <= COORD_LIMIT,
        0 <= radius <= RADIUS_LIMIT,
    ensures
        final(img)@.width == old(img)@.width,
        final(img)@.height == old(img)@.height,
        final(img)@.data == filled_circle(
            old(img)@.data,
            old(img)@.width as int,
            old(img)@.height as int,
            center.0 as int,
            center.1 as int,
            radius as int,
            color_channel(color, 0),
            color_channel(color, 1),
            color_channel(color, 2),
            color_channel(color, 3),
        ),
        overwritten_with(old(img)@.data, final(img)@.data, color),
{
    let bytes: &mut [u8] = img.data.as_mut_slice();
    let canvas = image::ImageBuffer::<image::Rgba<u8>, &mut [u8]>::from_raw(
        img.width,
        img.height,
        bytes,
    );
    if let Some(mut canvas) = canvas {
        imageproc::drawing::draw_filled_circle_mut(&mut canvas, center, radius, image::Rgba(color));
    }
}

} // verus!
