//! The framebuffer: `width * height` pixels of three bytes each, row-major,
//! top row first. Rows are sampled bottom-up, so sampled row `y` is stored as
//! output row `height - 1 - y`.

use vstd::prelude::*;

verus! {

/// The number of bytes of an image.
pub open spec fn byte_len(width: u32, height: u32) -> int {
    width * height * 3
}

/// The number of bytes of one row.
pub open spec fn row_len(width: u32) -> int {
    width * 3
}

/// Where the bytes of sampled row `y` start.
pub open spec fn row_start(width: u32, height: u32, y: u32) -> int {
    (height - 1 - y) * (width * 3)
}

/// Where the three bytes of the pixel in column `x` of sampled row `y` start.
pub open spec fn pixel_offset(width: u32, height: u32, x: u32, y: u32) -> int {
    row_start(width, height, y) + x * 3
}

/// The three bytes of the pixel that starts at `at`.
pub open spec fn pixel_at(bytes: Seq<u8>, at: int) -> (u8, u8, u8) {
    (bytes[at], bytes[at + 1], bytes[at + 2])
}

/// A sequence with the three bytes of one pixel replaced.
pub open spec fn with_pixel(bytes: Seq<u8>, at: int, rgb: (u8, u8, u8)) -> Seq<u8> {
    bytes.update(at, rgb.0).update(at + 1, rgb.1).update(at + 2, rgb.2)
}

/// A sequence with `row` laid over it from `at` on.
pub open spec fn with_row(bytes: Seq<u8>, at: int, row: Seq<u8>) -> Seq<u8> {
    Seq::new(
        bytes.len(),
        |i: int|
            if at <= i < at + row.len() {
                row[i - at]
            } else {
                bytes[i]
            },
    )
}

/// Every row lies inside the buffer.
pub proof fn lemma_rows_in_bounds(width: u32, height: u32, y: u32)
    requires
        y < height,
    ensures
        0 <= row_start(width, height, y),
        row_start(width, height, y) + row_len(width) <= byte_len(width, height),
        row_len(width) <= byte_len(width, height),
{
    let w: int = width as int;
    let h: int = height as int;
    let k: int = h - 1 - y;
    assert(0 <= k * (w * 3)) by (nonlinear_arith)
        requires
            0 <= k,
            0 <= w,
    ;
    assert(k * (w * 3) + w * 3 <= w * h * 3) by (nonlinear_arith)
        requires
            0 <= k,
            k + 1 <= h,
            0 <= w,
    ;
}

/// Every pixel lies inside its row, and so inside the buffer.
pub proof fn lemma_pixel_in_bounds(width: u32, height: u32, x: u32, y: u32)
    requires
        x < width,
        y < height,
    ensures
        0 <= row_start(width, height, y) <= pixel_offset(width, height, x, y),
        pixel_offset(width, height, x, y) + 3 <= row_start(width, height, y) + row_len(width),
        pixel_offset(width, height, x, y) + 3 <= byte_len(width, height),
{
    lemma_rows_in_bounds(width, height, y);
}

/// The output is vertically flipped: the row sampled last is stored first,
/// and the row sampled first is stored last.
pub proof fn lemma_rows_flipped(width: u32, height: u32)
    requires
        height > 0,
    ensures
        row_start(width, height, (height - 1) as u32) == 0,
        row_start(width, height, 0) + row_len(width) == byte_len(width, height),
{
    let w: int = width as int;
    let h: int = height as int;
    assert((h - 1) * (w * 3) + w * 3 == w * h * 3) by (nonlinear_arith);
    assert(0 * (w * 3) == 0);
}

/// Two different rows share no byte.
pub proof fn lemma_rows_disjoint(width: u32, height: u32, y1: u32, y2: u32)
    requires
        y1 < y2,
        y2 < height,
    ensures
        row_start(width, height, y2) + row_len(width) <= row_start(width, height, y1),
{
    let w: int = width as int;
    let k1: int = height - 1 - y1;
    let k2: int = height - 1 - y2;
    assert(k2 * (w * 3) + w * 3 <= k1 * (w * 3)) by (nonlinear_arith)
        requires
            k2 + 1 <= k1,
            0 <= w,
    ;
}

/// Two different pixels share no byte: every byte of the buffer is written by
/// the one pixel that owns it.
pub proof fn lemma_pixels_disjoint(width: u32, height: u32, x1: u32, y1: u32, x2: u32, y2: u32)
    requires
        x1 < width,
        x2 < width,
        y1 < height,
        y2 < height,
        x1 != x2 || y1 != y2,
    ensures
        pixel_offset(width, height, x1, y1) + 3 <= pixel_offset(width, height, x2, y2)
            || pixel_offset(width, height, x2, y2) + 3 <= pixel_offset(width, height, x1, y1),
{
    lemma_pixel_in_bounds(width, height, x1, y1);
    lemma_pixel_in_bounds(width, height, x2, y2);
    if y1 < y2 {
        lemma_rows_disjoint(width, height, y1, y2);
    } else if y2 < y1 {
        lemma_rows_disjoint(width, height, y2, y1);
    }
}

/// Every byte of the buffer belongs to a pixel: the pixels cover the buffer.
pub proof fn lemma_every_byte_owned(width: u32, height: u32, i: int) -> (owner: (u32, u32, int))
    requires
        0 <= i < byte_len(width, height),
    ensures
        owner.0 < width,
        owner.1 < height,
        0 <= owner.2 < 3,
        pixel_offset(width, height, owner.0, owner.1) + owner.2 == i,
{
    let w: int = width as int;
    let h: int = height as int;
    let r: int = w * 3;
    assert(w > 0 && h > 0) by (nonlinear_arith)
        requires
            0 <= i < w * h * 3,
            0 <= w,
            0 <= h,
    ;
    let k: int = i / r;
    let within: int = i % r;
    assert(i == k * r + within && 0 <= within < r) by {
        vstd::arithmetic::div_mod::lemma_fundamental_div_mod(i, r);
        vstd::arithmetic::div_mod::lemma_mod_bound(i, r);
        assert(r * k == k * r) by (nonlinear_arith);
    }
    assert(0 <= k < h) by (nonlinear_arith)
        requires
            i == k * r + within,
            0 <= within < r,
            0 <= i < w * h * 3,
            r == w * 3,
    ;
    let x: int = within / 3;
    let c: int = within % 3;
    assert(within == 3 * x + c);
    let y: int = h - 1 - k;
    let owner = (x as u32, y as u32, c);
    assert(pixel_offset(width, height, owner.0, owner.1) + c == i);
    owner
}

/// Writing a pixel sets that pixel and leaves every other pixel as it was.
pub proof fn lemma_put_pixel_touches_one_pixel(
    bytes: Seq<u8>,
    width: u32,
    height: u32,
    x: u32,
    y: u32,
    rgb: (u8, u8, u8),
    x2: u32,
    y2: u32,
)
    requires
        bytes.len() == byte_len(width, height),
        x < width,
        y < height,
        x2 < width,
        y2 < height,
    ensures
        pixel_at(
            with_pixel(bytes, pixel_offset(width, height, x, y), rgb),
            pixel_offset(width, height, x2, y2),
        ) == if x2 == x && y2 == y {
            rgb
        } else {
            pixel_at(bytes, pixel_offset(width, height, x2, y2))
        },
{
    lemma_pixel_in_bounds(width, height, x, y);
    lemma_pixel_in_bounds(width, height, x2, y2);
    if x2 != x || y2 != y {
        lemma_pixels_disjoint(width, height, x, y, x2, y2);
    }
}

/// Storing a row sets the pixels of that row to the pixels of the row
/// stored, column by column, and leaves every other row as it was.
pub proof fn lemma_store_row_touches_one_row(
    bytes: Seq<u8>,
    width: u32,
    height: u32,
    y: u32,
    row: Seq<u8>,
    x2: u32,
    y2: u32,
)
    requires
        bytes.len() == byte_len(width, height),
        row.len() == row_len(width),
        y < height,
        x2 < width,
        y2 < height,
    ensures
        pixel_at(
            with_row(bytes, row_start(width, height, y), row),
            pixel_offset(width, height, x2, y2),
        ) == if y2 == y {
            pixel_at(row, x2 * 3)
        } else {
            pixel_at(bytes, pixel_offset(width, height, x2, y2))
        },
{
    lemma_pixel_in_bounds(width, height, x2, y);
    lemma_pixel_in_bounds(width, height, x2, y2);
    if y2 < y {
        lemma_rows_disjoint(width, height, y2, y);
    } else if y < y2 {
        lemma_rows_disjoint(width, height, y, y2);
    }
}

/// Rows may be stored in any order: storing two different rows one way round
/// or the other gives the same image. So the image does not depend on which
/// worker finishes first.
pub proof fn lemma_rows_commute(
    bytes: Seq<u8>,
    width: u32,
    height: u32,
    y1: u32,
    row1: Seq<u8>,
    y2: u32,
    row2: Seq<u8>,
)
    requires
        bytes.len() == byte_len(width, height),
        row1.len() == row_len(width),
        row2.len() == row_len(width),
        y1 < height,
        y2 < height,
        y1 != y2,
    ensures
        with_row(
            with_row(bytes, row_start(width, height, y1), row1),
            row_start(width, height, y2),
            row2,
        ) == with_row(
            with_row(bytes, row_start(width, height, y2), row2),
            row_start(width, height, y1),
            row1,
        ),
{
    if y1 < y2 {
        lemma_rows_disjoint(width, height, y1, y2);
    } else {
        lemma_rows_disjoint(width, height, y2, y1);
    }
    assert(with_row(
        with_row(bytes, row_start(width, height, y1), row1),
        row_start(width, height, y2),
        row2,
    ) =~= with_row(
        with_row(bytes, row_start(width, height, y2), row2),
        row_start(width, height, y1),
        row1,
    ));
}

/// Why a framebuffer could not be made.
#[derive(Clone, Copy, Debug, PartialEq, Eq, Structural)]
pub enum FramebufferError {
    /// `width * height * 3` bytes cannot be addressed on this machine.
    TooLarge,
    /// The rows handed in are not `height` rows of `width` pixels each.
    RowMismatch,
}

/// Whether `rows` are the rows of an image: `height` rows of `width` pixels.
pub open spec fn rows_fit(rows: Seq<Row>, width: u32, height: u32) -> bool {
    &&& rows.len() == height
    &&& forall|y: int| 0 <= y < rows.len() ==> (#[trigger] rows[y])@.len() == row_len(width)
}

/// Whether `bytes` hold sampled row `y` as `row`.
pub open spec fn holds_row(bytes: Seq<u8>, width: u32, height: u32, y: u32, row: Seq<u8>) -> bool {
    forall|j: int|
        0 <= j < row.len() ==> #[trigger] bytes[row_start(width, height, y) + j] == row[j]
}

/// The bytes of one sampled row, owned by whoever renders that row.
#[derive(Debug)]
pub struct Row {
    data: Vec<u8>,
}

impl View for Row {
    type V = Seq<u8>;

    closed spec fn view(&self) -> Seq<u8> {
        self.data@
    }
}

impl Row {
    /// A black row of `width` pixels; an error where its bytes cannot be
    /// addressed.
    pub fn new(width: u32) -> (r: Result<Row, FramebufferError>)
        ensures
            r is Ok <==> row_len(width) <= usize::MAX,
            r is Ok ==> r.unwrap()@ == Seq::new(row_len(width) as nat, |i: int| 0u8),
    {
        if width as u64 * 3 > usize::MAX as u64 {
            return Err(FramebufferError::TooLarge);
        }
        let n: usize = width as usize * 3;
        let data: Vec<u8> = vec![0u8; n];
        assert(data@ =~= Seq::new(row_len(width) as nat, |i: int| 0u8));
        Ok(Row { data })
    }

    /// Renders a row of `width` pixels: column by column, left to right, each
    /// pixel is what `shade` returns for its column. An error where the
    /// bytes of the row cannot be addressed; `shade` is then not called.
    pub fn render(width: u32, shade: impl Fn(u32) -> (u8, u8, u8)) -> (r: Result<
        Row,
        FramebufferError,
    >)
        requires
            forall|x: u32| x < width ==> call_requires(shade, (x,)),
        ensures
            r is Ok <==> row_len(width) <= usize::MAX,
            r is Ok ==> {
                &&& r.unwrap()@.len() == row_len(width)
                &&& forall|x: u32|
                    x < width ==> call_ensures(shade, (x,), #[trigger] pixel_at(r.unwrap()@, x * 3))
            },
    {
        let mut row = match Row::new(width) {
            Ok(row) => row,
            Err(e) => {
                return Err(e);
            },
        };
        let mut x: u32 = 0;
        while x < width
            invariant
                0 <= x <= width,
                row@.len() == row_len(width),
                forall|c: u32| c < width ==> call_requires(shade, (c,)),
                forall|c: u32| c < x ==> call_ensures(shade, (c,), #[trigger] pixel_at(row@, c * 3)),
            decreases width - x,
        {
            let rgb = shade(x);
            let ghost before = row@;
            row.put_pixel(x, rgb);
            assert forall|c: u32| c < x + 1 implies call_ensures(
                shade,
                (c,),
                #[trigger] pixel_at(row@, c * 3),
            ) by {
                if c < x {
                    assert(pixel_at(row@, c * 3) == pixel_at(before, c * 3));
                }
            }
            x += 1;
        }
        Ok(row)
    }

    /// The number of bytes in the row.
    pub fn len(&self) -> (n: usize)
        ensures
            n == self@.len(),
    {
        self.data.len()
    }

    /// Sets the pixel in column `x`.
    pub fn put_pixel(&mut self, x: u32, rgb: (u8, u8, u8))
        requires
            x * 3 + 3 <= old(self)@.len(),
        ensures
            final(self)@ == with_pixel(old(self)@, x * 3, rgb),
    {
        assert(self@.len() == self.data.len());
        let at: usize = x as usize * 3;
        self.data[at] = rgb.0;
        self.data[at + 1] = rgb.1;
        self.data[at + 2] = rgb.2;
    }

    /// The pixel in column `x`.
    pub fn pixel(&self, x: u32) -> (rgb: (u8, u8, u8))
        requires
            x * 3 + 3 <= self@.len(),
        ensures
            rgb == pixel_at(self@, x * 3),
    {
        assert(self@.len() == self.data.len());
        let at: usize = x as usize * 3;
        (self.data[at], self.data[at + 1], self.data[at + 2])
    }
}

/// The image under construction.
#[derive(Debug)]
pub struct Framebuffer {
    width: u32,
    height: u32,
    data: Vec<u8>,
}

impl View for Framebuffer {
    type V = Seq<u8>;

    closed spec fn view(&self) -> Seq<u8> {
        self.data@
    }
}

impl Framebuffer {
    /// The number of columns.
    pub closed spec fn spec_width(&self) -> u32 {
        self.width
    }

    /// The number of rows.
    pub closed spec fn spec_height(&self) -> u32 {
        self.height
    }

    /// The buffer holds exactly the bytes of its pixels, and they can be
    /// addressed.
    pub open spec fn wf(&self) -> bool {
        self@.len() == byte_len(self.spec_width(), self.spec_height()) <= usize::MAX
    }

    /// Where the pixel `(x, y)` starts.
    pub open spec fn spec_offset(&self, x: u32, y: u32) -> int {
        pixel_offset(self.spec_width(), self.spec_height(), x, y)
    }

    /// A black image; an error where its bytes cannot be addressed.
    pub fn new(width: u32, height: u32) -> (r: Result<Framebuffer, FramebufferError>)
        ensures
            r is Ok <==> byte_len(width, height) <= usize::MAX,
            r is Err ==> r == Err::<Framebuffer, FramebufferError>(FramebufferError::TooLarge),
            r is Ok ==> {
                &&& r.unwrap().wf()
                &&& r.unwrap().spec_width() == width
                &&& r.unwrap().spec_height() == height
                &&& r.unwrap()@ == Seq::new(byte_len(width, height) as nat, |i: int| 0u8)
            },
    {
        assert(width * height <= 0xFFFF_FFFF * 0xFFFF_FFFF) by (nonlinear_arith)
            requires
                width <= 0xFFFF_FFFF,
                height <= 0xFFFF_FFFF,
        ;
        let cells: u64 = width as u64 * height as u64;
        let total: u128 = cells as u128 * 3;
        if total > usize::MAX as u128 {
            return Err(FramebufferError::TooLarge);
        }
        let n: usize = total as usize;
        let data: Vec<u8> = vec![0u8; n];
        assert(data@ =~= Seq::new(byte_len(width, height) as nat, |i: int| 0u8));
        Ok(Framebuffer { width, height, data })
    }

    /// The image made of `rows`, where `rows[y]` is sampled row `y`: every
    /// row is stored in its place, the last one first. An error where the
    /// bytes cannot be addressed, or else where the rows do not fit.
    pub fn assemble(width: u32, height: u32, rows: &Vec<Row>) -> (r: Result<
        Framebuffer,
        FramebufferError,
    >)
        ensures
            r is Ok <==> byte_len(width, height) <= usize::MAX && rows_fit(rows@, width, height),
            r is Err ==> r.unwrap_err() == if byte_len(width, height) > usize::MAX {
                FramebufferError::TooLarge
            } else {
                FramebufferError::RowMismatch
            },
            r is Ok ==> {
                &&& r.unwrap().wf()
                &&& r.unwrap().spec_width() == width
                &&& r.unwrap().spec_height() == height
                &&& forall|y: u32|
                    y < height ==> #[trigger] holds_row(
                        r.unwrap()@,
                        width,
                        height,
                        y,
                        rows@[y as int]@,
                    )
            },
    {
        let mut image = match Framebuffer::new(width, height) {
            Ok(image) => image,
            Err(e) => {
                return Err(e);
            },
        };
        if rows.len() != height as usize {
            return Err(FramebufferError::RowMismatch);
        }
        let mut y: u32 = 0;
        while y < height
            invariant
                0 <= y <= height,
                rows@.len() == height,
                image.wf(),
                image.spec_width() == width,
                image.spec_height() == height,
                forall|k: int| 0 <= k < y ==> (#[trigger] rows@[k])@.len() == row_len(width),
                forall|k: u32|
                    k < y ==> #[trigger] holds_row(image@, width, height, k, rows@[k as int]@),
            decreases height - y,
        {
            let row = &rows[y as usize];
            proof {
                lemma_rows_in_bounds(width, height, y);
            }
            if row.len() != width as usize * 3 {
                return Err(FramebufferError::RowMismatch);
            }
            let ghost before = image@;
            image.store_row(y, row);
            assert forall|k: u32| k < y + 1 implies #[trigger] holds_row(
                image@,
                width,
                height,
                k,
                rows@[k as int]@,
            ) by {
                if k < y {
                    lemma_rows_in_bounds(width, height, k);
                    lemma_rows_disjoint(width, height, k, y);
                    assert(holds_row(before, width, height, k, rows@[k as int]@));
                }
            }
            y += 1;
        }
        Ok(image)
    }

    /// The number of columns.
    pub fn width(&self) -> (w: u32)
        ensures
            w == self.spec_width(),
    {
        self.width
    }

    /// The number of rows.
    pub fn height(&self) -> (h: u32)
        ensures
            h == self.spec_height(),
    {
        self.height
    }

    /// The bytes, top row first.
    pub fn bytes(&self) -> (b: &Vec<u8>)
        ensures
            b@ == self@,
    {
        &self.data
    }

    /// Gives the bytes away, top row first.
    pub fn into_bytes(self) -> (b: Vec<u8>)
        ensures
            b@ == self@,
    {
        self.data
    }

    /// Where sampled row `y` starts.
    pub fn row_offset(&self, y: u32) -> (at: usize)
        requires
            self.wf(),
            y < self.spec_height(),
        ensures
            at == row_start(self.spec_width(), self.spec_height(), y),
            at + row_len(self.spec_width()) <= self@.len(),
    {
        proof {
            lemma_rows_in_bounds(self.width, self.height, y);
        }
        let k: usize = (self.height - 1 - y) as usize;
        let r: usize = self.width as usize * 3;
        k * r
    }

    /// Where the pixel in column `x` of sampled row `y` starts.
    pub fn offset(&self, x: u32, y: u32) -> (at: usize)
        requires
            self.wf(),
            x < self.spec_width(),
            y < self.spec_height(),
        ensures
            at == self.spec_offset(x, y),
            at + 3 <= self@.len(),
    {
        proof {
            lemma_pixel_in_bounds(self.width, self.height, x, y);
        }
        let start: usize = self.row_offset(y);
        start + x as usize * 3
    }

    /// Writes the pixel in column `x` of sampled row `y`; no other byte
    /// changes.
    pub fn put_pixel(&mut self, x: u32, y: u32, rgb: (u8, u8, u8))
        requires
            old(self).wf(),
            x < old(self).spec_width(),
            y < old(self).spec_height(),
        ensures
            final(self).wf(),
            final(self).spec_width() == old(self).spec_width(),
            final(self).spec_height() == old(self).spec_height(),
            final(self)@ == with_pixel(old(self)@, old(self).spec_offset(x, y), rgb),
    {
        let at: usize = self.offset(x, y);
        self.data[at] = rgb.0;
        self.data[at + 1] = rgb.1;
        self.data[at + 2] = rgb.2;
    }

    /// Reads the pixel in column `x` of sampled row `y`.
    pub fn pixel(&self, x: u32, y: u32) -> (rgb: (u8, u8, u8))
        requires
            self.wf(),
            x < self.spec_width(),
            y < self.spec_height(),
        ensures
            rgb == pixel_at(self@, self.spec_offset(x, y)),
    {
        let at: usize = self.offset(x, y);
        (self.data[at], self.data[at + 1], self.data[at + 2])
    }

    /// Stores a finished row as sampled row `y`; no byte of another row
    /// changes.
    pub fn store_row(&mut self, y: u32, row: &Row)
        requires
            old(self).wf(),
            y < old(self).spec_height(),
            row@.len() == row_len(old(self).spec_width()),
        ensures
            final(self).wf(),
            final(self).spec_width() == old(self).spec_width(),
            final(self).spec_height() == old(self).spec_height(),
            final(self)@ == with_row(
                old(self)@,
                row_start(old(self).spec_width(), old(self).spec_height(), y),
                row@,
            ),
    {
        let start: usize = self.row_offset(y);
        let n: usize = row.len();
        let mut i: usize = 0;
        while i < n
            invariant
                0 <= i <= n,
                n == row@.len(),
                start + n <= self@.len(),
                self@.len() == old(self)@.len() <= usize::MAX,
                self.width == old(self).width,
                self.height == old(self).height,
                forall|j: int|
                    0 <= j < self@.len() ==> self@[j] == if start <= j < start + i {
                        row@[j - start]
                    } else {
                        old(self)@[j]
                    },
            decreases n - i,
        {
            self.data[start + i] = row.data[i];
            i += 1;
        }
        assert(self@ =~= with_row(old(self)@, start as int, row@));
    }
}

} // verus!
