use vstd::prelude::*;

verus! {

/// Bit `i` of a 16-bit value.
pub open spec fn bit16(v: u16, i: u16) -> bool {
    (v >> i) & 1 == 1
}

/// Each bit `i` of `w` moved to position `2i`.
pub open spec fn spread(w: u16) -> u16 {
    (w & 1) | ((w & 2) << 1u16) | ((w & 4) << 2u16) | ((w & 8) << 3u16) | ((w & 16) << 4u16)
        | ((w & 32) << 5u16) | ((w & 64) << 6u16) | ((w & 128) << 7u16)
}

/// A byte widened to 16 bits with every bit doubled: bit `i` lands on bits `2i` and `2i+1`.
pub open spec fn expanded(b: u8) -> u16 {
    spread(b as u16) | (spread(b as u16) << 1u16)
}

/// Doubles every bit of `n` horizontally, for drawing in low resolution:
/// bit `i` of `n` becomes bits `2i` and `2i+1` of the result.
pub fn expand(n: u8) -> (r: u16)
    ensures
        forall|i: u16|
            #![trigger bit16(n as u16, i)]
            i < 8 ==> bit16(r, (2 * i) as u16) == bit16(n as u16, i) && bit16(r, (2 * i + 1) as u16)
                == bit16(n as u16, i),
        r == expanded(n),
{
    let w = n as u16;
    let s: u16 = (w & 1) | ((w & 2) << 1u16) | ((w & 4) << 2u16) | ((w & 8) << 3u16) | ((w & 16)
        << 4u16) | ((w & 32) << 5u16) | ((w & 64) << 6u16) | ((w & 128) << 7u16);
    proof {
        lemma_expand_bits(n);
    }
    s | (s << 1u16)
}

/// Every bit `i` of a byte shows up, after expansion, at bits `2i` and `2i+1`;
/// zero expands to zero and a full byte to a full 16-bit word.
pub proof fn lemma_expand_bits(b: u8)
    ensures
        forall|i: u16|
            #![trigger bit16(b as u16, i)]
            i < 8 ==> bit16(expanded(b), (2 * i) as u16) == bit16(b as u16, i) && bit16(
                expanded(b),
                (2 * i + 1) as u16,
            ) == bit16(b as u16, i),
        expanded(0) == 0,
        expanded(0xFF) == 0xFFFF,
{
    lemma_expand_bits_bv(b);
    assert(expanded(0) == 0 && expanded(0xFF) == 0xFFFF) by (bit_vector);
}

proof fn lemma_expand_bits_bv(b: u8)
    by (bit_vector)
    ensures
        forall|i: u16|
            #![trigger bit16(b as u16, i)]
            i < 8 ==> bit16(expanded(b), (2 * i) as u16) == bit16(b as u16, i) && bit16(
                expanded(b),
                (2 * i + 1) as u16,
            ) == bit16(b as u16, i),
{
}

/// `v` rotated left by `k` bit positions (`k < 128`).
pub open spec fn rotl(v: u128, k: u32) -> u128 {
    if k == 0 {
        v
    } else {
        (v << k) | (v >> ((128 - k) as u32))
    }
}

/// `v` rotated right by `k` bit positions (`k < 128`).
pub open spec fn rotr(v: u128, k: u32) -> u128 {
    if k == 0 {
        v
    } else {
        (v >> k) | (v << ((128 - k) as u32))
    }
}

fn rotate_left(v: u128, k: u32) -> (r: u128)
    requires
        k < 128,
    ensures
        r == rotl(v, k),
{
    if k == 0 {
        v
    } else {
        (v << k) | (v >> (128 - k))
    }
}

fn rotate_right(v: u128, k: u32) -> (r: u128)
    requires
        k < 128,
    ensures
        r == rotr(v, k),
{
    if k == 0 {
        v
    } else {
        (v >> k) | (v << (128 - k))
    }
}

/// What a display holds: 64 rows of 128 pixels, pixel `x` of a row being its
/// bit `127 - x`; the resolution mode; whether anything was drawn since the
/// last read.
pub struct Screen {
    pub rows: Seq<u128>,
    pub hi_res: bool,
    pub dirty: bool,
}

/// The packed monochrome framebuffer.
pub struct Display {
    d: [u128; 64],
    hi_res: bool,
    dirty: bool,
}

impl View for Display {
    type V = Screen;

    closed spec fn view(&self) -> Screen {
        Screen { rows: self.d@, hi_res: self.hi_res, dirty: self.dirty }
    }
}

/// Pixel `x` (0 = leftmost) of a packed row.
pub open spec fn pixel(row: u128, x: int) -> bool {
    (row >> ((127 - x) as u128)) & 1 == 1
}

/// Column at which a write places its pattern: doubled in low resolution.
pub open spec fn write_col(x: usize, hi: bool) -> int {
    if hi {
        (x % 128) as int
    } else {
        2 * (x % 64)
    }
}

/// First row that a write touches: doubled in low resolution.
pub open spec fn write_row(y: usize, hi: bool) -> int {
    if hi {
        (y % 64) as int
    } else {
        2 * (y % 32)
    }
}

/// The 128-bit row pattern that a write of byte `b` at column `x` XORs in:
/// the byte (expanded in low resolution) rotated left by `112 - col`, modulo 128.
pub open spec fn write_pattern(b: u8, x: usize, hi: bool) -> u128 {
    let bits: u128 = if hi {
        b as u128
    } else {
        expanded(b) as u128
    };
    rotl(bits, ((240 - write_col(x, hi)) % 128) as u32)
}

/// The rows after writing byte `b` at `(x, y)`.
pub open spec fn write_rows(rows: Seq<u128>, hi: bool, b: u8, x: usize, y: usize) -> Seq<u128> {
    let p = write_pattern(b, x, hi);
    let r = write_row(y, hi);
    let once = rows.update(r, rows[r] ^ p);
    if hi {
        once
    } else {
        once.update(r + 1, rows[r + 1] ^ p)
    }
}

/// Whether writing byte `b` at `(x, y)` clears a pixel that was set.
pub open spec fn write_erases(rows: Seq<u128>, hi: bool, b: u8, x: usize, y: usize) -> bool {
    let p = write_pattern(b, x, hi);
    let r = write_row(y, hi);
    (p & rows[r]) != 0 || (!hi && (p & rows[r + 1]) != 0)
}

/// The rows after rotating them down by `n` (modulo 64) and blanking the top two.
pub open spec fn down_scrolled(rows: Seq<u128>, n: int) -> Seq<u128> {
    Seq::new(
        64,
        |i: int|
            if i < 2 {
                0u128
            } else {
                rows[(i + 64 - n % 64) % 64]
            },
    )
}

/// The rows after rotating each right by `n` bits (left by `-n` when `n < 0`);
/// unchanged for `n == 0`.
pub open spec fn side_scrolled(rows: Seq<u128>, n: i32) -> Seq<u128> {
    Seq::new(
        rows.len(),
        |i: int|
            if n > 0 {
                rotr(rows[i], (n % 128) as u32)
            } else if n < 0 {
                rotl(rows[i], ((-n) % 128) as u32)
            } else {
                rows[i]
            },
    )
}

impl Display {
    /// A blank display in low resolution, with nothing drawn.
    pub fn new() -> (r: Display)
        ensures
            r@.rows == Seq::new(64, |i: int| 0u128),
            !r@.hi_res,
            !r@.dirty,
    {
        let r = Display { d: [0u128; 64], hi_res: false, dirty: false };
        assert(r@.rows =~= Seq::new(64, |i: int| 0u128));
        r
    }

    /// Switches to 128x64 drawing.
    pub fn hi_res_mode(&mut self)
        ensures
            final(self)@ == (Screen { hi_res: true, ..old(self)@ }),
    {
        self.hi_res = true
    }

    /// Switches to 64x32 drawing, doubled into the packed surface.
    pub fn low_res_mode(&mut self)
        ensures
            final(self)@ == (Screen { hi_res: false, ..old(self)@ }),
    {
        self.hi_res = false
    }

    /// Rotates all rows down by `n` (modulo 64), then blanks rows 0 and 1.
    pub fn scroll_down(&mut self, n: u32)
        ensures
            final(self)@ == (Screen { rows: down_scrolled(old(self)@.rows, n as int), ..old(self)@ }),
    {
        let before = self.d;
        let mut i: usize = 0;
        while i < 64
            invariant
                i <= 64,
                self.hi_res == old(self).hi_res,
                self.dirty == old(self).dirty,
                before@ == old(self).d@,
                forall|k: int| 0 <= k < i ==> self.d@[k] == down_scrolled(before@, n as int)[k],
            decreases 64 - i,
        {
            let v: u128 = if i < 2 {
                0
            } else {
                before[(i + 64 - (n % 64) as usize) % 64]
            };
            self.d[i] = v;
            i += 1;
        }
        assert(self.d@ =~= down_scrolled(before@, n as int));
    }

    /// Rotates every row right by `n` bits, or left by `-n` bits when `n < 0`.
    /// A zero `n` leaves the display as it is.
    pub fn scroll_side(&mut self, n: i32)
        ensures
            final(self)@ == (Screen { rows: side_scrolled(old(self)@.rows, n), ..old(self)@ }),
    {
        let k: u32 = if n >= 0 {
            (n % 128) as u32
        } else {
            ((-(n as i64)) % 128) as u32
        };
        let mut i: usize = 0;
        while i < 64
            invariant
                i <= 64,
                k < 128,
                n > 0 ==> k == n % 128,
                n < 0 ==> k == (-n) % 128,
                self.hi_res == old(self).hi_res,
                self.dirty == old(self).dirty,
                forall|j: int| i <= j < 64 ==> self.d@[j] == old(self).d@[j],
                forall|j: int|
                    0 <= j < i ==> self.d@[j] == side_scrolled(old(self).d@, n)[j],
            decreases 64 - i,
        {
            let row = self.d[i];
            if n > 0 {
                self.d[i] = rotate_right(row, k);
            } else if n < 0 {
                self.d[i] = rotate_left(row, k);
            }
            i += 1;
        }
        assert(self.d@ =~= side_scrolled(old(self).d@, n));
    }

    /// Blanks every row and marks the display as drawn on.
    pub fn clear(&mut self)
        ensures
            final(self)@ == (Screen { rows: Seq::new(64, |i: int| 0u128), dirty: true, ..old(self)@ }),
    {
        self.d = [0u128; 64];
        self.dirty = true;
        assert(self.d@ =~= Seq::new(64, |i: int| 0u128));
    }

    /// XORs byte `b` into the surface at `(x, y)`, doubled in both axes in low
    /// resolution, and tells whether a set pixel was cleared.
    pub fn write(&mut self, b: u8, x: usize, y: usize) -> (erased: bool)
        ensures
            final(self)@ == (Screen {
                rows: write_rows(old(self)@.rows, old(self)@.hi_res, b, x, y),
                hi_res: old(self)@.hi_res,
                dirty: true,
            }),
            erased == write_erases(old(self)@.rows, old(self)@.hi_res, b, x, y),
    {
        let hi = self.hi_res;
        let bits: u128;
        let col: usize;
        let row: usize;
        if hi {
            bits = b as u128;
            col = x % 128;
            row = y % 64;
        } else {
            bits = expand(b) as u128;
            col = (x % 64) * 2;
            row = (y % 32) * 2;
        }
        let p = rotate_left(bits, ((240 - col) % 128) as u32);
        self.dirty = true;
        let mut erased = p & self.d[row] != 0;
        self.d[row] = self.d[row] ^ p;
        if !hi {
            if p & self.d[row + 1] != 0 {
                erased = true;
            }
            self.d[row + 1] = self.d[row + 1] ^ p;
        }
        erased
    }

    /// The whole surface; the display counts as seen afterwards.
    pub fn read(&mut self) -> (r: &[u128; 64])
        ensures
            r@ == old(self)@.rows,
            final(self)@ == (Screen { dirty: false, ..old(self)@ }),
    {
        self.dirty = false;
        &self.d
    }

    /// Whether pixel `(x, y)` of the 128x64 surface is set; the display counts
    /// as seen afterwards.
    pub fn read_px(&mut self, x: usize, y: usize) -> (r: bool)
        requires
            x < 128,
            y < 64,
        ensures
            r == pixel(old(self)@.rows[y as int], x as int),
            final(self)@ == (Screen { dirty: false, ..old(self)@ }),
    {
        self.dirty = false;
        (self.d[y] >> ((127 - x) as u128)) & 1 == 1
    }

    /// A display always holds 64 rows.
    pub proof fn lemma_row_count(&self)
        ensures
            self@.rows.len() == 64,
    {
    }

    /// Whether the display draws at 128x64.
    pub fn hi_res(&self) -> (r: bool)
        ensures
            r == self@.hi_res,
    {
        self.hi_res
    }

    /// Whether anything was drawn since the last read.
    pub fn dirty(&self) -> (r: bool)
        ensures
            r == self@.dirty,
    {
        self.dirty
    }
}

impl Default for Display {
    fn default() -> (r: Display)
        ensures
            r@.rows == Seq::new(64, |i: int| 0u128),
            !r@.hi_res,
            !r@.dirty,
    {
        Display::new()
    }
}

proof fn lemma_pattern_nonzero(b: u8, x: usize, hi: bool)
    requires
        b != 0,
    ensures
        write_pattern(b, x, hi) != 0,
{
    let k = ((240 - write_col(x, hi)) % 128) as u32;
    assert(b != 0 ==> expanded(b) != 0) by (bit_vector);
    let bits: u128 = if hi {
        b as u128
    } else {
        expanded(b) as u128
    };
    assert(bits != 0);
    assert(k < 128);
    assert(bits != 0 && k < 128 ==> rotl(bits, k) != 0) by (bit_vector);
}

/// Drawing the same byte twice at the same place restores every pixel; the
/// second draw clears a pixel exactly when the byte's pattern covers one that
/// was unset before the first. So a nonzero byte drawn on blank rows reports no
/// clearing the first time and reports clearing the second time.
pub proof fn lemma_write_twice(rows: Seq<u128>, hi: bool, b: u8, x: usize, y: usize)
    requires
        rows.len() == 64,
    ensures
        write_rows(write_rows(rows, hi, b, x, y), hi, b, x, y) == rows,
        write_erases(write_rows(rows, hi, b, x, y), hi, b, x, y) <==> ((write_pattern(b, x, hi)
            & !rows[write_row(y, hi)]) != 0 || (!hi && (write_pattern(b, x, hi) & !rows[write_row(
            y,
            hi,
        ) + 1]) != 0)),
        b != 0 && rows[write_row(y, hi)] == 0 && (hi || rows[write_row(y, hi) + 1] == 0) ==> !write_erases(
            rows,
            hi,
            b,
            x,
            y,
        ) && write_erases(write_rows(rows, hi, b, x, y), hi, b, x, y),
{
    let p = write_pattern(b, x, hi);
    let r = write_row(y, hi);
    assert(forall|a: u128, q: u128| #[trigger] ((a ^ q) ^ q) == a) by (bit_vector);
    assert(forall|a: u128, q: u128| #[trigger] (q & (a ^ q)) == q & !a) by (bit_vector);
    assert(write_rows(write_rows(rows, hi, b, x, y), hi, b, x, y) =~= rows);
    if b != 0 {
        lemma_pattern_nonzero(b, x, hi);
        if rows[r] == 0 && (hi || rows[r + 1] == 0) {
            assert(forall|q: u128| #[trigger] (q & 0u128) == 0 && (q & !0u128) == q) by (bit_vector);
            assert(!write_erases(rows, hi, b, x, y));
            assert(write_rows(rows, hi, b, x, y)[r] == rows[r] ^ p);
            assert((p & (rows[r] ^ p)) == p & !rows[r]);
        }
    }
}

/// Scrolling down by at most two rows leaves 64 rows, the top two blank.
pub proof fn lemma_scroll_down_top_blank(rows: Seq<u128>, n: int)
    requires
        rows.len() == 64,
        0 <= n <= 2,
    ensures
        down_scrolled(rows, n).len() == 64,
        down_scrolled(rows, n)[0] == 0,
        down_scrolled(rows, n)[1] == 0,
{
}

/// Rotating every row right by one bit and then left by one bit restores it.
pub proof fn lemma_scroll_side_undo(rows: Seq<u128>)
    ensures
        side_scrolled(side_scrolled(rows, 1), -1i32) == rows,
{
    assert(forall|v: u128| #[trigger] rotl(rotr(v, 1), 1) == v) by (bit_vector);
    assert(side_scrolled(side_scrolled(rows, 1), -1i32) =~= rows);
}

/// Glyphs loaded below the program: 16 low-resolution 5-byte digits, then
/// 16 high-resolution 10-byte digits.
pub const DEFAULT_FONT: [u8; 240] = [
    0xF0, 0x90, 0x90, 0x90, 0xF0, // 0
    0x20, 0x60, 0x20, 0x20, 0x70, // 1
    0xF0, 0x10, 0xF0, 0x80, 0xF0, // 2
    0xF0, 0x10, 0xF0, 0x10, 0xF0, // 3
    0x90, 0x90, 0xF0, 0x10, 0x10, // 4
    0xF0, 0x80, 0xF0, 0x10, 0xF0, // 5
    0xF0, 0x80, 0xF0, 0x90, 0xF0, // 6
    0xF0, 0x10, 0x20, 0x40, 0x40, // 7
    0xF0, 0x90, 0xF0, 0x90, 0xF0, // 8
    0xF0, 0x90, 0xF0, 0x10, 0xF0, // 9
    0xF0, 0x90, 0xF0, 0x90, 0x90, // A
    0xE0, 0x90, 0xE0, 0x90, 0xE0, // B
    0xF0, 0x80, 0x80, 0x80, 0x80, // C
    0xF0, 0x90, 0x90, 0x90, 0xE0, // D
    0xF0, 0x80, 0xF0, 0x80, 0xF0, // E
    0xF0, 0x80, 0xF0, 0x80, 0x80, // F
    // Super CHIP fonts
    0xFF, 0xFF, 0xC3, 0xC3, 0xC3, 0xC3, 0xC3, 0xC3, 0xFF, 0xFF, // 0
    0x18, 0x78, 0x78, 0x18, 0x18, 0x18, 0x18, 0x18, 0xFF, 0xFF, // 1
    0xFF, 0xFF, 0x03, 0x03, 0xFF, 0xFF, 0xC0, 0xC0, 0xFF, 0xFF, // 2
    0xFF, 0xFF, 0x03, 0x03, 0xFF, 0xFF, 0x03, 0x03, 0xFF, 0xFF, // 3
    0xC3, 0xC3, 0xC3, 0xC3, 0xFF, 0xFF, 0x03, 0x03, 0x03, 0x03, // 4
    0xFF, 0xFF, 0xC0, 0xC0, 0xFF, 0xFF, 0x03, 0x03, 0xFF, 0xFF, // 5
    0xFF, 0xFF, 0xC0, 0xC0, 0xFF, 0xFF, 0xC3, 0xC3, 0xFF, 0xFF, // 6
    0xFF, 0xFF, 0x03, 0x03, 0x06, 0x0C, 0x18, 0x18, 0x18, 0x18, // 7
    0xFF, 0xFF, 0xC3, 0xC3, 0xFF, 0xFF, 0xC3, 0xC3, 0xFF, 0xFF, // 8
    0xFF, 0xFF, 0xC3, 0xC3, 0xFF, 0xFF, 0x03, 0x03, 0xFF, 0xFF, // 9
    0x7E, 0xFF, 0xC3, 0xC3, 0xC3, 0xFF, 0xFF, 0xC3, 0xC3, 0xC3, // A
    0xFC, 0xFC, 0xC3, 0xC3, 0xFC, 0xFC, 0xC3, 0xC3, 0xFC, 0xFC, // B
    0x3C, 0xFF, 0xC3, 0xC0, 0xC0, 0xC0, 0xC0, 0xC3, 0xFF, 0x3C, // C
    0xFC, 0xFE, 0xC3, 0xC3, 0xC3, 0xC3, 0xC3, 0xC3, 0xFE, 0xFC, // D
    0xFF, 0xFF, 0xC0, 0xC0, 0xFF, 0xFF, 0xC0, 0xC0, 0xFF, 0xFF, // E
    0xFF, 0xFF, 0xC0, 0xC0, 0xFF, 0xFF, 0xC0, 0xC0, 0xC0, 0xC0, // F
];

} // verus!
