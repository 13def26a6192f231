//! The OLED display test: an SSD1309 128x64 module on I2C1 shows a random number in large
//! digits, which the user reads back.
use crate::text::{decimal_digits, decimal_digit_values, lemma_decimal_len};
use vstd::prelude::*;

verus! {

/// Display width in pixels.
pub const WIDTH: usize = 128;
/// Display height in pixels.
pub const HEIGHT: usize = 64;
/// RAM pages of eight rows.
pub const PAGES: usize = 8;
/// Digit magnification: 4-digit numbers are 92 x 28 pixels.
pub const SCALE: usize = 4;
/// Top row of the digits: they are centred vertically.
pub const DIGIT_TOP: usize = 18;

/// SSD1309 7-bit I2C addresses, selected by its SA0 pin on the module.
pub const ADDRESSES: [u8; 2] = [0x3C, 0x3D];
/// Control byte: the rest of the transfer is a command stream.
pub const CMD: u8 = 0x00;
/// Control byte: the rest of the transfer is display data.
pub const DATA: u8 = 0x40;
/// No operation.
pub const NOP: u8 = 0xE3;
/// Display on.
pub const DISPLAY_ON: u8 = 0xAF;

/// 5x7 digits, one byte per column, bit 0 at the top.
pub const DIGITS: [[u8; 5]; 10] = [
    [0x3E, 0x51, 0x49, 0x45, 0x3E],
    [0x00, 0x42, 0x7F, 0x40, 0x00],
    [0x42, 0x61, 0x51, 0x49, 0x46],
    [0x21, 0x41, 0x45, 0x4B, 0x31],
    [0x18, 0x14, 0x12, 0x7F, 0x10],
    [0x27, 0x45, 0x45, 0x45, 0x39],
    [0x3C, 0x4A, 0x49, 0x49, 0x30],
    [0x01, 0x71, 0x09, 0x05, 0x03],
    [0x36, 0x49, 0x49, 0x49, 0x36],
    [0x06, 0x49, 0x49, 0x29, 0x1E],
];

/// Whether row `row` of column `col` of the glyph of digit `d` is lit.
pub open spec fn glyph_bit(d: u8, col: int, row: int) -> bool {
    (DIGITS[d as int][col] >> (row as u8)) & 1u8 == 1u8
}

/// The number of digits of `number`.
pub open spec fn digit_count(number: u16) -> int {
    decimal_digits(number as nat).len() as int
}

/// Leftmost column of the digits of `number`: each digit takes 5 columns plus a 1-column gap,
/// except the last one, magnified SCALE times, and the whole is centred.
pub open spec fn digits_left(number: u16) -> int {
    (WIDTH - (digit_count(number) * 6 - 1) * SCALE) / 2
}

/// Whether pixel (`x`, `y`) belongs to a lit dot of `number` drawn in 5x7 digits magnified
/// SCALE times: the pixel falls in glyph cell (`cx`, `cy`), where every sixth column is the gap
/// between two digits.
pub open spec fn number_lit(number: u16, x: int, y: int) -> bool {
    let x0 = digits_left(number);
    let cx = (x - x0) / SCALE as int;
    let cy = (y - DIGIT_TOP) / SCALE as int;
    &&& x0 <= x
    &&& DIGIT_TOP <= y
    &&& cx < digit_count(number) * 6 - 1
    &&& cx % 6 < 5
    &&& cy < 7
    &&& glyph_bit(decimal_digits(number as nat)[cx / 6], cx % 6, cy)
}

/// The same picture, said the way it is drawn: the pixel lies in the SCALE x SCALE square of
/// a lit dot of the glyph of one of the digits.
pub open spec fn number_lit_by_squares(number: u16, x: int, y: int) -> bool {
    exists|i: int, col: int, row: int|
        0 <= i < digit_count(number) && 0 <= col < 5 && 0 <= row < 7 && #[trigger] glyph_bit(
            decimal_digits(number as nat)[i],
            col,
            row,
        ) && digits_left(number) + (i * 6 + col) * SCALE <= x < digits_left(number) + (i * 6
            + col) * SCALE + SCALE && DIGIT_TOP + row * SCALE <= y < DIGIT_TOP + row * SCALE
            + SCALE
}

/// The picture is the digits' lit dots, magnified: `number_lit` is the union of the squares
/// of the lit dots.
pub proof fn lemma_number_lit_is_squares(number: u16, x: int, y: int)
    ensures
        number_lit(number, x, y) <==> number_lit_by_squares(number, x, y),
{
    lemma_decimal_len(number as nat);
    let x0 = digits_left(number);
    let n = digit_count(number);
    if number_lit(number, x, y) {
        let cx = (x - x0) / 4;
        let cy = (y - 18) / 4;
        let i = cx / 6;
        let col = cx % 6;
        assert(cx == i * 6 + col);
        assert(0 <= i < n);
        assert(glyph_bit(decimal_digits(number as nat)[i], col, cy));
    }
    if number_lit_by_squares(number, x, y) {
        let (i, col, row) = choose|i: int, col: int, row: int|
            0 <= i < digit_count(number) && 0 <= col < 5 && 0 <= row < 7 && #[trigger] glyph_bit(
                decimal_digits(number as nat)[i],
                col,
                row,
            ) && digits_left(number) + (i * 6 + col) * SCALE <= x < digits_left(number) + (i
                * 6 + col) * SCALE + SCALE && DIGIT_TOP + row * SCALE <= y < DIGIT_TOP + row
                * SCALE + SCALE;
        let cx = (x - x0) / 4;
        assert(cx == i * 6 + col);
        assert((y - 18) / 4 == row);
        assert(cx / 6 == i);
        assert(cx % 6 == col);
    }
}

/// The digits are centred: the margins left and right of them differ by at most one column,
/// and the digits fit on the display.
pub proof fn lemma_digits_centred(number: u16)
    ensures
        0 <= digits_left(number),
        digits_left(number) + (digit_count(number) * 6 - 1) * SCALE <= WIDTH,
        WIDTH - (digits_left(number) + (digit_count(number) * 6 - 1) * SCALE) - digits_left(number)
            <= 1,
        DIGIT_TOP + 7 * SCALE <= HEIGHT,
        HEIGHT - (DIGIT_TOP + 7 * SCALE) == DIGIT_TOP,
{
    lemma_decimal_len(number as nat);
}

/// One bit per pixel, laid out like the SSD1309 RAM: 8 pages of 128 columns, one byte per
/// column of a page, bit 0 at the top.
pub struct Frame {
    bytes: Vec<u8>,
}

/// Whether pixel (`x`, `y`) is lit in the RAM image `bytes`.
pub open spec fn pixel(bytes: Seq<u8>, x: int, y: int) -> bool {
    (bytes[(y / 8) * WIDTH + x] >> ((y % 8) as u8)) & 1u8 == 1u8
}

impl View for Frame {
    type V = Seq<u8>;

    closed spec fn view(&self) -> Seq<u8> {
        self.bytes@
    }
}

impl Frame {
    pub open spec fn wf(&self) -> bool {
        self@.len() == PAGES * WIDTH
    }

    /// A frame with every pixel off.
    pub fn blank() -> (f: Self)
        ensures
            f.wf(),
            forall|i: int| 0 <= i < PAGES * WIDTH ==> f@[i] == 0,
    {
        let mut bytes: Vec<u8> = Vec::new();
        let mut i: usize = 0;
        while i < PAGES * WIDTH
            invariant
                i <= PAGES * WIDTH,
                bytes@.len() == i,
                forall|j: int| 0 <= j < i ==> bytes@[j] == 0,
            decreases PAGES * WIDTH - i,
        {
            bytes.push(0);
            i = i + 1;
        }
        Frame { bytes }
    }

    /// Whether pixel (`x`, `y`) is lit.
    pub fn is_lit(&self, x: usize, y: usize) -> (b: bool)
        requires
            self.wf(),
            x < WIDTH,
            y < HEIGHT,
        ensures
            b == pixel(self@, x as int, y as int),
    {
        let byte = self.bytes[(y / 8) * WIDTH + x];
        (byte >> ((y % 8) as u8)) & 1 == 1
    }

    /// The 128 column bytes of page `page`.
    pub fn page(&self, page: usize) -> (v: Vec<u8>)
        requires
            self.wf(),
            page < PAGES,
        ensures
            v@ == self@.subrange((page * WIDTH) as int, (page * WIDTH + WIDTH) as int),
    {
        let mut v: Vec<u8> = Vec::new();
        let mut i: usize = 0;
        while i < WIDTH
            invariant
                i <= WIDTH,
                page < PAGES,
                self.wf(),
                v@ =~= self@.subrange((page * WIDTH) as int, (page * WIDTH + i) as int),
            decreases WIDTH - i,
        {
            v.push(self.bytes[page * WIDTH + i]);
            i = i + 1;
        }
        v
    }
}

/// Whether pixel (`x`, `y`) is lit in the picture of the number whose digits are `digits`.
fn lit(digits: &Vec<u8>, number: Ghost<u16>, x0: usize, x: usize, y: usize) -> (b: bool)
    requires
        digits@ == decimal_digits(number@ as nat),
        x0 == digits_left(number@),
        x < WIDTH,
        y < HEIGHT,
    ensures
        b == number_lit(number@, x as int, y as int),
{
    proof { lemma_decimal_len(number@ as nat); }
    if x < x0 || y < DIGIT_TOP {
        return false;
    }
    let cx = (x - x0) / SCALE;
    let cy = (y - DIGIT_TOP) / SCALE;
    if cx >= digits.len() * 6 - 1 || cx % 6 >= 5 || cy >= 7 {
        return false;
    }
    let d = digits[cx / 6];
    assert(d < 10) by {
        lemma_digits_below_ten(number@ as nat, cx as int / 6);
    }
    (DIGITS[d as usize][cx % 6] >> (cy as u8)) & 1 == 1
}

/// Every decimal digit is below ten.
pub proof fn lemma_digits_below_ten(n: nat, i: int)
    requires
        0 <= i < decimal_digits(n).len(),
    ensures
        decimal_digits(n)[i] < 10,
    decreases n,
{
    if n >= 10 && i < decimal_digits(n / 10).len() {
        lemma_digits_below_ten(n / 10, i);
    }
}

/// Draws `number` centred, in 5x7 digits magnified SCALE times, over what the frame holds.
pub fn draw_number(frame: &mut Frame, number: u16)
    requires
        old(frame).wf(),
    ensures
        final(frame).wf(),
        forall|x: int, y: int|
            0 <= x < WIDTH && 0 <= y < HEIGHT ==> #[trigger] pixel(final(frame)@, x, y) == (pixel(
                old(frame)@,
                x,
                y,
            ) || number_lit(number, x, y)),
{
    let digits = decimal_digit_values(number as u32);
    proof { lemma_decimal_len(number as nat); }
    let x0 = (WIDTH - (digits.len() * 6 - 1) * SCALE) / 2;
    let ghost old_bytes = frame@;
    let mut page: usize = 0;
    while page < PAGES
        invariant
            page <= PAGES,
            digits@ == decimal_digits(number as nat),
            x0 == digits_left(number),
            frame.wf(),
            old_bytes.len() == PAGES * WIDTH,
            forall|i: int| page * WIDTH <= i < PAGES * WIDTH ==> frame@[i] == old_bytes[i],
            forall|x: int, y: int|
                0 <= x < WIDTH && 0 <= y < page * 8 ==> #[trigger] pixel(frame@, x, y) == (pixel(
                    old_bytes,
                    x,
                    y,
                ) || number_lit(number, x, y)),
        decreases PAGES - page,
    {
        let mut x: usize = 0;
        while x < WIDTH
            invariant
                page < PAGES,
                x <= WIDTH,
                digits@ == decimal_digits(number as nat),
                x0 == digits_left(number),
                frame.wf(),
                old_bytes.len() == PAGES * WIDTH,
                forall|i: int|
                    page * WIDTH + x <= i < PAGES * WIDTH ==> frame@[i] == old_bytes[i],
                forall|xx: int, y: int|
                    0 <= xx < WIDTH && 0 <= y < page * 8 ==> #[trigger] pixel(frame@, xx, y) == (
                    pixel(old_bytes, xx, y) || number_lit(number, xx, y)),
                forall|xx: int, y: int|
                    0 <= xx < x && page * 8 <= y < page * 8 + 8 ==> #[trigger] pixel(frame@, xx, y)
                        == (pixel(old_bytes, xx, y) || number_lit(number, xx, y)),
            decreases WIDTH - x,
        {
            let mut mask: u8 = 0;
            let mut bit: u8 = 0;
            assert(forall|b: u8| #![trigger 0u8 >> b] (0u8 >> b) & 1u8 == 0u8) by (bit_vector);
            while bit < 8
                invariant
                    page < PAGES,
                    x < WIDTH,
                    bit <= 8,
                    digits@ == decimal_digits(number as nat),
                    x0 == digits_left(number),
                    forall|b: u8| #![trigger mask >> b]
                        b < bit ==> ((mask >> b) & 1u8 == 1u8) == number_lit(
                            number,
                            x as int,
                            page * 8 + b,
                        ),
                    forall|b: u8| #![trigger mask >> b] bit <= b < 8 ==> (mask >> b) & 1u8 == 0u8,
                decreases 8 - bit,
            {
                let on = lit(&digits, Ghost(number), x0, x, page * 8 + bit as usize);
                let old_mask = mask;
                if on {
                    mask = mask | (1u8 << bit);
                }
                proof {
                    assert forall|b: u8| #![trigger mask >> b] b <= bit implies ((mask >> b) & 1u8
                        == 1u8) == number_lit(number, x as int, page * 8 + b) by {
                        if b < bit {
                            lemma_set_bit_keeps(old_mask, bit, b, on);
                        } else {
                            lemma_set_bit_sets(old_mask, bit, on);
                        }
                    }
                    assert forall|b: u8| #![trigger mask >> b] bit < b < 8 implies (mask >> b) & 1u8
                        == 0u8 by {
                        lemma_set_bit_keeps(old_mask, bit, b, on);
                    }
                }
                bit = bit + 1;
            }
            let idx = page * WIDTH + x;
            let ghost before = frame@;
            let old_byte = frame.bytes[idx];
            frame.bytes.set(idx, old_byte | mask);
            proof {
                assert forall|xx: int, y: int|
                    0 <= xx < WIDTH && 0 <= y < page * 8 implies #[trigger] pixel(frame@, xx, y)
                    == (pixel(old_bytes, xx, y) || number_lit(number, xx, y)) by {
                    assert((y / 8) * WIDTH + xx != idx);
                    assert(pixel(before, xx, y) == pixel(frame@, xx, y));
                }
                assert forall|xx: int, y: int|
                    0 <= xx <= x && page * 8 <= y < page * 8 + 8 implies #[trigger] pixel(
                    frame@,
                    xx,
                    y,
                ) == (pixel(old_bytes, xx, y) || number_lit(number, xx, y)) by {
                    if xx < x {
                        assert((y / 8) * WIDTH + xx != idx);
                        assert(pixel(before, xx, y) == pixel(frame@, xx, y));
                    } else {
                        let b = (y % 8) as u8;
                        assert(y / 8 == page);
                        assert(y == page * 8 + b);
                        assert(old_byte == old_bytes[idx as int]);
                        lemma_or_bit(old_byte, mask, b);
                    }
                }
            }
            x = x + 1;
        }
        page = page + 1;
    }
}

proof fn lemma_set_bit_keeps(mask: u8, bit: u8, b: u8, on: bool)
    requires
        bit < 8,
        b < 8,
        b != bit,
    ensures
        (((if on { mask | (1u8 << bit) } else { mask }) >> b) & 1u8) == ((mask >> b) & 1u8),
{
    assert(((mask | (1u8 << bit)) >> b) & 1u8 == (mask >> b) & 1u8) by (bit_vector)
        requires
            bit < 8,
            b < 8,
            b != bit,
    ;
}

proof fn lemma_set_bit_sets(mask: u8, bit: u8, on: bool)
    requires
        bit < 8,
        (mask >> bit) & 1u8 == 0u8,
    ensures
        ((((if on { mask | (1u8 << bit) } else { mask }) >> bit) & 1u8) == 1u8) == on,
{
    assert(((mask | (1u8 << bit)) >> bit) & 1u8 == 1u8) by (bit_vector)
        requires
            bit < 8,
    ;
}

proof fn lemma_or_bit(a: u8, m: u8, b: u8)
    requires
        b < 8,
    ensures
        ((((a | m) >> b) & 1u8) == 1u8) == ((((a >> b) & 1u8) == 1u8) || (((m >> b) & 1u8)
            == 1u8)),
{
    assert(((((a | m) >> b) & 1u8) == 1u8) == ((((a >> b) & 1u8) == 1u8) || (((m >> b) & 1u8)
        == 1u8))) by (bit_vector)
        requires
            b < 8,
    ;
}

/// Initialisation from the module datasheet (section 4.2): command unlock, display off,
/// clock A0h, 1/64 multiplex, no offset, start line 0, column 127 on SEG0 and remapped COM scan
/// (the vendor's upright orientation), alternative COM pins, contrast 7Fh, pre-charge 82h,
/// VCOMH 34h, display follows RAM, not inverted. The panel supply comes from the module's boost
/// converter, so unlike an SSD1306 there is no charge pump to enable.
pub const INIT: [u8; 22] = [
    0xFD, 0x12, 0xAE, 0xD5, 0xA0, 0xA8, 0x3F, 0xD3, 0x00, 0x40, 0xA1, 0xC8, 0xDA, 0x12, 0x81, 0x7F,
    0xD9, 0x82, 0xDB, 0x34, 0xA4, 0xA6,
];

/// One I2C write transfer: the control byte, then `bytes`.
pub fn transfer(control: u8, bytes: &[u8]) -> (v: Vec<u8>)
    ensures
        v@ == seq![control] + bytes@,
{
    let mut v: Vec<u8> = Vec::new();
    v.push(control);
    let mut i: usize = 0;
    while i < bytes.len()
        invariant
            i <= bytes.len(),
            v@ =~= seq![control] + bytes@.take(i as int),
        decreases bytes.len() - i,
    {
        v.push(bytes[i]);
        i = i + 1;
    }
    assert(bytes@.take(bytes.len() as int) =~= bytes@);
    v
}

/// The transfer that probes for the display: a command stream holding one NOP.
pub fn probe_transfer() -> (v: Vec<u8>)
    ensures
        v@ == seq![CMD, NOP],
{
    let v = transfer(CMD, &[NOP]);
    assert(v@ =~= seq![CMD, NOP]);
    v
}

/// The page address commands for page `page`: page start, then column 0 (lower and upper
/// nibble).
pub open spec fn page_address(page: int) -> Seq<u8> {
    seq![(0xB0 + page) as u8, 0x00u8, 0x10u8]
}

/// The transfers that show `frame`: the initialisation while the display is off, then each
/// page in page addressing mode (the reset mode) as its address commands and its 128 column
/// bytes, then display on. RAM is written while the display is off, so no stale content from
/// a previous run shows.
pub fn display_transfers(frame: &Frame) -> (t: Vec<Vec<u8>>)
    requires
        frame.wf(),
    ensures
        t@.len() == 2 * PAGES + 2,
        t@[0]@ == seq![CMD] + INIT@,
        forall|p: int|
            0 <= p < PAGES ==> (#[trigger] t@[1 + 2 * p])@ == seq![CMD] + page_address(p) && t@[2
                + 2 * p]@ == seq![DATA] + frame@.subrange(p * WIDTH, p * WIDTH + WIDTH),
        t@[2 * PAGES + 1]@ == seq![CMD, DISPLAY_ON],
{
    let mut t: Vec<Vec<u8>> = Vec::new();
    t.push(transfer(CMD, &INIT));
    let mut page: usize = 0;
    while page < PAGES
        invariant
            page <= PAGES,
            frame.wf(),
            t@.len() == 1 + 2 * page,
            t@[0]@ == seq![CMD] + INIT@,
            forall|p: int|
                0 <= p < page ==> (#[trigger] t@[1 + 2 * p])@ == seq![CMD] + page_address(p)
                    && t@[2 + 2 * p]@ == seq![DATA] + frame@.subrange(p * WIDTH, p * WIDTH
                    + WIDTH),
        decreases PAGES - page,
    {
        let p: u8 = page as u8;
        assert(0xB0u8 | p == 0xB0 + p) by (bit_vector)
            requires
                p < 8,
        ;
        let cmds = [0xB0 | p, 0x00, 0x10];
        let c = transfer(CMD, &cmds);
        assert(cmds@ =~= page_address(page as int));
        t.push(c);
        let columns = frame.page(page);
        t.push(transfer(DATA, columns.as_slice()));
        page = page + 1;
    }
    let on = transfer(CMD, &[DISPLAY_ON]);
    assert(on@ =~= seq![CMD, DISPLAY_ON]);
    t.push(on);
    t
}

/// Both I2C lines idle high, as the module's pull-ups hold them: the display is connected
/// and powered.
pub fn lines_idle(scl_high: bool, sda_high: bool) -> (b: bool)
    ensures
        b == (scl_high && sda_high),
{
    scl_high && sda_high
}

/// The name of a line level.
pub fn level(high: bool) -> (s: &'static str)
    ensures
        s@ == (if high { "high"@ } else { "low"@ }),
{
    if high { "high" } else { "low" }
}

/// The number to show: from 0 to 9999, drawn from a generator seeded with `seed`.
pub fn random_number(seed: u64) -> (n: u16)
    ensures
        n <= 9999,
{
    let mut rng = crate::random::seeded_rng(seed);
    crate::random::random_u16_in(&mut rng, 0, 9999)
}

} // verus!
