use vstd::prelude::*;
use crate::digits::{decimal, write_u8_decimal, write_usize_decimal, lemma_decimal_len, lemma_decimal_len_le_value, pow10};

verus! {

/// Bytes reserved for moving the cursor to the start of a row.
pub const CURSOR_SIZE: usize = 10;

/// Bytes reserved for one rendered pixel pair (at most 45 are written).
pub const PIXEL_SIZE: usize = 45;

/// Bytes reserved for a cursor skip in front of a pixel.
pub const SKIP_SIZE: usize = 8;

/// The control sequence introducer `ESC [`.
pub open spec fn csi() -> Seq<u8> {
    seq![27u8, 91u8]
}

/// `ESC [ 0 m`: resets colours.
pub open spec fn reset_seq() -> Seq<u8> {
    seq![27u8, 91u8, 48u8, 109u8]
}

/// The UTF-8 bytes of `▀`, the upper half block.
pub open spec fn half_block_glyph() -> Seq<u8> {
    seq![226u8, 150u8, 128u8]
}

/// `ESC [ 38 ; 2 ;`: starts a true-colour foreground.
pub open spec fn fg_prefix() -> Seq<u8> {
    seq![27u8, 91u8, 51u8, 56u8, 59u8, 50u8, 59u8]
}

/// `ESC [ 48 ; 2 ;`: starts a true-colour background.
pub open spec fn bg_prefix() -> Seq<u8> {
    seq![27u8, 91u8, 52u8, 56u8, 59u8, 50u8, 59u8]
}

/// The three colour components written as `r;g;b`.
pub open spec fn rgb_digits(r: u8, g: u8, b: u8) -> Seq<u8> {
    decimal(r as nat) + seq![59u8] + decimal(g as nat) + seq![59u8] + decimal(b as nat)
}

/// One terminal cell showing two pixels: the top one as the foreground colour
/// of `▀`, the bottom one as its background, followed by a colour reset.
pub open spec fn half_block(r_top: u8, g_top: u8, b_top: u8, r_bot: u8, g_bot: u8, b_bot: u8) -> Seq<u8> {
    fg_prefix() + rgb_digits(r_top, g_top, b_top) + seq![109u8]
        + bg_prefix() + rgb_digits(r_bot, g_bot, b_bot) + seq![109u8]
        + half_block_glyph() + reset_seq()
}

/// `ESC [ row ; 1 H`: moves the cursor to the first column of `row` (counted from 1).
pub open spec fn cursor_to_row(row: nat) -> Seq<u8> {
    csi() + decimal(row) + seq![59u8, 49u8, 72u8]
}

/// `ESC [ n C`: moves the cursor `n` columns right; nothing when `n` is zero.
pub open spec fn skip_seq(n: nat) -> Seq<u8> {
    if n == 0 {
        Seq::empty()
    } else {
        csi() + decimal(n) + seq![67u8]
    }
}

/// Whether column `px` differs between the current and previous rows, in the
/// top or in the bottom pixel (three bytes each, RGB).
pub open spec fn pixel_changed(top: Seq<u8>, bottom: Seq<u8>, prev_top: Seq<u8>, prev_bottom: Seq<u8>, px: nat) -> bool {
    let i = 3 * px as int;
    ||| top[i] != prev_top[i]
    ||| top[i + 1] != prev_top[i + 1]
    ||| top[i + 2] != prev_top[i + 2]
    ||| bottom[i] != prev_bottom[i]
    ||| bottom[i + 1] != prev_bottom[i + 1]
    ||| bottom[i + 2] != prev_bottom[i + 2]
}

/// The cell drawn for column `px`.
pub open spec fn pixel_cell(top: Seq<u8>, bottom: Seq<u8>, px: nat) -> Seq<u8> {
    let i = 3 * px as int;
    half_block(top[i], top[i + 1], top[i + 2], bottom[i], bottom[i + 1], bottom[i + 2])
}

/// The bytes written for the first `n` columns of a row, and the number of
/// unchanged columns passed over since the last cell written. A changed
/// column is written as a cell, preceded by a skip over the unchanged columns
/// before it; an unchanged column only adds to the pending skip.
pub open spec fn scan_row(top: Seq<u8>, bottom: Seq<u8>, prev_top: Seq<u8>, prev_bottom: Seq<u8>, n: nat) -> (Seq<u8>, nat)
    decreases n,
{
    if n == 0 {
        (Seq::empty(), 0)
    } else {
        let before = scan_row(top, bottom, prev_top, prev_bottom, (n - 1) as nat);
        if pixel_changed(top, bottom, prev_top, prev_bottom, (n - 1) as nat) {
            (before.0 + skip_seq(before.1) + pixel_cell(top, bottom, (n - 1) as nat), 0)
        } else {
            (before.0, before.1 + 1)
        }
    }
}

/// The bytes that redraw terminal row `y` (counted from 0) of `width` cells:
/// nothing when neither pixel row changed, otherwise a cursor move to the
/// row, the changed cells with skips over the unchanged ones, and a reset.
pub open spec fn row_output(y: nat, top: Seq<u8>, bottom: Seq<u8>, prev_top: Seq<u8>, prev_bottom: Seq<u8>, width: nat) -> Seq<u8> {
    if top == prev_top && bottom == prev_bottom {
        Seq::empty()
    } else {
        cursor_to_row(y + 1) + scan_row(top, bottom, prev_top, prev_bottom, width).0 + reset_seq()
    }
}

/// The largest number of bytes one row of `width` cells can take.
pub open spec fn spec_row_size(width: nat) -> int {
    CURSOR_SIZE + width * (PIXEL_SIZE + SKIP_SIZE) + 4 + 1
}

/// The size of the buffer reserved for one row of `width` cells.
pub fn row_size(width: usize) -> (size: usize)
    requires
        spec_row_size(width as nat) <= usize::MAX,
    ensures
        size == spec_row_size(width as nat),
{
    CURSOR_SIZE + width * (PIXEL_SIZE + SKIP_SIZE) + 4 + 1
}

fn push_csi(out: &mut Vec<u8>)
    ensures
        final(out)@ == old(out)@ + csi(),
{
    out.push(27);
    out.push(91);
}

fn push_reset(out: &mut Vec<u8>)
    ensures
        final(out)@ == old(out)@ + reset_seq(),
{
    out.push(27);
    out.push(91);
    out.push(48);
    out.push(109);
}

fn push_rgb(out: &mut Vec<u8>, r: u8, g: u8, b: u8) -> (len: usize)
    ensures
        final(out)@ == old(out)@ + rgb_digits(r, g, b),
        len == rgb_digits(r, g, b).len(),
        5 <= len <= 11,
{
    let a = write_u8_decimal(out, r);
    out.push(59);
    let c = write_u8_decimal(out, g);
    out.push(59);
    let d = write_u8_decimal(out, b);
    a + c + d + 2
}

/// Appends the cell for a top pixel `(r_top, g_top, b_top)` over a bottom
/// pixel `(r_bot, g_bot, b_bot)` and returns how many bytes it took.
pub fn write_half_block(out: &mut Vec<u8>, r_top: u8, g_top: u8, b_top: u8, r_bot: u8, g_bot: u8, b_bot: u8) -> (len: usize)
    ensures
        final(out)@ == old(out)@ + half_block(r_top, g_top, b_top, r_bot, g_bot, b_bot),
        len == half_block(r_top, g_top, b_top, r_bot, g_bot, b_bot).len(),
        33 <= len <= PIXEL_SIZE,
{
    out.push(27);
    out.push(91);
    out.push(51);
    out.push(56);
    out.push(59);
    out.push(50);
    out.push(59);
    let a = push_rgb(out, r_top, g_top, b_top);
    out.push(109);
    out.push(27);
    out.push(91);
    out.push(52);
    out.push(56);
    out.push(59);
    out.push(50);
    out.push(59);
    let b = push_rgb(out, r_bot, g_bot, b_bot);
    out.push(109);
    out.push(226);
    out.push(150);
    out.push(128);
    push_reset(out);
    7 + a + 1 + 7 + b + 1 + 3 + 4
}

/// Whether `cur` and `prev` differ at some index of `[from, to)`.
fn span_differs(cur: &[u8], prev: &[u8], from: usize, to: usize) -> (r: bool)
    requires
        from <= to <= cur@.len(),
        cur@.len() == prev@.len(),
    ensures
        r == exists|k: int| from <= k < to && cur@[k] != prev@[k],
{
    let mut k = from;
    while k < to
        invariant
            from <= k <= to <= cur@.len(),
            cur@.len() == prev@.len(),
            forall|j: int| from <= j < k ==> cur@[j] == prev@[j],
        decreases to - k,
    {
        if cur[k] != prev[k] {
            return true;
        }
        k = k + 1;
    }
    false
}

/// Whether a row of pixels differs from the same row of the previous frame;
/// compares 32 bytes at a time, then the tail.
pub fn row_has_changes(cur: &[u8], prev: &[u8]) -> (r: bool)
    requires
        cur@.len() == prev@.len(),
    ensures
        r == (cur@ != prev@),
{
    let len = cur.len();
    let mut i: usize = 0;
    while len - i >= 32
        invariant
            i <= len == cur@.len() == prev@.len(),
            forall|j: int| 0 <= j < i ==> cur@[j] == prev@[j],
        decreases len - i,
    {
        if span_differs(cur, prev, i, i + 32) {
            return true;
        }
        i = i + 32;
    }
    let r = span_differs(cur, prev, i, len);
    proof {
        if !r {
            assert(cur@ =~= prev@);
        }
    }
    r
}

/// Whether bit `b` of `mask` is set.
pub open spec fn bit_set(mask: u8, b: u8) -> bool {
    mask & (1u8 << b) != 0
}

proof fn lemma_empty_mask(b: u8)
    requires
        b < 8,
    ensures
        !bit_set(0, b),
{
    assert(0u8 & (1u8 << b) == 0) by (bit_vector);
}

proof fn lemma_set_bit(mask: u8, px: u8, b: u8)
    requires
        px < 8,
        b < 8,
    ensures
        bit_set(mask | (1u8 << px), b) == (b == px || bit_set(mask, b)),
{
    assert((mask | (1u8 << px)) & (1u8 << b) != 0 <==> (b == px || mask & (1u8 << b) != 0))
        by (bit_vector)
        requires
            px < 8,
            b < 8,
    ;
}

proof fn lemma_xor_or(a0: u8, b0: u8, a1: u8, b1: u8, a2: u8, b2: u8, a3: u8, b3: u8, a4: u8, b4: u8, a5: u8, b5: u8)
    ensures
        ((a0 ^ b0) | (a1 ^ b1) | (a2 ^ b2) | (a3 ^ b3) | (a4 ^ b4) | (a5 ^ b5) != 0) == (a0 != b0
            || a1 != b1 || a2 != b2 || a3 != b3 || a4 != b4 || a5 != b5),
{
    assert(((a0 ^ b0) | (a1 ^ b1) | (a2 ^ b2) | (a3 ^ b3) | (a4 ^ b4) | (a5 ^ b5) != 0) == (a0 != b0
        || a1 != b1 || a2 != b2 || a3 != b3 || a4 != b4 || a5 != b5)) by (bit_vector);
}

/// For the eight columns starting at `x`, the mask whose bit `b` is set
/// exactly when column `x + b` changed in the top or the bottom row.
pub fn changed_mask_8(top: &[u8], prev_top: &[u8], bottom: &[u8], prev_bottom: &[u8], x: usize) -> (mask: u8)
    requires
        3 * (x + 8) <= top@.len(),
        3 * (x + 8) <= prev_top@.len(),
        3 * (x + 8) <= bottom@.len(),
        3 * (x + 8) <= prev_bottom@.len(),
    ensures
        forall|b: u8| b < 8 ==> (#[trigger] bit_set(mask, b) <==> pixel_changed(top@, bottom@, prev_top@, prev_bottom@, (x + b) as nat)),
{
    let n = top.len();
    let i = x * 3;
    let mut mask: u8 = 0;
    let mut px: u8 = 0;
    proof {
        assert forall|b: u8| b < 8 implies !bit_set(0, b) by {
            lemma_empty_mask(b);
        }
    }
    while px < 8
        invariant
            px <= 8,
            i == x * 3,
            n == top@.len(),
            3 * (x + 8) <= top@.len(),
            3 * (x + 8) <= prev_top@.len(),
            3 * (x + 8) <= bottom@.len(),
            3 * (x + 8) <= prev_bottom@.len(),
            forall|b: u8| b < px ==> (#[trigger] bit_set(mask, b) <==> pixel_changed(top@, bottom@, prev_top@, prev_bottom@, (x + b) as nat)),
            forall|b: u8| px <= b < 8 ==> !#[trigger] bit_set(mask, b),
        decreases 8 - px,
    {
        let k = i + 3 * (px as usize);
        let diff = (top[k] ^ prev_top[k]) | (top[k + 1] ^ prev_top[k + 1]) | (top[k + 2] ^ prev_top[k + 2])
            | (bottom[k] ^ prev_bottom[k]) | (bottom[k + 1] ^ prev_bottom[k + 1]) | (bottom[k + 2] ^ prev_bottom[k + 2]);
        proof {
            lemma_xor_or(top@[k as int], prev_top@[k as int], top@[k + 1], prev_top@[k + 1], top@[k + 2], prev_top@[k + 2],
                bottom@[k as int], prev_bottom@[k as int], bottom@[k + 1], prev_bottom@[k + 1], bottom@[k + 2], prev_bottom@[k + 2]);
            assert(3 * ((x + px) as nat) == k);
        }
        if diff != 0 {
            let ghost old_mask = mask;
            mask = mask | (1u8 << px);
            proof {
                assert forall|b: u8| b < 8 implies #[trigger] bit_set(mask, b) == (b == px || bit_set(old_mask, b)) by {
                    lemma_set_bit(old_mask, px, b);
                }
            }
        }
        px = px + 1;
    }
    mask
}

/// Passing over `k` unchanged columns from column `n` only lengthens the pending skip.
pub proof fn lemma_scan_quiet(top: Seq<u8>, bottom: Seq<u8>, prev_top: Seq<u8>, prev_bottom: Seq<u8>, n: nat, k: nat)
    requires
        forall|j: nat| n <= j < n + k ==> !#[trigger] pixel_changed(top, bottom, prev_top, prev_bottom, j),
    ensures
        scan_row(top, bottom, prev_top, prev_bottom, n + k) == (
            scan_row(top, bottom, prev_top, prev_bottom, n).0,
            scan_row(top, bottom, prev_top, prev_bottom, n).1 + k,
        ),
    decreases k,
{
    if k > 0 {
        lemma_scan_quiet(top, bottom, prev_top, prev_bottom, n, (k - 1) as nat);
        assert(!pixel_changed(top, bottom, prev_top, prev_bottom, (n + k - 1) as nat));
    }
}

/// Appends a skip over `n` columns (nothing for zero) and returns its length.
fn write_skip(out: &mut Vec<u8>, n: usize) -> (len: usize)
    requires
        n < 100_000_000,
    ensures
        final(out)@ == old(out)@ + skip_seq(n as nat),
        len == skip_seq(n as nat).len(),
        n > 0 ==> len <= n + 3,
        n == 0 ==> len == 0,
{
    if n > 0 {
        push_csi(out);
        let d = write_usize_decimal(out, n);
        out.push(67);
        proof {
            lemma_decimal_len_le_value(n as nat);
        }
        d + 3
    } else {
        0
    }
}

/// What column `px` adds to the row when `skip` unchanged columns are
/// pending: a skip and the cell when it changed, nothing otherwise.
pub open spec fn column_bytes(skip: nat, changed: bool, top: Seq<u8>, bottom: Seq<u8>, px: nat) -> Seq<u8> {
    if changed {
        skip_seq(skip) + pixel_cell(top, bottom, px)
    } else {
        Seq::empty()
    }
}

/// One column of the scan, as the definition of `scan_row` unfolds it.
proof fn lemma_scan_step(top: Seq<u8>, bottom: Seq<u8>, prev_top: Seq<u8>, prev_bottom: Seq<u8>, n: nat)
    ensures
        scan_row(top, bottom, prev_top, prev_bottom, n + 1).0 == scan_row(top, bottom, prev_top, prev_bottom, n).0
            + column_bytes(scan_row(top, bottom, prev_top, prev_bottom, n).1,
                pixel_changed(top, bottom, prev_top, prev_bottom, n), top, bottom, n),
        scan_row(top, bottom, prev_top, prev_bottom, n + 1).1 == if pixel_changed(top, bottom, prev_top, prev_bottom, n) {
            0
        } else {
            scan_row(top, bottom, prev_top, prev_bottom, n).1 + 1
        },
{
    let before = scan_row(top, bottom, prev_top, prev_bottom, n);
    if pixel_changed(top, bottom, prev_top, prev_bottom, n) {
        assert(scan_row(top, bottom, prev_top, prev_bottom, n + 1).0 =~= before.0 + (skip_seq(before.1) + pixel_cell(top, bottom, n)));
    } else {
        assert(scan_row(top, bottom, prev_top, prev_bottom, n + 1).0 =~= before.0 + Seq::<u8>::empty());
    }
}

/// Appends what column `px` adds to the row and returns the new pending skip.
fn emit_column(out: &mut Vec<u8>, skip_count: usize, changed: bool, top: &[u8], bottom: &[u8], px: usize) -> (skip: usize)
    requires
        skip_count < 100_000_000,
        3 * px + 3 <= top@.len(),
        3 * px + 3 <= bottom@.len(),
    ensures
        final(out)@ == old(out)@ + column_bytes(skip_count as nat, changed, top@, bottom@, px as nat),
        skip == if changed { 0 } else { skip_count + 1 },
        changed ==> final(out)@.len() <= old(out)@.len() + skip_count + 48,
{
    if changed {
        let row_len = top.len();
        write_skip(out, skip_count);
        let i = px * 3;
        assert(i + 2 < row_len);
        write_half_block(out, top[i], top[i + 1], top[i + 2], bottom[i], bottom[i + 1], bottom[i + 2]);
        proof {
            assert(final(out)@ =~= old(out)@ + column_bytes(skip_count as nat, changed, top@, bottom@, px as nat));
        }
        0
    } else {
        proof {
            assert(final(out)@ =~= old(out)@ + column_bytes(skip_count as nat, changed, top@, bottom@, px as nat));
        }
        skip_count + 1
    }
}

/// Renders terminal row `y` from its top and bottom pixel rows (`3 * width`
/// RGB bytes each) against the same rows of the previous frame. The result
/// never exceeds the row buffer size `row_size(width)`.
pub fn render_row(
    y: usize,
    top: &[u8],
    bottom: &[u8],
    prev_top: &[u8],
    prev_bottom: &[u8],
    width: usize,
) -> (out: Vec<u8>)
    requires
        width <= u16::MAX,
        y < u16::MAX,
        top@.len() == 3 * width,
        bottom@.len() == 3 * width,
        prev_top@.len() == 3 * width,
        prev_bottom@.len() == 3 * width,
    ensures
        out@ == row_output(y as nat, top@, bottom@, prev_top@, prev_bottom@, width as nat),
        out@.len() <= spec_row_size(width as nat),
{
    let mut out: Vec<u8> = Vec::new();
    if !row_has_changes(top, prev_top) && !row_has_changes(bottom, prev_bottom) {
        return out;
    }
    push_csi(&mut out);
    write_usize_decimal(&mut out, y + 1);
    out.push(59);
    out.push(49);
    out.push(72);
    proof {
        reveal_with_fuel(pow10, 6);
        lemma_decimal_len((y + 1) as nat, 5);
        assert(out@ =~= cursor_to_row((y + 1) as nat));
    }
    let ghost header = out@;
    let ghost t = top@;
    let ghost b = bottom@;
    let ghost pt = prev_top@;
    let ghost pb = prev_bottom@;
    let mut skip_count: usize = 0;
    let mut x: usize = 0;
    while x < width
        invariant
            width <= u16::MAX,
            top@.len() == 3 * width,
            bottom@.len() == 3 * width,
            prev_top@.len() == 3 * width,
            prev_bottom@.len() == 3 * width,
            t == top@, b == bottom@, pt == prev_top@, pb == prev_bottom@,
            header.len() <= CURSOR_SIZE,
            x <= width,
            skip_count <= x,
            out@ == header + scan_row(t, b, pt, pb, x as nat).0,
            skip_count == scan_row(t, b, pt, pb, x as nat).1,
            out@.len() + 53 * skip_count <= header.len() + 53 * x,
        decreases width - x,
    {
        if x + 8 <= width {
            let mask = changed_mask_8(top, prev_top, bottom, prev_bottom, x);
            if mask == 0 {
                proof {
                    assert forall|j: nat| x <= j < x + 8 implies !#[trigger] pixel_changed(t, b, pt, pb, j) by {
                        lemma_empty_mask((j - x) as u8);
                        assert(bit_set(mask, (j - x) as u8) <==> pixel_changed(t, b, pt, pb, (x + (j - x) as u8) as nat));
                    }
                    lemma_scan_quiet(t, b, pt, pb, x as nat, 8);
                }
                skip_count = skip_count + 8;
                x = x + 8;
                continue;
            }
            let mut bit: u8 = 0;
            while bit < 8
                invariant
                    width <= u16::MAX,
                    top@.len() == 3 * width,
                    bottom@.len() == 3 * width,
                    prev_top@.len() == 3 * width,
                    prev_bottom@.len() == 3 * width,
                    t == top@, b == bottom@, pt == prev_top@, pb == prev_bottom@,
                    header.len() <= CURSOR_SIZE,
                    x + 8 <= width,
                    bit <= 8,
                    skip_count <= x + bit,
                    forall|c: u8| c < 8 ==> (#[trigger] bit_set(mask, c) <==> pixel_changed(t, b, pt, pb, (x + c) as nat)),
                    out@ == header + scan_row(t, b, pt, pb, (x + bit) as nat).0,
                    skip_count == scan_row(t, b, pt, pb, (x + bit) as nat).1,
                    out@.len() + 53 * skip_count <= header.len() + 53 * (x + bit),
                decreases 8 - bit,
            {
                let px = x + bit as usize;
                let changed = mask & (1u8 << bit) != 0;
                proof {
                    assert(bit_set(mask, bit) == changed);
                    assert(changed <==> pixel_changed(t, b, pt, pb, px as nat));
                    lemma_scan_step(t, b, pt, pb, px as nat);
                }
                skip_count = emit_column(&mut out, skip_count, changed, top, bottom, px);
                bit = bit + 1;
            }
            x = x + 8;
            continue;
        }
        let i = x * 3;
        let changed = !(top[i] == prev_top[i] && top[i + 1] == prev_top[i + 1] && top[i + 2] == prev_top[i + 2]
            && bottom[i] == prev_bottom[i] && bottom[i + 1] == prev_bottom[i + 1] && bottom[i + 2] == prev_bottom[i + 2]);
        proof {
            lemma_scan_step(t, b, pt, pb, x as nat);
        }
        skip_count = emit_column(&mut out, skip_count, changed, top, bottom, x);
        x = x + 1;
    }
    push_reset(&mut out);
    out
}

/// The byte length of one decoded frame: `2 * height` pixel rows of `width`
/// RGB pixels, two pixel rows per terminal row.
pub open spec fn frame_len(width: nat, height: nat) -> nat {
    width * (2 * height) * 3
}

/// The bytes that redraw terminal row `y` of a frame against the previous one.
pub open spec fn frame_row_output(frame: Seq<u8>, prev_frame: Seq<u8>, width: nat, y: nat) -> Seq<u8> {
    let top_start: int = ((2 * y) * width * 3) as int;
    let bottom_start: int = ((2 * y + 1) * width * 3) as int;
    row_output(
        y,
        frame.subrange(top_start, top_start + width * 3),
        frame.subrange(bottom_start, bottom_start + width * 3),
        prev_frame.subrange(top_start, top_start + width * 3),
        prev_frame.subrange(bottom_start, bottom_start + width * 3),
        width,
    )
}

/// The rows joined in order.
pub open spec fn concat_rows(rows: Seq<Seq<u8>>) -> Seq<u8>
    decreases rows.len(),
{
    if rows.len() == 0 {
        Seq::empty()
    } else {
        concat_rows(rows.drop_last()) + rows.last()
    }
}

/// The bytes that redraw the first `rows` terminal rows of a frame.
pub open spec fn frame_output(frame: Seq<u8>, prev_frame: Seq<u8>, width: nat, rows: nat) -> Seq<u8>
    decreases rows,
{
    if rows == 0 {
        Seq::empty()
    } else {
        frame_output(frame, prev_frame, width, (rows - 1) as nat) + frame_row_output(frame, prev_frame, width, (rows - 1) as nat)
    }
}

proof fn lemma_row_offsets(width: nat, height: nat, y: nat)
    requires
        y < height,
    ensures
        (2 * y + 1) * width * 3 + width * 3 <= frame_len(width, height),
        (2 * y) * width * 3 + width * 3 == (2 * y + 1) * width * 3,
{
    assert((2 * y + 1) * width * 3 + width * 3 == (2 * y + 2) * width * 3) by (nonlinear_arith);
    assert((2 * y) * width * 3 + width * 3 == (2 * y + 1) * width * 3) by (nonlinear_arith);
    assert((2 * y + 2) * width * 3 <= width * (2 * height) * 3) by (nonlinear_arith)
        requires
            y < height,
    ;
}

/// Renders terminal row `y` of `frame` against the same row of `prev_frame`.
pub fn render_frame_row(frame: &[u8], prev_frame: &[u8], width: usize, height: usize, y: usize) -> (out: Vec<u8>)
    requires
        width <= u16::MAX,
        height <= u16::MAX,
        y < height,
        frame@.len() == frame_len(width as nat, height as nat),
        prev_frame@.len() == frame@.len(),
    ensures
        out@ == frame_row_output(frame@, prev_frame@, width as nat, y as nat),
        out@.len() <= spec_row_size(width as nat),
        draws_upper_over_lower(out@, frame@, prev_frame@, width as nat, y as nat),
{
    proof {
        lemma_row_offsets(width as nat, height as nat, y as nat);
        assert(0 <= (2 * y) * width * 3) by (nonlinear_arith);
    }
    let frame_bytes = frame.len();
    assert(frame_bytes == frame@.len());
    let top_start = (y * 2) * width * 3;
    let bottom_start = (y * 2 + 1) * width * 3;
    let top = &frame[top_start..top_start + width * 3];
    let bottom = &frame[bottom_start..bottom_start + width * 3];
    let prev_top = &prev_frame[top_start..top_start + width * 3];
    let prev_bottom = &prev_frame[bottom_start..bottom_start + width * 3];
    let out = render_row(y, top, bottom, prev_top, prev_bottom, width);
    proof {
        assert(out@ == frame_row_output(frame@, prev_frame@, width as nat, y as nat));
        assert(3 * ((2 * y as nat + 1) * width + width) == (2 * y + 2) * width * 3) by (nonlinear_arith);
        lemma_frame_row_draws_all(frame@, prev_frame@, width as nat, y as nat);
    }
    out
}

/// Joins rendered rows into the bytes written for the frame, leaving out the
/// rows that had nothing to redraw.
pub fn assemble_rows(rows: &Vec<Vec<u8>>) -> (out: Vec<u8>)
    ensures
        out@ == concat_rows(rows@.map_values(|r: Vec<u8>| r@)),
{
    let mut out: Vec<u8> = Vec::new();
    let mut k: usize = 0;
    while k < rows.len()
        invariant
            k <= rows@.len(),
            out@ == concat_rows(rows@.map_values(|r: Vec<u8>| r@).take(k as int)),
        decreases rows@.len() - k,
    {
        let row = &rows[k];
        if row.len() > 0 {
            let mut j: usize = 0;
            let ghost start = out@;
            while j < row.len()
                invariant
                    j <= row@.len(),
                    out@ == start + row@.take(j as int),
                decreases row@.len() - j,
            {
                out.push(row[j]);
                j = j + 1;
                proof {
                    assert(row@.take(j as int) =~= row@.take(j - 1).push(row@[j - 1]));
                }
            }
            proof {
                assert(row@.take(row@.len() as int) =~= row@);
            }
        }
        proof {
            let views = rows@.map_values(|r: Vec<u8>| r@);
            assert(views.take(k + 1).drop_last() =~= views.take(k as int));
            assert(views.take(k + 1).last() == row@);
            if row@.len() == 0 {
                assert(out@ + row@ =~= out@);
            }
        }
        k = k + 1;
    }
    proof {
        let views = rows@.map_values(|r: Vec<u8>| r@);
        assert(views.take(rows@.len() as int) =~= views);
    }
    out
}

/// Renders a whole frame against the previous one, row after row: the bytes
/// to write to the terminal so that it shows `frame`.
pub fn render_frame(frame: &[u8], prev_frame: &[u8], width: usize, height: usize) -> (out: Vec<u8>)
    requires
        width <= u16::MAX,
        height <= u16::MAX,
        frame@.len() == frame_len(width as nat, height as nat),
        prev_frame@.len() == frame@.len(),
    ensures
        out@ == frame_output(frame@, prev_frame@, width as nat, height as nat),
{
    let mut out: Vec<u8> = Vec::new();
    let mut y: usize = 0;
    while y < height
        invariant
            y <= height,
            width <= u16::MAX,
            height <= u16::MAX,
            frame@.len() == frame_len(width as nat, height as nat),
            prev_frame@.len() == frame@.len(),
            out@ == frame_output(frame@, prev_frame@, width as nat, y as nat),
        decreases height - y,
    {
        let row = render_frame_row(frame, prev_frame, width, height, y);
        let mut j: usize = 0;
        let ghost start = out@;
        while j < row.len()
            invariant
                j <= row@.len(),
                out@ == start + row@.take(j as int),
            decreases row@.len() - j,
        {
            out.push(row[j]);
            j = j + 1;
            proof {
                assert(row@.take(j as int) =~= row@.take(j - 1).push(row@[j - 1]));
            }
        }
        proof {
            assert(row@.take(row@.len() as int) =~= row@);
        }
        y = y + 1;
    }
    out
}

/// The rows of a frame rendered one by one (in any order, as the renderer
/// does in parallel) and then joined give the bytes of the whole frame.
pub proof fn lemma_rows_join_to_frame(frame: Seq<u8>, prev_frame: Seq<u8>, width: nat, rows: nat)
    ensures
        concat_rows(Seq::new(rows, |y: int| frame_row_output(frame, prev_frame, width, y as nat)))
            == frame_output(frame, prev_frame, width, rows),
    decreases rows,
{
    if rows > 0 {
        lemma_rows_join_to_frame(frame, prev_frame, width, (rows - 1) as nat);
        let all = Seq::new(rows, |y: int| frame_row_output(frame, prev_frame, width, y as nat));
        assert(all.drop_last() =~= Seq::new((rows - 1) as nat, |y: int| frame_row_output(frame, prev_frame, width, y as nat)));
    }
}

/// A frame identical to the previous one redraws nothing.
pub proof fn lemma_unchanged_frame_is_silent(frame: Seq<u8>, width: nat, rows: nat)
    ensures
        frame_output(frame, frame, width, rows) == Seq::<u8>::empty(),
    decreases rows,
{
    if rows > 0 {
        lemma_unchanged_frame_is_silent(frame, width, (rows - 1) as nat);
        assert(frame_output(frame, frame, width, rows) =~= Seq::<u8>::empty());
    }
}

/// Whether a decoded frame for a terminal of `width` by `height` cells has a
/// byte length that fits a `usize`.
pub fn frame_len_fits(width: u16, height: u16) -> (b: bool)
    ensures
        b == (frame_len(width as nat, height as nat) <= usize::MAX),
{
    let w = width as u128;
    let h = height as u128;
    proof {
        assert(w * (2 * h) * 3 <= 65535 * (2 * 65535) * 3) by (nonlinear_arith)
            requires
                w <= 65535,
                h <= 65535,
        ;
    }
    let n = w * (2 * h) * 3;
    n <= usize::MAX as u128
}

/// The sizes the half-block renderer works with for a terminal of `width`
/// columns and `height` rows.
pub struct AnsiGeometry {
    pub term_width: usize,
    pub term_height: usize,
    /// Pixel rows asked of the decoder: two per terminal row.
    pub ffmpeg_height: usize,
    /// Bytes of one decoded RGB frame.
    pub raw_frame_size: usize,
    /// Bytes reserved for one rendered row.
    pub worst_row: usize,
}

impl AnsiGeometry {
    /// The geometry for a terminal of `width` by `height` cells.
    pub fn new(width: u16, height: u16) -> (g: AnsiGeometry)
        requires
            frame_len(width as nat, height as nat) <= usize::MAX,
        ensures
            g.term_width == width,
            g.term_height == height,
            g.ffmpeg_height == 2 * height,
            g.raw_frame_size == frame_len(width as nat, height as nat),
            g.worst_row == spec_row_size(width as nat),
    {
        let term_width = width as usize;
        let term_height = height as usize;
        let ffmpeg_height = term_height * 2;
        proof {
            assert(term_width * ffmpeg_height * 3 == frame_len(width as nat, height as nat)) by (nonlinear_arith)
                requires
                    term_width == width,
                    ffmpeg_height == 2 * height,
            ;
        }
        let raw_frame_size = term_width * ffmpeg_height * 3;
        let worst_row = row_size(term_width);
        AnsiGeometry { term_width, term_height, ffmpeg_height, raw_frame_size, worst_row }
    }
}

/// Whether `part` occurs in `s` as a run of consecutive bytes.
pub open spec fn contains_run(s: Seq<u8>, part: Seq<u8>) -> bool {
    exists|i: int| 0 <= i && i + part.len() <= s.len() && #[trigger] s.subrange(i, i + part.len()) == part
}

/// A run found in a prefix is still found after more bytes are appended.
proof fn lemma_contains_run_extend(s: Seq<u8>, more: Seq<u8>, part: Seq<u8>)
    requires
        contains_run(s, part),
    ensures
        contains_run(s + more, part),
{
    let i = choose|i: int| 0 <= i && i + part.len() <= s.len() && #[trigger] s.subrange(i, i + part.len()) == part;
    assert((s + more).subrange(i, i + part.len()) =~= s.subrange(i, i + part.len()));
}

/// A run found in a middle part is found in the whole.
proof fn lemma_contains_run_within(before: Seq<u8>, s: Seq<u8>, after: Seq<u8>, part: Seq<u8>)
    requires
        contains_run(s, part),
    ensures
        contains_run(before + s + after, part),
{
    let i = choose|i: int| 0 <= i && i + part.len() <= s.len() && #[trigger] s.subrange(i, i + part.len()) == part;
    let j = before.len() + i;
    assert((before + s + after).subrange(j, j + part.len()) =~= s.subrange(i, i + part.len()));
}

/// Every changed column among the first `n` is drawn: the scan holds its cell.
proof fn lemma_scan_draws_changed(top: Seq<u8>, bottom: Seq<u8>, prev_top: Seq<u8>, prev_bottom: Seq<u8>, n: nat, x: nat)
    requires
        x < n,
        pixel_changed(top, bottom, prev_top, prev_bottom, x),
    ensures
        contains_run(scan_row(top, bottom, prev_top, prev_bottom, n).0, pixel_cell(top, bottom, x)),
    decreases n,
{
    let m = (n - 1) as nat;
    lemma_scan_step(top, bottom, prev_top, prev_bottom, m);
    let before = scan_row(top, bottom, prev_top, prev_bottom, m);
    let cols = column_bytes(before.1, pixel_changed(top, bottom, prev_top, prev_bottom, m), top, bottom, m);
    if x == m {
        let whole = before.0 + skip_seq(before.1) + pixel_cell(top, bottom, x);
        assert(scan_row(top, bottom, prev_top, prev_bottom, n).0 =~= whole);
        let i = whole.len() - pixel_cell(top, bottom, x).len();
        assert(whole.subrange(i, i + pixel_cell(top, bottom, x).len()) =~= pixel_cell(top, bottom, x));
    } else {
        lemma_scan_draws_changed(top, bottom, prev_top, prev_bottom, m, x);
        lemma_contains_run_extend(before.0, cols, pixel_cell(top, bottom, x));
    }
}

/// A redrawn row starts by moving the cursor to the row (counted from 1),
/// and every changed column is drawn as the cell whose foreground is the top
/// pixel and whose background is the bottom pixel of that column.
pub proof fn lemma_row_draws_changed_cells(y: nat, top: Seq<u8>, bottom: Seq<u8>, prev_top: Seq<u8>, prev_bottom: Seq<u8>, width: nat, x: nat)
    requires
        x < width,
        top.len() == 3 * width,
        bottom.len() == 3 * width,
        prev_top.len() == 3 * width,
        prev_bottom.len() == 3 * width,
        pixel_changed(top, bottom, prev_top, prev_bottom, x),
    ensures
        row_output(y, top, bottom, prev_top, prev_bottom, width).take(cursor_to_row(y + 1).len() as int) == cursor_to_row(y + 1),
        contains_run(
            row_output(y, top, bottom, prev_top, prev_bottom, width),
            half_block(top[3 * x as int], top[3 * x as int + 1], top[3 * x as int + 2], bottom[3 * x as int], bottom[3 * x as int + 1], bottom[3 * x as int + 2]),
        ),
{
    let i = 3 * x as int;
    if top[i] != prev_top[i] || top[i + 1] != prev_top[i + 1] || top[i + 2] != prev_top[i + 2] {
        assert(top != prev_top);
    } else {
        assert(bottom != prev_bottom);
    }
    let scan = scan_row(top, bottom, prev_top, prev_bottom, width).0;
    lemma_scan_draws_changed(top, bottom, prev_top, prev_bottom, width, x);
    lemma_contains_run_within(cursor_to_row(y + 1), scan, reset_seq(), pixel_cell(top, bottom, x));
    assert((cursor_to_row(y + 1) + scan + reset_seq()).take(cursor_to_row(y + 1).len() as int) =~= cursor_to_row(y + 1));
}

/// Whether pixel `x` of pixel row `r` of a `width`-pixel-wide RGB frame
/// differs from the previous frame.
pub open spec fn frame_pixel_changed(frame: Seq<u8>, prev_frame: Seq<u8>, width: nat, r: nat, x: nat) -> bool {
    let p: int = (3 * (r * width + x)) as int;
    ||| frame[p] != prev_frame[p]
    ||| frame[p + 1] != prev_frame[p + 1]
    ||| frame[p + 2] != prev_frame[p + 2]
}

/// Terminal row `y` shows pixel rows `2y` and `2y + 1`: when pixel `x` of
/// either changed, the bytes drawn for the row move the cursor to row `y + 1`
/// and hold the cell whose foreground (`38;2`) is pixel `x` of pixel row `2y`
/// and whose background (`48;2`) is pixel `x` of pixel row `2y + 1`.
pub proof fn lemma_frame_row_draws_upper_over_lower(frame: Seq<u8>, prev_frame: Seq<u8>, width: nat, y: nat, x: nat)
    requires
        x < width,
        frame.len() == prev_frame.len(),
        3 * ((2 * y + 1) * width + width) <= frame.len(),
        frame_pixel_changed(frame, prev_frame, width, 2 * y, x) || frame_pixel_changed(frame, prev_frame, width, 2 * y + 1, x),
    ensures
        frame_row_output(frame, prev_frame, width, y).take(cursor_to_row(y + 1).len() as int) == cursor_to_row(y + 1),
        ({
            let t: int = (3 * ((2 * y) * width + x)) as int;
            let b: int = (3 * ((2 * y + 1) * width + x)) as int;
            contains_run(
                frame_row_output(frame, prev_frame, width, y),
                half_block(frame[t], frame[t + 1], frame[t + 2], frame[b], frame[b + 1], frame[b + 2]),
            )
        }),
{
    let ts: int = ((2 * y) * width * 3) as int;
    let bs: int = ((2 * y + 1) * width * 3) as int;
    let t: int = (3 * ((2 * y) * width + x)) as int;
    let b: int = (3 * ((2 * y + 1) * width + x)) as int;
    assert(ts + 3 * x == t && bs + 3 * x == b && ts + width * 3 == bs
        && bs + width * 3 == 3 * ((2 * y + 1) * width + width) && 0 <= ts) by (nonlinear_arith)
        requires
            ts == (2 * y) * width * 3,
            bs == (2 * y + 1) * width * 3,
            t == 3 * ((2 * y) * width + x),
            b == 3 * ((2 * y + 1) * width + x),
    ;
    assert(x * 3 + 2 < width * 3);
    let top = frame.subrange(ts, ts + width * 3);
    let bottom = frame.subrange(bs, bs + width * 3);
    let prev_top = prev_frame.subrange(ts, ts + width * 3);
    let prev_bottom = prev_frame.subrange(bs, bs + width * 3);
    let i = 3 * x as int;
    assert(top[i] == frame[t] && top[i + 1] == frame[t + 1] && top[i + 2] == frame[t + 2]);
    assert(bottom[i] == frame[b] && bottom[i + 1] == frame[b + 1] && bottom[i + 2] == frame[b + 2]);
    assert(prev_top[i] == prev_frame[t] && prev_top[i + 1] == prev_frame[t + 1] && prev_top[i + 2] == prev_frame[t + 2]);
    assert(prev_bottom[i] == prev_frame[b] && prev_bottom[i + 1] == prev_frame[b + 1] && prev_bottom[i + 2] == prev_frame[b + 2]);
    assert(3 * ((2 * y) * width + x) == t);
    assert(3 * ((2 * y + 1) * width + x) == b);
    assert(pixel_changed(top, bottom, prev_top, prev_bottom, x));
    lemma_row_draws_changed_cells(y, top, bottom, prev_top, prev_bottom, width, x);
}

/// Whether `out`, the bytes drawn for terminal row `y`, holds for every
/// changed pixel `x` of pixel rows `2y` or `2y + 1` a cursor move to row
/// `y + 1` at its start and the cell whose foreground (`38;2`) is pixel `x`
/// of row `2y` and whose background (`48;2`) is pixel `x` of row `2y + 1`.
pub open spec fn draws_upper_over_lower(out: Seq<u8>, frame: Seq<u8>, prev_frame: Seq<u8>, width: nat, y: nat) -> bool {
    forall|x: nat| #![trigger frame_pixel_changed(frame, prev_frame, width, 2 * y, x)]
        x < width && (frame_pixel_changed(frame, prev_frame, width, 2 * y, x)
        || frame_pixel_changed(frame, prev_frame, width, 2 * y + 1, x)) ==> {
            let t: int = (3 * ((2 * y) * width + x)) as int;
            let b: int = (3 * ((2 * y + 1) * width + x)) as int;
            &&& out.take(cursor_to_row(y + 1).len() as int) == cursor_to_row(y + 1)
            &&& contains_run(out, half_block(frame[t], frame[t + 1], frame[t + 2], frame[b], frame[b + 1], frame[b + 2]))
        }
}

/// The bytes drawn for a row of a frame draw every changed pixel pair with
/// the upper pixel row over the lower one.
pub proof fn lemma_frame_row_draws_all(frame: Seq<u8>, prev_frame: Seq<u8>, width: nat, y: nat)
    requires
        frame.len() == prev_frame.len(),
        3 * ((2 * y + 1) * width + width) <= frame.len(),
    ensures
        draws_upper_over_lower(frame_row_output(frame, prev_frame, width, y), frame, prev_frame, width, y),
{
    assert forall|x: nat| #![trigger frame_pixel_changed(frame, prev_frame, width, 2 * y, x)]
        x < width && (frame_pixel_changed(frame, prev_frame, width, 2 * y, x)
        || frame_pixel_changed(frame, prev_frame, width, 2 * y + 1, x)) implies {
            let t: int = (3 * ((2 * y) * width + x)) as int;
            let b: int = (3 * ((2 * y + 1) * width + x)) as int;
            &&& frame_row_output(frame, prev_frame, width, y).take(cursor_to_row(y + 1).len() as int) == cursor_to_row(y + 1)
            &&& contains_run(frame_row_output(frame, prev_frame, width, y), half_block(frame[t], frame[t + 1], frame[t + 2], frame[b], frame[b + 1], frame[b + 2]))
        } by {
        lemma_frame_row_draws_upper_over_lower(frame, prev_frame, width, y, x);
    }
}

} // verus!
